//! Reading and writing the fields of dynamic messages.
//!
//! A field is named by a path: the names of nested fields, joined by dots.

use crate::dynamic::course::{
    check_value, compare_schemas, compare_schemas_followed, ended, Course, Question,
};
use crate::dynamic::error::{error_of, DynamicError, ErrorView};
use crate::dynamic::schema::{
    copy_value, fields_view, DynamicMessage, DynamicValue, FieldSchema, FieldType, FieldView,
    MessageSchema, MessageView, SchemaView, TypeView, ValueView,
};
use crate::dynamic::validate::{
    acceptance_ignores_path, answered, below, both, element_path, elements_violation,
    fields_accepted_one_by_one, fields_equal, fields_violation, join_path, joined,
    message_violation, no_work, refused, schemas_equal, schemas_equal_congruent, schemas_match,
    schemas_work, spent, type_label_text, type_mismatch, types_equal, validate_value,
    validate_value_inner, value_check_ends, value_checked, value_work, violation, within_limits,
    ValidationBudget, Work, MAX_DYNAMIC_DEPTH, MAX_DYNAMIC_VALUES,
};
use crate::dynamic::value::{
    default_of_field, default_values, defaults_view, field_default, FromDynamic, IntoDynamic,
};
use crate::shared::share;
use crate::text::{
    decimal, decimal_text, join3, nothing_to_split, same_text, split, split_text, texts,
};
use std::sync::Arc;
use vstd::prelude::*;

verus! {

/// The index of the first field named `name`, or the number of fields.
pub open spec fn field_index(fields: Seq<FieldView>, name: Seq<char>) -> nat
    decreases fields.len(),
{
    if fields.len() == 0 {
        0
    } else if fields[0].name == name {
        0
    } else {
        1 + field_index(fields.skip(1), name)
    }
}

proof fn field_index_bounded(fields: Seq<FieldView>, name: Seq<char>)
    ensures
        field_index(fields, name) <= fields.len(),
    decreases fields.len(),
{
    if fields.len() > 0 {
        field_index_bounded(fields.skip(1), name);
    }
}

/// The first field named `name`.
fn find_field(fields: &Vec<FieldSchema>, name: &str) -> (r: Option<usize>)
    ensures
        match r {
            Some(i) => i < fields@.len() && i == field_index(fields_view(fields@), name@),
            None => field_index(fields_view(fields@), name@) == fields@.len(),
        },
{
    let ghost fs = fields_view(fields@);
    let mut i: usize = 0;
    assert(fs.skip(0) =~= fs);
    while i < fields.len()
        invariant
            i <= fields@.len(),
            fs == fields_view(fields@),
            field_index(fs, name@) == i + field_index(fs.skip(i as int), name@),
        decreases fields@.len() - i,
    {
        assert(fs.skip(i as int)[0] == fields@[i as int]@);
        if same_text(&fields[i].name, name) {
            return Some(i);
        }
        assert(fs.skip(i as int).skip(1) =~= fs.skip(i + 1));
        i = i + 1;
    }
    None
}

/// The error of a message whose values are not one for each field.
pub open spec fn cardinality_error(m: MessageView, path: Seq<char>) -> Option<ErrorView> {
    if m.schema.fields.len() != m.values.len() {
        Some(
            ErrorView::WrongArrayLength {
                path,
                expected: m.schema.fields.len(),
                actual: m.values.len(),
            },
        )
    } else {
        None
    }
}

/// The value at the field path `parts`.
pub open spec fn value_at(m: MessageView, parts: Seq<Seq<char>>) -> Result<ValueView, ErrorView>
    decreases parts.len(),
{
    let i = field_index(m.schema.fields, parts[0]);
    if parts.len() == 0 {
        Err(ErrorView::EmptyPath)
    } else if cardinality_error(m, "$"@) is Some {
        Err(cardinality_error(m, "$"@).unwrap())
    } else if i >= m.schema.fields.len() {
        Err(ErrorView::FieldNotFound(parts[0]))
    } else if parts.len() == 1 {
        Ok(m.values[i as int])
    } else {
        match m.values[i as int] {
            ValueView::Message(inner) => value_at(*inner, parts.skip(1)),
            _ => Err(ErrorView::NotAMessage(parts[0])),
        }
    }
}

/// The components of a field path.
pub open spec fn path_parts(path: Seq<char>) -> Seq<Seq<char>> {
    split(path, '.')
}

/// The error of a field path with too many components.
pub open spec fn path_error() -> ErrorView {
    ErrorView::ResourceLimitExceeded("field path exceeds 128 nested levels"@)
}

/// What reading the field at `path` gives.
pub open spec fn read_path(m: MessageView, path: Seq<char>) -> Result<ValueView, ErrorView> {
    if path_parts(path).len() > MAX_DYNAMIC_DEPTH + 1 {
        Err(path_error())
    } else {
        value_at(m, path_parts(path))
    }
}

/// The error that storing `v` at the field path `parts` below `prefix` deserves.
pub open spec fn store_violation(
    m: MessageView,
    parts: Seq<Seq<char>>,
    v: ValueView,
    prefix: Seq<char>,
) -> Option<ErrorView>
    decreases parts.len(),
{
    let i = field_index(m.schema.fields, parts[0]);
    let here = if prefix.len() == 0 { "$"@ } else { prefix };
    if parts.len() == 0 {
        Some(ErrorView::EmptyPath)
    } else if cardinality_error(m, here) is Some {
        cardinality_error(m, here)
    } else if i >= m.schema.fields.len() {
        Some(ErrorView::FieldNotFound(parts[0]))
    } else {
        let full = joined(prefix, parts[0]);
        let t = m.schema.fields[i as int].field_type;
        if parts.len() == 1 {
            violation(t, v, full)
        } else {
            match (t, m.values[i as int]) {
                (TypeView::Message(s), ValueView::Message(inner)) => if !schemas_equal(
                    *s,
                    inner.schema,
                ) {
                    Some(ErrorView::TypeMismatch { path: full, expected: type_label_text(t) })
                } else {
                    store_violation(*inner, parts.skip(1), v, full)
                },
                (TypeView::Message(_), _) => Some(
                    ErrorView::TypeMismatch { path: full, expected: type_label_text(t) },
                ),
                _ => Some(ErrorView::NotAMessage(parts[0])),
            }
        }
    }
}

/// The work of storing `v` at the field path `parts`.
pub open spec fn store_work(
    shared: bool,
    m: MessageView,
    parts: Seq<Seq<char>>,
    v: ValueView,
    prefix: Seq<char>,
) -> Work
    decreases parts.len(),
{
    let i = field_index(m.schema.fields, parts[0]);
    if parts.len() == 0 || cardinality_error(m, prefix) is Some || i >= m.schema.fields.len() {
        no_work()
    } else {
        let full = joined(prefix, parts[0]);
        let t = m.schema.fields[i as int].field_type;
        if parts.len() == 1 {
            value_work(shared, t, v, full)
        } else {
            match (t, m.values[i as int]) {
                (TypeView::Message(s), ValueView::Message(inner)) => {
                    let comparing = below(schemas_work(shared, *s, inner.schema));
                    if schemas_equal(*s, inner.schema) {
                        both(
                            comparing,
                            below(store_work(shared, *inner, parts.skip(1), v, full)),
                        )
                    } else {
                        comparing
                    }
                },
                _ => no_work(),
            }
        }
    }
}

/// The course of checking that `v` can be stored at the field path `parts` below
/// `prefix`: at each level the field is looked up, and its schema is compared with
/// that of the message which it holds.
pub open spec fn check_store(
    m: MessageView,
    parts: Seq<Seq<char>>,
    v: ValueView,
    prefix: Seq<char>,
    depth: nat,
    left: nat,
    asked: Seq<Question>,
) -> Course<Option<ErrorView>>
    decreases parts.len(),
{
    let i = field_index(m.schema.fields, parts[0]);
    let here = if prefix.len() == 0 { "$"@ } else { prefix };
    let full = joined(prefix, parts[0]);
    let t = m.schema.fields[i as int].field_type;
    let mismatch = ErrorView::TypeMismatch { path: full, expected: type_label_text(t) };
    if parts.len() == 0 {
        Course { result: Some(ErrorView::EmptyPath), left, rest: asked, fits: true }
    } else if cardinality_error(m, here) is Some {
        Course { result: cardinality_error(m, here), left, rest: asked, fits: true }
    } else if i >= m.schema.fields.len() {
        Course {
            result: Some(ErrorView::FieldNotFound(parts[0])),
            left,
            rest: asked,
            fits: true,
        }
    } else if parts.len() == 1 {
        check_value(t, v, full, depth, left, asked)
    } else {
        match (t, m.values[i as int]) {
            (TypeView::Message(s), ValueView::Message(inner)) => {
                let compared = compare_schemas(*s, inner.schema, depth + 1, left, asked);
                match compared.result {
                    Ok(true) if compared.fits => check_store(
                        *inner,
                        parts.skip(1),
                        v,
                        full,
                        depth + 1,
                        compared.left,
                        compared.rest,
                    ),
                    Ok(_) => Course {
                        result: Some(mismatch),
                        left: compared.left,
                        rest: compared.rest,
                        fits: compared.fits,
                    },
                    Err(e) => Course {
                        result: Some(e),
                        left: compared.left,
                        rest: compared.rest,
                        fits: compared.fits,
                    },
                }
            },
            (TypeView::Message(_), _) => Course {
                result: Some(mismatch),
                left,
                rest: asked,
                fits: true,
            },
            _ => Course {
                result: Some(ErrorView::NotAMessage(parts[0])),
                left,
                rest: asked,
                fits: true,
            },
        }
    }
}

/// Whether checking that `v` can be stored at `parts` can end so.
pub open spec fn store_checked(
    m: MessageView,
    parts: Seq<Seq<char>>,
    v: ValueView,
    prefix: Seq<char>,
    depth: nat,
    left: nat,
    error: Option<ErrorView>,
    after: nat,
) -> bool {
    exists|asked: Seq<Question>| #[trigger]
        answered(asked) && check_store(m, parts, v, prefix, depth, left, asked) == ended(
            error,
            after,
        )
}

/// Whether storing `v` at `path` can end with `error`.
pub open spec fn write_ends(
    m: MessageView,
    path: Seq<char>,
    v: ValueView,
    error: Option<ErrorView>,
) -> bool {
    if path_parts(path).len() > MAX_DYNAMIC_DEPTH + 1 {
        error == Some(path_error())
    } else {
        exists|left: nat| #[trigger]
            store_checked(
                m,
                path_parts(path),
                v,
                Seq::empty(),
                0,
                MAX_DYNAMIC_VALUES as nat,
                error,
                left,
            )
    }
}

/// The message with `v` stored at the field path `parts`.
pub open spec fn stored(m: MessageView, parts: Seq<Seq<char>>, v: ValueView) -> MessageView
    decreases parts.len(),
{
    let i = field_index(m.schema.fields, parts[0]) as int;
    if parts.len() == 0 {
        m
    } else if parts.len() == 1 {
        MessageView { schema: m.schema, values: m.values.update(i, v) }
    } else {
        match m.values[i] {
            ValueView::Message(inner) => MessageView {
                schema: m.schema,
                values: m.values.update(
                    i,
                    ValueView::Message(Box::new(stored(*inner, parts.skip(1), v))),
                ),
            },
            _ => m,
        }
    }
}

/// The error that storing `v` at `path` deserves.
pub open spec fn write_violation(m: MessageView, path: Seq<char>, v: ValueView) -> Option<
    ErrorView,
> {
    if path_parts(path).len() > MAX_DYNAMIC_DEPTH + 1 {
        Some(path_error())
    } else {
        store_violation(m, path_parts(path), v, Seq::empty())
    }
}

/// Whether storing `v` at `path` may be refused with `e`.
pub open spec fn write_refused(
    m: MessageView,
    path: Seq<char>,
    v: ValueView,
    e: ErrorView,
) -> bool {
    let parts = path_parts(path);
    if parts.len() > MAX_DYNAMIC_DEPTH + 1 {
        e == path_error()
    } else {
        refused(
            e,
            0,
            MAX_DYNAMIC_VALUES as nat,
            store_violation(m, parts, v, Seq::empty()),
            store_work(true, m, parts, v, Seq::empty()),
            store_work(false, m, parts, v, Seq::empty()),
        )
    }
}

fn check_path_depth(components: usize) -> (r: Result<(), DynamicError>)
    ensures
        match r {
            Ok(()) => components <= MAX_DYNAMIC_DEPTH + 1,
            Err(e) => components > MAX_DYNAMIC_DEPTH + 1 && e@ == path_error(),
        },
{
    if components > MAX_DYNAMIC_DEPTH + 1 {
        return Err(
            DynamicError::ResourceLimitExceeded("field path exceeds 128 nested levels".to_owned()),
        );
    }
    Ok(())
}

impl DynamicMessage {
    /// A message with the default value in every field.
    pub fn new(schema: &Arc<MessageSchema>) -> (r: Self)
        ensures
            r@ == (MessageView { schema: schema@, values: defaults_view(schema@.fields) }),
            r.schema == *schema,
    {
        let values: Vec<DynamicValue> = default_values(&schema.fields);
        DynamicMessage { schema: share(schema), values }
    }

    /// A message of the given values.
    pub fn from_values(schema: &Arc<MessageSchema>, values: Vec<DynamicValue>) -> (r: Self)
        ensures
            r.schema == *schema,
            r.values == values,
    {
        DynamicMessage { schema: share(schema), values }
    }

    /// The message's schema.
    pub fn schema(&self) -> (r: &MessageSchema)
        ensures
            *r == *self.schema,
    {
        &self.schema
    }

    /// The message's schema, for sharing.
    pub fn schema_arc(&self) -> (r: Arc<MessageSchema>)
        ensures
            r == self.schema,
    {
        share(&self.schema)
    }

    /// The value of the field at `path`, as a Rust value.
    pub fn get<T: FromDynamic>(&self, path: &str) -> (r: Result<T, DynamicError>)
        ensures
            match r {
                Ok(x) => read_path(self@, path@) matches Ok(v) && T::readable(v) && T::reads(v, x),
                Err(e) => match read_path(self@, path@) {
                    Ok(v) => !T::readable(v) && e@ == (ErrorView::TypeMismatch {
                        path: path@,
                        expected: T::label(),
                    }),
                    Err(expected) => e@ == expected,
                },
            },
    {
        let value = self.get_dynamic(path)?;
        match T::from_dynamic(&value) {
            Some(x) => Ok(x),
            None => Err(
                DynamicError::TypeMismatch { path: path.to_owned(), expected: T::rust_name() },
            ),
        }
    }

    /// The value of the field at `path`.
    pub fn get_dynamic(&self, path: &str) -> (r: Result<DynamicValue, DynamicError>)
        ensures
            match r {
                Ok(v) => read_path(self@, path@) == Ok::<ValueView, ErrorView>(v@),
                Err(e) => read_path(self@, path@) == Err::<ValueView, ErrorView>(e@),
            },
    {
        let parts: Vec<String> = split_text(path, '.');
        assert(texts(parts@).len() == parts@.len());
        check_path_depth(parts.len())?;
        assert(texts(parts@).skip(0) =~= texts(parts@));
        self.get_nested(&parts, 0)
    }

    /// The value at the components of `parts` from index `from` on.
    fn get_nested(&self, parts: &Vec<String>, from: usize) -> (r: Result<
        DynamicValue,
        DynamicError,
    >)
        requires
            from <= parts@.len(),
        ensures
            match r {
                Ok(v) => value_at(self@, texts(parts@).skip(from as int)) == Ok::<
                    ValueView,
                    ErrorView,
                >(v@),
                Err(e) => value_at(self@, texts(parts@).skip(from as int)) == Err::<
                    ValueView,
                    ErrorView,
                >(e@),
            },
        decreases parts@.len() - from,
    {
        if from == parts.len() {
            return Err(DynamicError::EmptyPath);
        }
        let ghost rest = texts(parts@).skip(from as int);
        self.ensure_cardinality("$")?;
        let name: &String = &parts[from];
        assert(rest[0] == name@);
        let i: usize = match find_field(&self.schema.fields, name) {
            Some(i) => i,
            None => return Err(DynamicError::FieldNotFound(name.clone())),
        };
        assert(self@.values[i as int] == self.values@[i as int]@);
        if from + 1 == parts.len() {
            return Ok(copy_value(&self.values[i]));
        }
        assert(rest.skip(1) =~= texts(parts@).skip(from + 1));
        match &self.values[i] {
            DynamicValue::Message(inner) => (&**inner).get_nested(parts, from + 1),
            _ => Err(DynamicError::NotAMessage(name.clone())),
        }
    }

    /// The value of the field of index `index`, as a Rust value.
    pub fn get_by_index<T: FromDynamic>(&self, index: usize) -> (r: Result<T, DynamicError>)
        ensures
            match r {
                Ok(x) => {
                    &&& cardinality_error(self@, "$"@) is None
                    &&& index < self@.values.len()
                    &&& T::readable(self@.values[index as int])
                    &&& T::reads(self@.values[index as int], x)
                },
                Err(e) => if cardinality_error(self@, "$"@) is Some {
                    cardinality_error(self@, "$"@) == Some(e@)
                } else if index >= self@.values.len() {
                    e@ == ErrorView::IndexOutOfBounds(index as nat)
                } else {
                    &&& !T::readable(self@.values[index as int])
                    &&& e@ == (ErrorView::TypeMismatch {
                        path: "["@ + decimal(index as nat) + "]"@,
                        expected: T::label(),
                    })
                },
            },
    {
        let value = self.get_dynamic_by_index(index)?;
        match T::from_dynamic(value) {
            Some(x) => Ok(x),
            None => Err(
                DynamicError::TypeMismatch {
                    path: join3("[", &decimal_text(index as u64), "]"),
                    expected: T::rust_name(),
                },
            ),
        }
    }

    /// The value of the field of index `index`.
    pub fn get_dynamic_by_index(&self, index: usize) -> (r: Result<&DynamicValue, DynamicError>)
        ensures
            match r {
                Ok(v) => {
                    &&& cardinality_error(self@, "$"@) is None
                    &&& index < self@.values.len()
                    &&& *v == self.values@[index as int]
                    &&& v@ == self@.values[index as int]
                },
                Err(e) => if cardinality_error(self@, "$"@) is Some {
                    cardinality_error(self@, "$"@) == Some(e@)
                } else {
                    index >= self@.values.len() && e@ == ErrorView::IndexOutOfBounds(index as nat)
                },
            },
    {
        self.ensure_cardinality("$")?;
        if index >= self.values.len() {
            return Err(DynamicError::IndexOutOfBounds(index));
        }
        assert(self@.values[index as int] == self.values@[index as int]@);
        Ok(&self.values[index])
    }

    /// Fails unless the message has one value for each field of its schema.
    fn ensure_cardinality(&self, path: &str) -> (r: Result<(), DynamicError>)
        ensures
            match r {
                Ok(()) => cardinality_error(self@, path@) is None,
                Err(e) => cardinality_error(self@, path@) == Some(e@),
            },
    {
        if self.schema.fields.len() != self.values.len() {
            return Err(
                DynamicError::WrongArrayLength {
                    path: path.to_owned(),
                    expected: self.schema.fields.len(),
                    actual: self.values.len(),
                },
            );
        }
        Ok(())
    }
}

/// What storing `v` in field `i` leaves behind, and the error it may end in.
pub open spec fn set_index_violation(m: MessageView, i: nat, v: ValueView) -> Option<ErrorView> {
    if cardinality_error(m, "$"@) is Some {
        cardinality_error(m, "$"@)
    } else if i >= m.values.len() {
        Some(ErrorView::IndexOutOfBounds(i))
    } else {
        violation(m.schema.fields[i as int].field_type, v, m.schema.fields[i as int].name)
    }
}

impl DynamicMessage {
    /// Stores `value` in the field at `path`.
    ///
    /// On an error the message is unchanged.
    pub fn set<T: IntoDynamic>(&mut self, path: &str, value: T) -> (r: Result<(), DynamicError>)
        ensures
            final(self).schema == old(self).schema,
            match r {
                Ok(()) => {
                    &&& write_violation(old(self)@, path@, value.as_dynamic()) is None
                    &&& within_limits(
                        store_work(
                            true,
                            old(self)@,
                            path_parts(path@),
                            value.as_dynamic(),
                            Seq::empty(),
                        ),
                    )
                    &&& final(self)@ == stored(
                        old(self)@,
                        path_parts(path@),
                        value.as_dynamic(),
                    )
                },
                Err(e) => {
                    &&& final(self)@ == old(self)@
                    &&& write_refused(old(self)@, path@, value.as_dynamic(), e@)
                },
            },
            write_ends(old(self)@, path@, value.as_dynamic(), error_of(r)),
    {
        self.set_dynamic(path, value.into_dynamic())
    }

    /// Stores the dynamic value `value` in the field at `path`.
    ///
    /// On an error the message is unchanged.
    pub fn set_dynamic(&mut self, path: &str, value: DynamicValue) -> (r: Result<
        (),
        DynamicError,
    >)
        ensures
            final(self).schema == old(self).schema,
            match r {
                Ok(()) => {
                    &&& write_violation(old(self)@, path@, value@) is None
                    &&& within_limits(
                        store_work(
                            true,
                            old(self)@,
                            path_parts(path@),
                            value@,
                            Seq::empty(),
                        ),
                    )
                    &&& final(self)@ == stored(old(self)@, path_parts(path@), value@)
                },
                Err(e) => {
                    &&& final(self)@ == old(self)@
                    &&& write_refused(old(self)@, path@, value@, e@)
                },
            },
            write_ends(old(self)@, path@, value@, error_of(r)),
    {
        let parts: Vec<String> = split_text(path, '.');
        assert(texts(parts@).len() == parts@.len());
        check_path_depth(parts.len())?;
        let mut budget = ValidationBudget { remaining: MAX_DYNAMIC_VALUES };
        assert(texts(parts@).skip(0) =~= texts(parts@));
        let root: String = String::new();
        assert(root@ =~= Seq::<char>::empty());
        let ghost before = self@;
        let ghost v = value@;
        let r = self.set_nested(&parts, 0, value, &root, 0, &mut budget);
        assert(store_checked(
            before,
            path_parts(path@),
            v,
            Seq::empty(),
            0,
            MAX_DYNAMIC_VALUES as nat,
            error_of(r),
            budget.remaining as nat,
        ));
        r
    }

    /// Stores `value` at the components of `parts` from index `from` on.
    fn set_nested(
        &mut self,
        parts: &Vec<String>,
        from: usize,
        value: DynamicValue,
        prefix: &str,
        depth: usize,
        budget: &mut ValidationBudget,
    ) -> (r: Result<(), DynamicError>)
        requires
            from <= parts@.len() <= MAX_DYNAMIC_DEPTH + 1,
            from <= MAX_DYNAMIC_DEPTH,
            depth == from,
        ensures
            final(self).schema == old(self).schema,
            final(budget).remaining <= old(budget).remaining,
            match r {
                Ok(()) => {
                    &&& store_violation(
                        old(self)@,
                        texts(parts@).skip(from as int),
                        value@,
                        prefix@,
                    ) is None
                    &&& final(self)@ == stored(
                        old(self)@,
                        texts(parts@).skip(from as int),
                        value@,
                    )
                    &&& spent(
                        depth as nat,
                        old(budget).remaining as nat,
                        final(budget).remaining as nat,
                        store_work(
                            true,
                            old(self)@,
                            texts(parts@).skip(from as int),
                            value@,
                            prefix@,
                        ),
                        store_work(
                            false,
                            old(self)@,
                            texts(parts@).skip(from as int),
                            value@,
                            prefix@,
                        ),
                    )
                },
                Err(e) => {
                    &&& final(self)@ == old(self)@
                    &&& refused(
                        e@,
                        depth as nat,
                        old(budget).remaining as nat,
                        store_violation(
                            old(self)@,
                            texts(parts@).skip(from as int),
                            value@,
                            prefix@,
                        ),
                        store_work(
                            true,
                            old(self)@,
                            texts(parts@).skip(from as int),
                            value@,
                            prefix@,
                        ),
                        store_work(
                            false,
                            old(self)@,
                            texts(parts@).skip(from as int),
                            value@,
                            prefix@,
                        ),
                    )
                },
            },
            store_checked(
                old(self)@,
                texts(parts@).skip(from as int),
                value@,
                prefix@,
                depth as nat,
                old(budget).remaining as nat,
                error_of(r),
                final(budget).remaining as nat,
            ),
        decreases parts@.len() - from,
    {
        assert(answered(Seq::<Question>::empty()));
        if from == parts.len() {
            return Err(DynamicError::EmptyPath);
        }
        let ghost rest = texts(parts@).skip(from as int);
        if prefix.unicode_len() == 0 {
            self.ensure_cardinality("$")?;
        } else {
            self.ensure_cardinality(prefix)?;
        }
        let name: &String = &parts[from];
        assert(rest[0] == name@);
        let i: usize = match find_field(&self.schema.fields, name) {
            Some(i) => i,
            None => return Err(DynamicError::FieldNotFound(name.clone())),
        };
        let full_path: String = join_path(prefix, name);
        assert(self@.values[i as int] == self.values@[i as int]@);
        assert(self@.schema.fields[i as int] == self.schema.fields@[i as int]@);
        if from + 1 == parts.len() {
            validate_value_inner(
                &self.schema.fields[i].field_type,
                &value,
                &full_path,
                depth,
                budget,
            )?;
            let ghost before = self@;
            self.values.set(i, value);
            assert(self@.values =~= before.values.update(i as int, value@));
            return Ok(());
        }
        assert(rest.skip(1) =~= texts(parts@).skip(from + 1));
        let ghost left = budget.remaining as nat;
        match (&self.schema.fields[i].field_type, &self.values[i]) {
            (FieldType::Message(expected), DynamicValue::Message(actual)) => {
                let matched = schemas_match(&**expected, &*actual.schema, depth + 1, budget);
                if !matched? {
                    return Err(type_mismatch(&full_path, &self.schema.fields[i].field_type));
                }
            },
            (FieldType::Message(_), _) => {
                return Err(type_mismatch(&full_path, &self.schema.fields[i].field_type));
            },
            _ => return Err(DynamicError::NotAMessage(name.clone())),
        }
        let ghost before = *self;
        let ghost middle = budget.remaining as nat;
        let ghost old_inner = before@.values[i as int]->Message_0;
        let r = match &mut self.values[i] {
            DynamicValue::Message(inner) => inner.set_nested(
                parts,
                from + 1,
                value,
                &full_path,
                depth + 1,
                budget,
            ),
            _ => Err(DynamicError::NotAMessage(name.clone())),
        };
        proof {
            assert forall|j: int| 0 <= j < before.values@.len() && j != i implies self@.values[j]
                == before@.values[j] by {
                assert(self.values@[j] == before.values@[j]);
            }
            assert(self@.values[i as int] == self.values@[i as int]@);
            match r {
                Ok(()) => {
                    assert(self@.values =~= before@.values.update(
                        i as int,
                        ValueView::Message(Box::new(stored(*old_inner, rest.skip(1), value@))),
                    ));
                },
                Err(_) => {
                    assert(self@.values =~= before@.values);
                },
            }
            let es = *before@.schema.fields[i as int].field_type->Message_0;
            let d = (depth + 1) as nat;
            let after = budget.remaining as nat;
            let first = choose|asked: Seq<Question>| #[trigger]
                answered(asked) && compare_schemas(es, old_inner.schema, d, left, asked) == ended(
                    Ok::<bool, ErrorView>(true),
                    middle,
                );
            let second = choose|asked: Seq<Question>| #[trigger]
                answered(asked) && check_store(
                    *old_inner,
                    rest.skip(1),
                    value@,
                    full_path@,
                    d,
                    middle,
                    asked,
                ) == ended(error_of(r), after);
            compare_schemas_followed(es, old_inner.schema, d, left, first, second);
            assert(Seq::<Question>::empty() + second =~= second);
            assert(answered(first + second));
        }
        r
    }
}

/// What is stored at a path is read back from it.
pub proof fn stored_value_is_read_back(
    m: MessageView,
    parts: Seq<Seq<char>>,
    v: ValueView,
    prefix: Seq<char>,
)
    requires
        store_violation(m, parts, v, prefix) is None,
    ensures
        value_at(stored(m, parts, v), parts) == Ok::<ValueView, ErrorView>(v),
    decreases parts.len(),
{
    let i = field_index(m.schema.fields, parts[0]) as int;
    if parts.len() > 1 {
        let inner = m.values[i]->Message_0;
        let t = m.schema.fields[i].field_type;
        assert(m.values[i] is Message);
        stored_value_is_read_back(*inner, parts.skip(1), v, joined(prefix, parts[0]));
    }
}

/// Storing a value changes no field at a path that parts from its own.
pub proof fn other_fields_keep_their_values(
    m: MessageView,
    parts: Seq<Seq<char>>,
    v: ValueView,
    prefix: Seq<char>,
    other: Seq<Seq<char>>,
)
    requires
        store_violation(m, parts, v, prefix) is None,
        exists|k: int| 0 <= k < parts.len() && k < other.len() && parts[k] != other[k],
    ensures
        value_at(stored(m, parts, v), other) == value_at(m, other),
    decreases parts.len(),
{
    let i = field_index(m.schema.fields, parts[0]);
    let j = field_index(m.schema.fields, other[0]);
    field_index_names_field(m.schema.fields, parts[0]);
    field_index_names_field(m.schema.fields, other[0]);
    assert(parts.len() >= 1);
    assert(i < m.schema.fields.len());
    if other[0] != parts[0] {
        if j < m.schema.fields.len() {
            assert(i != j);
        }
    } else {
        let k = choose|k: int| 0 <= k < parts.len() && k < other.len() && parts[k] != other[k];
        assert(parts.skip(1)[k - 1] != other.skip(1)[k - 1]);
        let inner = m.values[i as int]->Message_0;
        assert(m.values[i as int] is Message);
        other_fields_keep_their_values(
            *inner,
            parts.skip(1),
            v,
            joined(prefix, parts[0]),
            other.skip(1),
        );
    }
}

/// Whether no other field has the name of field `i`.
pub open spec fn named_once(fields: Seq<FieldView>, i: int) -> bool {
    &&& 0 <= i < fields.len()
    &&& forall|j: int|
        0 <= j < fields.len() && j != i ==> (#[trigger] fields[j]).name != fields[i].name
}

proof fn a_field_named_once_is_found(fields: Seq<FieldView>, i: int)
    requires
        named_once(fields, i),
    ensures
        field_index(fields, fields[i].name) == i,
    decreases fields.len(),
{
    if i > 0 {
        let rest = fields.skip(1);
        assert(fields[0].name != fields[i].name);
        assert forall|j: int| 0 <= j < rest.len() && j != i - 1 implies (#[trigger] rest[j]).name
            != rest[i - 1].name by {
            assert(rest[j] == fields[j + 1]);
        }
        a_field_named_once_is_found(rest, i - 1);
    }
}

/// Storing by the index of a field is storing by its name: the same course of the
/// check, with the same errors and limits, and the same message left behind.
pub proof fn storing_by_index_is_storing_by_name(m: MessageView, i: nat, v: ValueView)
    requires
        m.values.len() == m.schema.fields.len(),
        named_once(m.schema.fields, i as int),
        !m.schema.fields[i as int].name.contains('.'),
    ensures
        ({
            let field = m.schema.fields[i as int];
            let parts = path_parts(field.name);
            &&& write_violation(m, field.name, v) == set_index_violation(m, i, v)
            &&& stored(m, parts, v) == (MessageView {
                schema: m.schema,
                values: m.values.update(i as int, v),
            })
            &&& forall|shared: bool| #[trigger]
                store_work(shared, m, parts, v, Seq::empty()) == value_work(
                    shared,
                    field.field_type,
                    v,
                    field.name,
                )
            &&& forall|left: nat, asked: Seq<Question>| #[trigger]
                check_store(m, parts, v, Seq::empty(), 0, left, asked) == check_value(
                    field.field_type,
                    v,
                    field.name,
                    0,
                    left,
                    asked,
                )
            &&& forall|error: Option<ErrorView>| #[trigger]
                write_ends(m, field.name, v, error) == value_check_ends(
                    field.field_type,
                    v,
                    field.name,
                    error,
                )
        }),
{
    let name = m.schema.fields[i as int].name;
    nothing_to_split(name, '.');
    a_field_named_once_is_found(m.schema.fields, i as int);
    assert(path_parts(name)[0] == name);
    assert(joined(Seq::empty(), name) == name);
    let t = m.schema.fields[i as int].field_type;
    let parts = path_parts(name);
    assert forall|left: nat, asked: Seq<Question>| #[trigger]
        check_store(m, parts, v, Seq::empty(), 0, left, asked) == check_value(
            t,
            v,
            name,
            0,
            left,
            asked,
        ) by {}
    let most = MAX_DYNAMIC_VALUES as nat;
    assert forall|error: Option<ErrorView>, left: nat| #[trigger]
        store_checked(m, parts, v, Seq::empty(), 0, most, error, left) == value_checked(
            t,
            v,
            name,
            0,
            most,
            error,
            left,
        ) by {
        if store_checked(m, parts, v, Seq::empty(), 0, most, error, left) {
            let asked = choose|asked: Seq<Question>| #[trigger]
                answered(asked) && check_store(m, parts, v, Seq::empty(), 0, most, asked)
                    == ended(error, left);
            assert(check_value(t, v, name, 0, most, asked) == ended(error, left));
        }
        if value_checked(t, v, name, 0, most, error, left) {
            let asked = choose|asked: Seq<Question>| #[trigger]
                answered(asked) && check_value(t, v, name, 0, most, asked) == ended(error, left);
            assert(check_store(m, parts, v, Seq::empty(), 0, most, asked) == ended(error, left));
        }
    }
    assert forall|error: Option<ErrorView>| #[trigger]
        write_ends(m, name, v, error) == value_check_ends(t, v, name, error) by {
        if value_check_ends(t, v, name, error) {
            let left = choose|left: nat| #[trigger]
                value_checked(t, v, name, 0, most, error, left);
            assert(store_checked(m, parts, v, Seq::empty(), 0, most, error, left));
        }
    }
}

/// An index beyond the fields is out of bounds.
pub proof fn no_field_beyond_the_last(m: MessageView, i: nat, v: ValueView)
    requires
        m.values.len() == m.schema.fields.len(),
        i >= m.schema.fields.len(),
    ensures
        set_index_violation(m, i, v) == Some(ErrorView::IndexOutOfBounds(i)),
{
}

proof fn field_index_names_field(fields: Seq<FieldView>, name: Seq<char>)
    ensures
        field_index(fields, name) <= fields.len(),
        field_index(fields, name) < fields.len() ==> fields[field_index(
            fields,
            name,
        ) as int].name == name,
    decreases fields.len(),
{
    if fields.len() > 0 && fields[0].name != name {
        field_index_names_field(fields.skip(1), name);
    }
}

/// A store that is accepted leaves a valid message valid.
pub proof fn stores_keep_messages_valid(
    m: MessageView,
    parts: Seq<Seq<char>>,
    v: ValueView,
    prefix: Seq<char>,
    path: Seq<char>,
)
    requires
        message_violation(m.schema, m, path) is None,
        store_violation(m, parts, v, prefix) is None,
    ensures
        message_violation(m.schema, stored(m, parts, v), path) is None,
        stored(m, parts, v).schema == m.schema,
    decreases parts.len(),
{
    let fs = m.schema.fields;
    let i = field_index(fs, parts[0]) as int;
    let t = fs[i].field_type;
    let here = joined(path, fs[i].name);
    let after = stored(m, parts, v);
    fields_accepted_one_by_one(fs, m.values, path, 0);
    if parts.len() == 1 {
        acceptance_ignores_path(t, v, joined(prefix, parts[0]), here);
    } else {
        let inner = m.values[i]->Message_0;
        let s = t->Message_0;
        assert(m.values[i] is Message && t is Message);
        assert(violation(t, m.values[i], here) is None);
        schema_equality_keeps_acceptance(*s, *inner, here);
        stores_keep_messages_valid(
            *inner,
            parts.skip(1),
            v,
            joined(prefix, parts[0]),
            here,
        );
        schema_equality_keeps_acceptance(*s, stored(*inner, parts.skip(1), v), here);
        assert(violation(t, after.values[i], here) is None);
    }
    assert forall|j: int| 0 <= j < after.values.len() implies violation(
        fs[j].field_type,
        #[trigger] after.values[j],
        joined(path, fs[j].name),
    ) is None by {
        if j != i {
            assert(after.values[j] == m.values[j]);
        }
    }
    fields_accepted_one_by_one(fs, after.values, path, 0);
}

/// A message is accepted by its own schema where it is accepted by an equal one.
pub proof fn schema_equality_keeps_acceptance(s: SchemaView, m: MessageView, path: Seq<char>)
    requires
        schemas_equal(s, m.schema),
    ensures
        message_violation(s, m, path) is None <==> message_violation(m.schema, m, path) is None,
{
    if s.fields.len() == m.values.len() {
        fields_equality_keeps_acceptance(s.fields, m.schema.fields, m.values, path, 0);
    }
}

proof fn fields_equality_keeps_acceptance(
    es: Seq<FieldView>,
    a_s: Seq<FieldView>,
    vs: Seq<ValueView>,
    path: Seq<char>,
    i: nat,
)
    requires
        es.len() == a_s.len(),
        fields_equal(es, a_s, i),
        vs.len() == es.len(),
    ensures
        fields_violation(es, vs, path, i) is None <==> fields_violation(
            a_s,
            vs,
            path,
            i,
        ) is None,
    decreases vs, vs.len() - i,
{
    if i < vs.len() {
        type_equality_keeps_acceptance(
            es[i as int].field_type,
            a_s[i as int].field_type,
            vs[i as int],
            joined(path, es[i as int].name),
        );
        fields_equality_keeps_acceptance(es, a_s, vs, path, i + 1);
    }
}

/// Equal types accept the same values.
pub proof fn type_equality_keeps_acceptance(
    e: TypeView,
    a: TypeView,
    v: ValueView,
    path: Seq<char>,
)
    requires
        types_equal(e, a),
    ensures
        violation(e, v, path) is None <==> violation(a, v, path) is None,
    decreases v, 0int,
{
    match (e, a, v) {
        (TypeView::Array(et, _), TypeView::Array(at, _), ValueView::Array(vs)) => {
            element_equality_keeps_acceptance(*et, *at, vs, path, 0);
        },
        (TypeView::Sequence(et), TypeView::Sequence(at), ValueView::Array(vs)) => {
            element_equality_keeps_acceptance(*et, *at, vs, path, 0);
        },
        (
            TypeView::BoundedSequence(et, _),
            TypeView::BoundedSequence(at, _),
            ValueView::Array(vs),
        ) => {
            element_equality_keeps_acceptance(*et, *at, vs, path, 0);
        },
        (TypeView::Message(es), TypeView::Message(a_s), ValueView::Message(m)) => {
            assert(schemas_equal(*es, *a_s));
            schemas_equal_congruent(*es, *a_s, m.schema);
            if es.fields.len() == m.values.len() {
                fields_equality_keeps_acceptance(es.fields, a_s.fields, m.values, path, 0);
            }
            assert(message_violation(*es, *m, path) is None <==> message_violation(
                *a_s,
                *m,
                path,
            ) is None);
        },
        (TypeView::Sequence(et), TypeView::Sequence(at), ValueView::Bytes(_)) => {
            assert(types_equal(*et, *at));
        },
        (
            TypeView::BoundedSequence(et, _),
            TypeView::BoundedSequence(at, _),
            ValueView::Bytes(_),
        ) => {
            assert(types_equal(*et, *at));
        },
        _ => {},
    }
}

proof fn element_equality_keeps_acceptance(
    e: TypeView,
    a: TypeView,
    vs: Seq<ValueView>,
    path: Seq<char>,
    i: nat,
)
    requires
        types_equal(e, a),
    ensures
        elements_violation(e, vs, path, i) is None <==> elements_violation(
            a,
            vs,
            path,
            i,
        ) is None,
    decreases vs, vs.len() - i,
{
    if i < vs.len() {
        type_equality_keeps_acceptance(e, a, vs[i as int], element_path(path, i));
        element_equality_keeps_acceptance(e, a, vs, path, i + 1);
    }
}

impl DynamicMessage {
    /// A builder of messages of the given schema.
    pub fn builder(schema: &Arc<MessageSchema>) -> (r: DynamicMessageBuilder)
        ensures
            r.schema == *schema,
            r.values@ == Seq::new(schema.fields@.len(), |i: int| None::<DynamicValue>),
    {
        DynamicMessageBuilder::new(schema)
    }

    /// Stores `value` in the field of index `index`.
    ///
    /// On an error the message is unchanged.
    pub fn set_by_index<T: IntoDynamic>(&mut self, index: usize, value: T) -> (r: Result<
        (),
        DynamicError,
    >)
        ensures
            final(self).schema == old(self).schema,
            match r {
                Ok(()) => {
                    &&& set_index_violation(
                        old(self)@,
                        index as nat,
                        value.as_dynamic(),
                    ) is None
                    &&& within_limits(
                        value_work(
                            true,
                            old(self)@.schema.fields[index as int].field_type,
                            value.as_dynamic(),
                            old(self)@.schema.fields[index as int].name,
                        ),
                    )
                    &&& final(self)@.values == old(self)@.values.update(
                        index as int,
                        value.as_dynamic(),
                    )
                },
                Err(e) => {
                    &&& *final(self) == *old(self)
                    &&& if cardinality_error(old(self)@, "$"@) is Some {
                        cardinality_error(old(self)@, "$"@) == Some(e@)
                    } else if index >= old(self)@.values.len() {
                        e@ == ErrorView::IndexOutOfBounds(index as nat)
                    } else {
                        let field = old(self)@.schema.fields[index as int];
                        let v = value.as_dynamic();
                        refused(
                            e@,
                            0,
                            MAX_DYNAMIC_VALUES as nat,
                            violation(field.field_type, v, field.name),
                            value_work(true, field.field_type, v, field.name),
                            value_work(false, field.field_type, v, field.name),
                        )
                    }
                },
            },
            cardinality_error(old(self)@, "$"@) is None && index < old(self)@.values.len()
                ==> value_check_ends(
                old(self)@.schema.fields[index as int].field_type,
                value.as_dynamic(),
                old(self)@.schema.fields[index as int].name,
                error_of(r),
            ),
    {
        self.ensure_cardinality("$")?;
        if index >= self.values.len() {
            return Err(DynamicError::IndexOutOfBounds(index));
        }
        let value: DynamicValue = value.into_dynamic();
        assert(self@.schema.fields[index as int] == self.schema.fields@[index as int]@);
        validate_value(
            &self.schema.fields[index].field_type,
            &value,
            &self.schema.fields[index].name,
        )?;
        let ghost before = self@;
        self.values.set(index, value);
        assert(self@.values =~= before.values.update(index as int, value@));
        Ok(())
    }

    /// The values, in the order of the fields.
    pub fn values(&self) -> (r: &[DynamicValue])
        ensures
            r@ == self.values@,
    {
        self.values.as_slice()
    }

    /// The values, to be changed without any check.
    pub fn values_mut(&mut self) -> (r: &mut Vec<DynamicValue>)
        ensures
            *r == old(self).values,
            final(self).values == *final(r),
            final(self).schema == old(self).schema,
    {
        &mut self.values
    }

    /// The fields that have both a name and a value, in order.
    pub fn iter(&self) -> (r: Vec<(&str, &DynamicValue)>)
        ensures
            r@.len() == (if self.schema.fields@.len() <= self.values@.len() {
                self.schema.fields@.len()
            } else {
                self.values@.len()
            }),
            forall|i: int|
                0 <= i < r@.len() ==> {
                    &&& (#[trigger] r@[i]).0@ == self.schema.fields@[i].name@
                    &&& *r@[i].1 == self.values@[i]
                },
    {
        let mut r: Vec<(&str, &DynamicValue)> = Vec::new();
        let mut i: usize = 0;
        while i < self.schema.fields.len() && i < self.values.len()
            invariant
                i <= self.schema.fields@.len(),
                i <= self.values@.len(),
                r@.len() == i,
                forall|j: int|
                    0 <= j < i ==> {
                        &&& (#[trigger] r@[j]).0@ == self.schema.fields@[j].name@
                        &&& *r@[j].1 == self.values@[j]
                    },
            decreases self.values@.len() - i,
        {
            r.push((self.schema.fields[i].name.as_str(), &self.values[i]));
            i = i + 1;
        }
        r
    }

    /// The number of values.
    pub fn field_count(&self) -> (r: usize)
        ensures
            r == self.values@.len(),
    {
        self.values.len()
    }
}

/// Builds a message field by field.
#[derive(Debug)]
pub struct DynamicMessageBuilder {
    pub schema: Arc<MessageSchema>,
    /// What was set for each field.
    pub values: Vec<Option<DynamicValue>>,
}

/// What was set for each field.
pub open spec fn options_view(vs: Seq<Option<DynamicValue>>) -> Seq<Option<ValueView>> {
    Seq::new(
        vs.len(),
        |i: int|
            match vs[i] {
                Some(v) => Some(v@),
                None => None,
            },
    )
}

/// What a store into a builder's field `i` ends in.
pub open spec fn builder_outcome(
    b: DynamicMessageBuilder,
    i: int,
    name: Seq<char>,
    v: ValueView,
    r: Result<DynamicMessageBuilder, DynamicError>,
) -> bool {
    let t = b.schema@.fields[i].field_type;
    &&& value_check_ends(t, v, name, error_of(r))
    &&& match r {
        Ok(after) => {
            &&& violation(t, v, name) is None
            &&& within_limits(value_work(true, t, v, name))
            &&& after.schema == b.schema
            &&& options_view(after.values@) == options_view(b.values@).update(i, Some(v))
        },
        Err(e) => refused(
            e@,
            0,
            MAX_DYNAMIC_VALUES as nat,
            violation(t, v, name),
            value_work(true, t, v, name),
            value_work(false, t, v, name),
        ),
    }
}

impl DynamicMessageBuilder {
    /// Whether there is a place for each field of the schema.
    pub open spec fn wf(&self) -> bool {
        self.values@.len() == self.schema.fields@.len()
    }

    /// A builder in which no field is set.
    pub fn new(schema: &Arc<MessageSchema>) -> (r: Self)
        ensures
            r.wf(),
            r.schema == *schema,
            r.values@ == Seq::new(schema.fields@.len(), |i: int| None::<DynamicValue>),
    {
        let mut values: Vec<Option<DynamicValue>> = Vec::new();
        while values.len() < schema.fields.len()
            invariant
                values@.len() <= schema.fields@.len(),
                forall|j: int| 0 <= j < values@.len() ==> values@[j] is None,
            decreases schema.fields@.len() - values@.len(),
        {
            values.push(None);
        }
        assert(values@ =~= Seq::new(schema.fields@.len(), |i: int| None::<DynamicValue>));
        DynamicMessageBuilder { schema: share(schema), values }
    }

    /// Sets the first field named `name`.
    pub fn set<T: IntoDynamic>(self, name: &str, value: T) -> (r: Result<Self, DynamicError>)
        requires
            self.wf(),
        ensures
            r matches Ok(b) ==> b.wf(),
            if field_index(self.schema@.fields, name@) >= self.schema@.fields.len() {
                r matches Err(e) && e@ == ErrorView::FieldNotFound(name@)
            } else {
                builder_outcome(
                    self,
                    field_index(self.schema@.fields, name@) as int,
                    name@,
                    value.as_dynamic(),
                    r,
                )
            },
    {
        let i: usize = match find_field(&self.schema.fields, name) {
            Some(i) => i,
            None => return Err(DynamicError::FieldNotFound(name.to_owned())),
        };
        let value: DynamicValue = value.into_dynamic();
        assert(self.schema@.fields[i as int] == self.schema.fields@[i as int]@);
        validate_value(&self.schema.fields[i].field_type, &value, name)?;
        Ok(self.with(i, value))
    }

    /// Sets the field of index `index`.
    pub fn set_by_index<T: IntoDynamic>(self, index: usize, value: T) -> (r: Result<
        Self,
        DynamicError,
    >)
        requires
            self.wf(),
        ensures
            r matches Ok(b) ==> b.wf(),
            if index >= self.schema@.fields.len() {
                r matches Err(e) && e@ == ErrorView::IndexOutOfBounds(index as nat)
            } else {
                builder_outcome(
                    self,
                    index as int,
                    self.schema@.fields[index as int].name,
                    value.as_dynamic(),
                    r,
                )
            },
    {
        if index >= self.values.len() {
            return Err(DynamicError::IndexOutOfBounds(index));
        }
        let value: DynamicValue = value.into_dynamic();
        assert(self.schema@.fields[index as int] == self.schema.fields@[index as int]@);
        validate_value(
            &self.schema.fields[index].field_type,
            &value,
            &self.schema.fields[index].name,
        )?;
        Ok(self.with(index, value))
    }

    /// The builder with `value` for field `i`.
    fn with(self, i: usize, value: DynamicValue) -> (r: Self)
        requires
            self.wf(),
            i < self.values@.len(),
        ensures
            r.wf(),
            r.schema == self.schema,
            options_view(r.values@) == options_view(self.values@).update(i as int, Some(value@)),
    {
        let DynamicMessageBuilder { schema, values } = self;
        let mut values = values;
        let ghost before = options_view(values@);
        values.set(i, Some(value));
        assert(options_view(values@) =~= before.update(i as int, Some(value@)));
        DynamicMessageBuilder { schema, values }
    }

    /// The message, with defaults in the fields that were not set.
    pub fn build(self) -> (r: DynamicMessage)
        requires
            self.wf(),
        ensures
            r.schema == self.schema,
            r@.values == Seq::new(
                self.schema@.fields.len(),
                |i: int|
                    match options_view(self.values@)[i] {
                        Some(v) => v,
                        None => field_default(self.schema@.fields[i]),
                    },
            ),
    {
        let mut values: Vec<DynamicValue> = Vec::new();
        let ghost fs = self.schema@.fields;
        let ghost set = options_view(self.values@);
        let mut i: usize = 0;
        while i < self.values.len()
            invariant
                i <= self.values@.len(),
                self.wf(),
                fs == fields_view(self.schema.fields@),
                set == options_view(self.values@),
                values@.len() == i,
                forall|j: int|
                    0 <= j < i ==> (#[trigger] values@[j])@ == match set[j] {
                        Some(v) => v,
                        None => field_default(fs[j]),
                    },
            decreases self.values@.len() - i,
        {
            assert(fs[i as int] == self.schema.fields@[i as int]@);
            let v: DynamicValue = match &self.values[i] {
                Some(v) => copy_value(v),
                None => default_of_field(&self.schema.fields[i]),
            };
            values.push(v);
            i = i + 1;
        }
        let r = DynamicMessage { schema: self.schema, values };
        assert forall|j: int| 0 <= j < r@.values.len() implies r@.values[j] == match set[j] {
            Some(v) => v,
            None => field_default(fs[j]),
        } by {
            assert(r@.values[j] == values@[j]@);
        }
        r
    }
}

/// A builder sets by the index of a field as by its name: what either can end in,
/// the other can, and where the check asks the same and is answered the same, both
/// end with the same error, or else build equal messages.
pub proof fn builders_set_by_index_as_by_name(
    b: DynamicMessageBuilder,
    i: nat,
    v: ValueView,
    asked: Seq<Question>,
    by_name: Result<DynamicMessageBuilder, DynamicError>,
    by_index: Result<DynamicMessageBuilder, DynamicError>,
)
    requires
        b.wf(),
        named_once(b.schema@.fields, i as int),
    ensures
        ({
            let t = b.schema@.fields[i as int].field_type;
            let name = b.schema@.fields[i as int].name;
            let found = field_index(b.schema@.fields, name) as int;
            let course = check_value(t, v, name, 0, MAX_DYNAMIC_VALUES as nat, asked);
            &&& found == i
            &&& builder_outcome(b, found, name, v, by_name) == builder_outcome(
                b,
                i as int,
                name,
                v,
                by_name,
            )
            &&& builder_outcome(b, found, name, v, by_name) && builder_outcome(
                b,
                i as int,
                name,
                v,
                by_index,
            ) && course.result == error_of(by_name) && course.result == error_of(by_index) ==> {
                match (by_name, by_index) {
                    (Ok(n), Ok(x)) => {
                        &&& n.schema == x.schema
                        &&& options_view(n.values@) == options_view(x.values@)
                    },
                    (Err(n), Err(x)) => n@ == x@,
                    _ => false,
                }
            }
        }),
{
    a_field_named_once_is_found(b.schema@.fields, i as int);
}

} // verus!
