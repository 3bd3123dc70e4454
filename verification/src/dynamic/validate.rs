//! Checking values against field types.
//!
//! Two questions are kept apart. [`violation`] says which error, if any, a value
//! deserves against a type, whatever its size. [`value_work`] says how many
//! values the check visits and how deeply it nests, and the check gives up when
//! that is over a limit. Two schemas that are one object are known to be equal
//! without looking inside, so the work is stated by a pair of bounds: the most
//! is needed when no two schemas are one object, the least when all equal ones
//! are. What a check ends with where both a limit and another error apply, and how
//! much it visits given which schemas are one object, is its course: see
//! [`crate::dynamic::course`].

use crate::dynamic::course::{
    check_elements, check_fields, check_message, check_value, check_value_followed,
    compare_fields, compare_schemas, compare_schemas_followed, compare_types,
    compare_types_followed, ended, Question,
};
use crate::dynamic::error::{error_of, DynamicError, ErrorView};
use crate::dynamic::schema::{
    fields_view, values_view, DynamicMessage, DynamicValue, FieldType, FieldView, MessageSchema,
    MessageView, SchemaView, TypeView, ValueView,
};
use crate::dynamic::wide::{encode_utf16, utf16};
use crate::text::{decimal, decimal_text, join2, join3, same_text};
use vstd::prelude::*;
use vstd::utf8::encode_utf8;

verus! {

/// How deeply a message may be nested.
pub const MAX_DYNAMIC_DEPTH: usize = 128;

/// How many values one check may visit.
pub const MAX_DYNAMIC_VALUES: usize = 1_000_000;

/// How many more values a check may visit.
#[derive(Debug)]
pub struct ValidationBudget {
    pub remaining: usize,
}

/// The error of a message that is nested too deeply.
pub open spec fn nesting_error() -> ErrorView {
    ErrorView::ResourceLimitExceeded("nesting exceeds 128 levels"@)
}

/// The error of a message that holds too many values.
pub open spec fn values_error() -> ErrorView {
    ErrorView::ResourceLimitExceeded("message contains more than 1000000 values"@)
}

/// What a check costs: the values that it visits, and the levels that it
/// descends.
pub struct Work {
    pub values: nat,
    pub levels: nat,
}

pub open spec fn no_work() -> Work {
    Work { values: 0, levels: 0 }
}

/// The work `w`, done one level further down.
pub open spec fn below(w: Work) -> Work {
    Work { values: w.values, levels: w.levels + 1 }
}

/// The work of one visit, and then `w`.
pub open spec fn visit(w: Work) -> Work {
    Work { values: w.values + 1, levels: w.levels }
}

/// The work `a`, and then the work `b`.
pub open spec fn both(a: Work, b: Work) -> Work {
    Work {
        values: a.values + b.values,
        levels: if a.levels >= b.levels { a.levels } else { b.levels },
    }
}

/// Whether a check that began at `depth` with `before` values left, and ended
/// with `after` left, did at least `least` and at most `most`.
pub open spec fn spent(depth: nat, before: nat, after: nat, least: Work, most: Work) -> bool {
    &&& depth + least.levels <= MAX_DYNAMIC_DEPTH
    &&& before <= after + most.values
    &&& after + least.values <= before
}

/// Whether `e` reports a limit that the work `most`, begun at `depth` with
/// `before` values left, goes over.
pub open spec fn limited(e: ErrorView, depth: nat, before: nat, most: Work) -> bool {
    ||| e == nesting_error() && depth + most.levels > MAX_DYNAMIC_DEPTH
    ||| e == values_error() && most.values > before
}

/// Whether a check that wants to report `wanted`, if anything, ends with `e`: it
/// comes to that after work within the limits, or else a limit is reported.
pub open spec fn refused(
    e: ErrorView,
    depth: nat,
    before: nat,
    wanted: Option<ErrorView>,
    least: Work,
    most: Work,
) -> bool {
    ||| {
        &&& wanted == Some(e)
        &&& depth + least.levels <= MAX_DYNAMIC_DEPTH
        &&& least.values <= before
    }
    ||| limited(e, depth, before, most)
}

/// Whether two types are the same, field by field.
pub open spec fn types_equal(e: TypeView, a: TypeView) -> bool
    decreases e, 0int,
{
    match (e, a) {
        (TypeView::Message(es), TypeView::Message(a_s)) => schemas_equal(*es, *a_s),
        (TypeView::Array(et, n), TypeView::Array(at, m)) => n == m && types_equal(*et, *at),
        (TypeView::Sequence(et), TypeView::Sequence(at)) => types_equal(*et, *at),
        (TypeView::BoundedSequence(et, n), TypeView::BoundedSequence(at, m)) => n == m
            && types_equal(*et, *at),
        (TypeView::Message(_), _) => false,
        (TypeView::Array(_, _), _) => false,
        (TypeView::Sequence(_), _) => false,
        (TypeView::BoundedSequence(_, _), _) => false,
        _ => e == a,
    }
}

/// Whether two schemas have the same name and the same fields in the same
/// order.
pub open spec fn schemas_equal(e: SchemaView, a: SchemaView) -> bool
    decreases e, 0int,
{
    &&& e.full_name == a.full_name
    &&& e.fields.len() == a.fields.len()
    &&& fields_equal(e.fields, a.fields, 0)
}

/// Whether the fields from index `i` on have the same names and types.
pub open spec fn fields_equal(es: Seq<FieldView>, a_s: Seq<FieldView>, i: nat) -> bool
    decreases es, es.len() - i,
{
    if i >= es.len() {
        true
    } else {
        &&& es[i as int].name == a_s[i as int].name
        &&& types_equal(es[i as int].field_type, a_s[i as int].field_type)
        &&& fields_equal(es, a_s, i + 1)
    }
}

/// The work of comparing two types. With `shared`, equal schemas are one object.
pub open spec fn types_work(shared: bool, e: TypeView, a: TypeView) -> Work
    decreases e, 0int,
{
    visit(
        match (e, a) {
            (TypeView::Message(es), TypeView::Message(a_s)) => below(
                schemas_work(shared, *es, *a_s),
            ),
            (TypeView::Array(et, n), TypeView::Array(at, m)) => if n == m {
                below(types_work(shared, *et, *at))
            } else {
                no_work()
            },
            (TypeView::Sequence(et), TypeView::Sequence(at)) => below(
                types_work(shared, *et, *at),
            ),
            (TypeView::BoundedSequence(et, n), TypeView::BoundedSequence(at, m)) => if n == m {
                below(types_work(shared, *et, *at))
            } else {
                no_work()
            },
            _ => no_work(),
        },
    )
}

/// The work of comparing two schemas up to the first difference.
pub open spec fn schemas_work(shared: bool, e: SchemaView, a: SchemaView) -> Work
    decreases e, 0int,
{
    visit(
        if shared && e == a {
            no_work()
        } else if e.full_name != a.full_name || e.fields.len() != a.fields.len() {
            no_work()
        } else {
            fields_work(shared, e.fields, a.fields, 0)
        },
    )
}

/// The work of comparing two lists of fields from index `i` up to the first
/// difference.
pub open spec fn fields_work(
    shared: bool,
    es: Seq<FieldView>,
    a_s: Seq<FieldView>,
    i: nat,
) -> Work
    decreases es, es.len() - i,
{
    if i >= es.len() || es[i as int].name != a_s[i as int].name {
        no_work()
    } else {
        let first = below(
            types_work(shared, es[i as int].field_type, a_s[i as int].field_type),
        );
        if types_equal(es[i as int].field_type, a_s[i as int].field_type) {
            both(first, fields_work(shared, es, a_s, i + 1))
        } else {
            first
        }
    }
}

/// A type equals itself.
pub proof fn types_equal_reflexive(t: TypeView)
    ensures
        types_equal(t, t),
    decreases t, 0int,
{
    match t {
        TypeView::Message(s) => schemas_equal_reflexive(*s),
        TypeView::Array(e, _) => types_equal_reflexive(*e),
        TypeView::Sequence(e) => types_equal_reflexive(*e),
        TypeView::BoundedSequence(e, _) => types_equal_reflexive(*e),
        _ => {},
    }
}

/// A schema equals itself.
pub proof fn schemas_equal_reflexive(s: SchemaView)
    ensures
        schemas_equal(s, s),
    decreases s, 0int,
{
    fields_equal_reflexive(s.fields, 0);
}

proof fn fields_equal_reflexive(fs: Seq<FieldView>, i: nat)
    ensures
        fields_equal(fs, fs, i),
    decreases fs, fs.len() - i,
{
    if i < fs.len() {
        types_equal_reflexive(fs[i as int].field_type);
        fields_equal_reflexive(fs, i + 1);
    }
}

/// Equal types are equal to the same types.
pub proof fn types_equal_congruent(a: TypeView, b: TypeView, c: TypeView)
    requires
        types_equal(a, b),
    ensures
        types_equal(a, c) == types_equal(b, c),
    decreases a, 0int,
{
    match (a, b, c) {
        (TypeView::Message(x), TypeView::Message(y), TypeView::Message(z)) => {
            schemas_equal_congruent(*x, *y, *z);
        },
        (TypeView::Array(x, _), TypeView::Array(y, _), TypeView::Array(z, _)) => {
            types_equal_congruent(*x, *y, *z);
        },
        (TypeView::Sequence(x), TypeView::Sequence(y), TypeView::Sequence(z)) => {
            types_equal_congruent(*x, *y, *z);
        },
        (
            TypeView::BoundedSequence(x, _),
            TypeView::BoundedSequence(y, _),
            TypeView::BoundedSequence(z, _),
        ) => {
            types_equal_congruent(*x, *y, *z);
        },
        _ => {},
    }
}

/// Equal schemas are equal to the same schemas.
pub proof fn schemas_equal_congruent(a: SchemaView, b: SchemaView, c: SchemaView)
    requires
        schemas_equal(a, b),
    ensures
        schemas_equal(a, c) == schemas_equal(b, c),
    decreases a, 0int,
{
    if a.fields.len() == c.fields.len() {
        fields_equal_congruent(a.fields, b.fields, c.fields, 0);
    }
}

proof fn fields_equal_congruent(
    a: Seq<FieldView>,
    b: Seq<FieldView>,
    c: Seq<FieldView>,
    i: nat,
)
    requires
        a.len() == b.len() == c.len(),
        fields_equal(a, b, i),
    ensures
        fields_equal(a, c, i) == fields_equal(b, c, i),
    decreases a, a.len() - i,
{
    if i < a.len() {
        types_equal_congruent(a[i as int].field_type, b[i as int].field_type, c[i as int].field_type);
        fields_equal_congruent(a, b, c, i + 1);
    }
}

/// The name of a type in a message to the user.
pub open spec fn type_label_text(t: TypeView) -> Seq<char> {
    match t {
        TypeView::Bool => "bool"@,
        TypeView::Int8 => "int8"@,
        TypeView::Int16 => "int16"@,
        TypeView::Int32 => "int32"@,
        TypeView::Int64 => "int64"@,
        TypeView::Uint8 => "uint8"@,
        TypeView::Char => "char"@,
        TypeView::WChar => "wchar"@,
        TypeView::Byte => "byte"@,
        TypeView::Uint16 => "uint16"@,
        TypeView::Uint32 => "uint32"@,
        TypeView::Uint64 => "uint64"@,
        TypeView::Float32 => "float32"@,
        TypeView::Float64 => "float64"@,
        TypeView::String => "string"@,
        TypeView::BoundedString(_) => "bounded string"@,
        TypeView::WString => "wstring"@,
        TypeView::BoundedWString(_) => "bounded wstring"@,
        TypeView::Message(s) => "message "@ + s.full_name,
        TypeView::Array(_, _) => "fixed array"@,
        TypeView::Sequence(_) => "sequence"@,
        TypeView::BoundedSequence(_, _) => "bounded sequence"@,
    }
}

/// Whether values of type `t` are single bytes.
pub open spec fn byte_type(t: TypeView) -> bool {
    t is Uint8 || t is Char || t is Byte
}

/// The path of field `field` below `prefix`.
pub open spec fn joined(prefix: Seq<char>, field: Seq<char>) -> Seq<char> {
    if prefix.len() == 0 {
        field
    } else {
        prefix + "."@ + field
    }
}

/// The path of element `i` of the sequence at `path`.
pub open spec fn element_path(path: Seq<char>, i: nat) -> Seq<char> {
    path + "["@ + decimal(i) + "]"@
}

/// Why `s` cannot be a string on the wire, if it cannot.
pub open spec fn narrow_violation(s: Seq<char>, path: Seq<char>) -> Option<ErrorView> {
    if encode_utf8(s).contains(0u8) {
        Some(ErrorView::InvalidString { path, reason: "contains an embedded NUL byte"@ })
    } else if encode_utf8(s).len() + 1 > usize::MAX {
        Some(ErrorView::InvalidString { path, reason: "length overflows CDR string prefix"@ })
    } else if encode_utf8(s).len() + 1 > u32::MAX {
        Some(ErrorView::InvalidString { path, reason: "length exceeds CDR uint32 string prefix"@ })
    } else {
        None
    }
}

/// Why `s` cannot be a wide string on the wire, if it cannot.
pub open spec fn wide_violation(s: Seq<char>, path: Seq<char>) -> Option<ErrorView> {
    if utf16(s).contains(0u16) {
        Some(ErrorView::InvalidString { path, reason: "contains an embedded NUL word"@ })
    } else if utf16(s).len() > u32::MAX {
        Some(
            ErrorView::InvalidString {
                path,
                reason: "length exceeds CDR uint32 wide-string prefix"@,
            },
        )
    } else {
        None
    }
}

/// Why a sequence of `len` elements cannot go on the wire, if it cannot.
pub open spec fn length_violation(len: nat, path: Seq<char>) -> Option<ErrorView> {
    if len > u32::MAX {
        Some(
            ErrorView::SerializationError(
                "sequence at '"@ + path + "' exceeds CDR uint32 length prefix"@,
            ),
        )
    } else {
        None
    }
}

/// The error that value `v` at `path` deserves as a value of type `t`: the first
/// in the order in which fields and elements stand.
pub open spec fn violation(t: TypeView, v: ValueView, path: Seq<char>) -> Option<ErrorView>
    decreases v, 0int,
{
    match (t, v) {
        (TypeView::Bool, ValueView::Bool(_)) => None,
        (TypeView::Int8, ValueView::Int8(_)) => None,
        (TypeView::Int16, ValueView::Int16(_)) => None,
        (TypeView::Int32, ValueView::Int32(_)) => None,
        (TypeView::Int64, ValueView::Int64(_)) => None,
        (TypeView::Uint8, ValueView::Uint8(_)) => None,
        (TypeView::Char, ValueView::Uint8(_)) => None,
        (TypeView::Byte, ValueView::Uint8(_)) => None,
        (TypeView::Uint16, ValueView::Uint16(_)) => None,
        (TypeView::WChar, ValueView::Uint16(_)) => None,
        (TypeView::Uint32, ValueView::Uint32(_)) => None,
        (TypeView::Uint64, ValueView::Uint64(_)) => None,
        (TypeView::Float32, ValueView::Float32(_)) => None,
        (TypeView::Float64, ValueView::Float64(_)) => None,
        (TypeView::String, ValueView::String(s)) => narrow_violation(s, path),
        (TypeView::BoundedString(max), ValueView::String(s)) => if narrow_violation(
            s,
            path,
        ) is Some {
            narrow_violation(s, path)
        } else if encode_utf8(s).len() > max {
            Some(ErrorView::FieldBoundExceeded { path, max, actual: encode_utf8(s).len() })
        } else {
            None
        },
        (TypeView::WString, ValueView::String(s)) => wide_violation(s, path),
        (TypeView::BoundedWString(max), ValueView::String(s)) => if wide_violation(
            s,
            path,
        ) is Some {
            wide_violation(s, path)
        } else if utf16(s).len() > max {
            Some(ErrorView::BoundExceeded { max, actual: utf16(s).len() })
        } else {
            None
        },
        (TypeView::Array(e, n), ValueView::Array(vs)) => if vs.len() != n {
            Some(ErrorView::WrongArrayLength { path, expected: n, actual: vs.len() })
        } else {
            elements_violation(*e, vs, path, 0)
        },
        (TypeView::Sequence(e), ValueView::Array(vs)) => if length_violation(
            vs.len(),
            path,
        ) is Some {
            length_violation(vs.len(), path)
        } else {
            elements_violation(*e, vs, path, 0)
        },
        (TypeView::BoundedSequence(e, max), ValueView::Array(vs)) => if length_violation(
            vs.len(),
            path,
        ) is Some {
            length_violation(vs.len(), path)
        } else if vs.len() > max {
            Some(ErrorView::FieldBoundExceeded { path, max, actual: vs.len() })
        } else {
            elements_violation(*e, vs, path, 0)
        },
        (TypeView::Sequence(e), ValueView::Bytes(bytes)) => if byte_type(*e) {
            length_violation(bytes.len(), path)
        } else {
            Some(ErrorView::TypeMismatch { path, expected: type_label_text(t) })
        },
        (TypeView::BoundedSequence(e, max), ValueView::Bytes(bytes)) => if !byte_type(*e) {
            Some(ErrorView::TypeMismatch { path, expected: type_label_text(t) })
        } else if length_violation(bytes.len(), path) is Some {
            length_violation(bytes.len(), path)
        } else if bytes.len() > max {
            Some(ErrorView::FieldBoundExceeded { path, max, actual: bytes.len() })
        } else {
            None
        },
        (TypeView::Message(s), ValueView::Message(m)) => if !schemas_equal(*s, m.schema) {
            Some(ErrorView::TypeMismatch { path, expected: type_label_text(t) })
        } else {
            message_violation(*s, *m, path)
        },
        _ => Some(ErrorView::TypeMismatch { path, expected: type_label_text(t) }),
    }
}

/// The first error among the elements of `vs` from index `i` on.
pub open spec fn elements_violation(
    t: TypeView,
    vs: Seq<ValueView>,
    path: Seq<char>,
    i: nat,
) -> Option<ErrorView>
    decreases vs, vs.len() - i,
{
    if i >= vs.len() {
        None
    } else if violation(t, vs[i as int], element_path(path, i)) is Some {
        violation(t, vs[i as int], element_path(path, i))
    } else {
        elements_violation(t, vs, path, i + 1)
    }
}

/// The first error of message `m` at `path` as a message of schema `s`.
pub open spec fn message_violation(s: SchemaView, m: MessageView, path: Seq<char>) -> Option<
    ErrorView,
>
    decreases m, 0int,
{
    if s.fields.len() != m.values.len() {
        Some(
            ErrorView::WrongArrayLength {
                path,
                expected: s.fields.len(),
                actual: m.values.len(),
            },
        )
    } else {
        fields_violation(s.fields, m.values, path, 0)
    }
}

/// The first error among the fields from index `i` on.
pub open spec fn fields_violation(
    fields: Seq<FieldView>,
    vs: Seq<ValueView>,
    path: Seq<char>,
    i: nat,
) -> Option<ErrorView>
    decreases vs, vs.len() - i,
{
    if i >= vs.len() {
        None
    } else if violation(fields[i as int].field_type, vs[i as int], joined(path, fields[i as int].name)) is Some {
        violation(fields[i as int].field_type, vs[i as int], joined(path, fields[i as int].name))
    } else {
        fields_violation(fields, vs, path, i + 1)
    }
}

/// The work of checking value `v` at `path` up to its first error.
pub open spec fn value_work(shared: bool, t: TypeView, v: ValueView, path: Seq<char>) -> Work
    decreases v, 0int,
{
    visit(
        match (t, v) {
            (TypeView::Array(e, n), ValueView::Array(vs)) => if vs.len() != n {
                no_work()
            } else {
                elements_work(shared, *e, vs, path, 0)
            },
            (TypeView::Sequence(e), ValueView::Array(vs)) => if length_violation(
                vs.len(),
                path,
            ) is Some {
                no_work()
            } else {
                elements_work(shared, *e, vs, path, 0)
            },
            (TypeView::BoundedSequence(e, max), ValueView::Array(vs)) => if length_violation(
                vs.len(),
                path,
            ) is Some || vs.len() > max {
                no_work()
            } else {
                elements_work(shared, *e, vs, path, 0)
            },
            (TypeView::Message(s), ValueView::Message(m)) => {
                let comparing = below(schemas_work(shared, *s, m.schema));
                if schemas_equal(*s, m.schema) {
                    both(comparing, below(message_work(shared, *s, *m, path)))
                } else {
                    comparing
                }
            },
            _ => no_work(),
        },
    )
}

/// The work of checking the elements of `vs` from index `i` on.
pub open spec fn elements_work(
    shared: bool,
    t: TypeView,
    vs: Seq<ValueView>,
    path: Seq<char>,
    i: nat,
) -> Work
    decreases vs, vs.len() - i,
{
    if i >= vs.len() {
        no_work()
    } else {
        let first = below(value_work(shared, t, vs[i as int], element_path(path, i)));
        if violation(t, vs[i as int], element_path(path, i)) is Some {
            first
        } else {
            both(first, elements_work(shared, t, vs, path, i + 1))
        }
    }
}

/// The work of checking message `m` against schema `s`.
pub open spec fn message_work(shared: bool, s: SchemaView, m: MessageView, path: Seq<char>) -> Work
    decreases m, 0int,
{
    if s.fields.len() != m.values.len() {
        no_work()
    } else {
        message_fields_work(shared, s.fields, m.values, path, 0)
    }
}

/// The work of checking the fields from index `i` on.
pub open spec fn message_fields_work(
    shared: bool,
    fields: Seq<FieldView>,
    vs: Seq<ValueView>,
    path: Seq<char>,
    i: nat,
) -> Work
    decreases vs, vs.len() - i,
{
    if i >= vs.len() {
        no_work()
    } else {
        let first = value_work(
            shared,
            fields[i as int].field_type,
            vs[i as int],
            joined(path, fields[i as int].name),
        );
        if violation(
            fields[i as int].field_type,
            vs[i as int],
            joined(path, fields[i as int].name),
        ) is Some {
            first
        } else {
            both(first, message_fields_work(shared, fields, vs, path, i + 1))
        }
    }
}

impl ValidationBudget {
    /// Counts one value, or fails where none is left.
    fn consume(&mut self) -> (r: Result<(), DynamicError>)
        ensures
            match r {
                Ok(()) => old(self).remaining == final(self).remaining + 1,
                Err(e) => e@ == values_error() && old(self).remaining == 0
                    && final(self).remaining == 0,
            },
    {
        if self.remaining == 0 {
            return Err(
                DynamicError::ResourceLimitExceeded(
                    "message contains more than 1000000 values".to_owned(),
                ),
            );
        }
        self.remaining = self.remaining - 1;
        Ok(())
    }
}

fn check_depth(depth: usize) -> (r: Result<(), DynamicError>)
    ensures
        error_of(r) == (if depth > MAX_DYNAMIC_DEPTH {
            Some(nesting_error())
        } else {
            None
        }),
{
    if depth > MAX_DYNAMIC_DEPTH {
        return Err(
            DynamicError::ResourceLimitExceeded("nesting exceeds 128 levels".to_owned()),
        );
    }
    Ok(())
}

/// Whether the two references are to one object, by `std::ptr::eq`; one object
/// equals itself.
#[verifier::external_body]
fn same_object(a: &MessageSchema, b: &MessageSchema) -> (r: bool)
    ensures
        r ==> *a == *b,
{
    std::ptr::eq(a, b)
}

/// Whether the answer to a question can be had from two schemas that hold what it
/// says.
pub closed spec fn was_answered(q: Question) -> bool {
    exists|e: MessageSchema, a: MessageSchema|
        e@ == q.expected && a@ == q.actual && #[trigger] call_ensures(
            same_object,
            (&e, &a),
            q.same,
        )
}

/// Whether the answer to each question can be had.
pub open spec fn answered(asked: Seq<Question>) -> bool {
    forall|i: int| 0 <= i < asked.len() ==> was_answered(#[trigger] asked[i])
}

/// What a comparison says.
pub open spec fn verdict(r: Result<bool, DynamicError>) -> Result<bool, ErrorView> {
    match r {
        Ok(same) => Ok(same),
        Err(e) => Err(e@),
    }
}

/// Whether comparing two schemas can end so.
pub open spec fn schemas_compared(
    e: SchemaView,
    a: SchemaView,
    depth: nat,
    left: nat,
    result: Result<bool, ErrorView>,
    after: nat,
) -> bool {
    exists|asked: Seq<Question>| #[trigger]
        answered(asked) && compare_schemas(e, a, depth, left, asked) == ended(result, after)
}

/// Whether comparing two types can end so.
pub open spec fn types_compared(
    e: TypeView,
    a: TypeView,
    depth: nat,
    left: nat,
    result: Result<bool, ErrorView>,
    after: nat,
) -> bool {
    exists|asked: Seq<Question>| #[trigger]
        answered(asked) && compare_types(e, a, depth, left, asked) == ended(result, after)
}

/// Whether checking a value can end so.
pub open spec fn value_checked(
    t: TypeView,
    v: ValueView,
    path: Seq<char>,
    depth: nat,
    left: nat,
    error: Option<ErrorView>,
    after: nat,
) -> bool {
    exists|asked: Seq<Question>| #[trigger]
        answered(asked) && check_value(t, v, path, depth, left, asked) == ended(error, after)
}

/// Whether checking the elements of a list can end so.
pub open spec fn elements_checked(
    t: TypeView,
    vs: Seq<ValueView>,
    path: Seq<char>,
    depth: nat,
    left: nat,
    error: Option<ErrorView>,
    after: nat,
) -> bool {
    exists|asked: Seq<Question>| #[trigger]
        answered(asked) && check_elements(t, vs, path, 0, depth, left, asked) == ended(
            error,
            after,
        )
}

/// Whether checking a message can end so.
pub open spec fn message_checked(
    s: SchemaView,
    m: MessageView,
    path: Seq<char>,
    depth: nat,
    left: nat,
    error: Option<ErrorView>,
    after: nat,
) -> bool {
    exists|asked: Seq<Question>| #[trigger]
        answered(asked) && check_message(s, m, path, depth, left, asked) == ended(error, after)
}

/// Whether two schemas have the same name and fields.
pub fn schemas_match(
    expected: &MessageSchema,
    actual: &MessageSchema,
    depth: usize,
    budget: &mut ValidationBudget,
) -> (r: Result<bool, DynamicError>)
    ensures
        match r {
            Ok(same) => {
                &&& same == schemas_equal(expected@, actual@)
                &&& spent(
                    depth as nat,
                    old(budget).remaining as nat,
                    final(budget).remaining as nat,
                    schemas_work(true, expected@, actual@),
                    schemas_work(false, expected@, actual@),
                )
            },
            Err(e) => limited(
                e@,
                depth as nat,
                old(budget).remaining as nat,
                schemas_work(false, expected@, actual@),
            ),
        },
        final(budget).remaining <= old(budget).remaining,
        schemas_compared(
            expected@,
            actual@,
            depth as nat,
            old(budget).remaining as nat,
            verdict(r),
            final(budget).remaining as nat,
        ),
    decreases expected, 1int,
{
    let ghost left = budget.remaining as nat;
    assert(answered(Seq::<Question>::empty()));
    check_depth(depth)?;
    budget.consume()?;
    let same: bool = same_object(expected, actual);
    let ghost question = Question { expected: expected@, actual: actual@, same };
    assert(call_ensures(same_object, (expected, actual), question.same));
    let ghost mut told = seq![question];
    assert(was_answered(question));
    assert(answered(told));
    assert(told.skip(1) =~= Seq::<Question>::empty());
    if same {
        proof {
            schemas_equal_reflexive(expected@);
        }
        return Ok(true);
    }
    if !same_text(&expected.full_name, &actual.full_name) || expected.fields.len()
        != actual.fields.len() {
        return Ok(false);
    }
    let ghost es = expected@.fields;
    let ghost a_s = actual@.fields;
    let ghost start = budget.remaining;
    let mut i: usize = 0;
    assert forall|more: Seq<Question>| compare_schemas(
        expected@,
        actual@,
        depth as nat,
        left,
        #[trigger] (told + more),
    ) == compare_fields(es, a_s, 0, (depth + 1) as nat, budget.remaining as nat, more) by {
        assert((told + more).skip(1) =~= more);
        assert((told + more)[0] == question);
    }
    while i < expected.fields.len()
        invariant
            answered(told),
            left == old(budget).remaining,
            forall|more: Seq<Question>|
                compare_schemas(expected@, actual@, depth as nat, left, #[trigger] (told + more))
                    == compare_fields(
                    es,
                    a_s,
                    i as nat,
                    (depth + 1) as nat,
                    budget.remaining as nat,
                    more,
                ),
            i <= expected.fields@.len(),
            expected.fields@.len() == actual.fields@.len(),
            es == fields_view(expected.fields@),
            a_s == fields_view(actual.fields@),
            depth <= MAX_DYNAMIC_DEPTH,
            fields_equal(es, a_s, 0) == fields_equal(es, a_s, i as nat),
            budget.remaining <= start,
            start + fields_work(false, es, a_s, i as nat).values <= budget.remaining + fields_work(
                false,
                es,
                a_s,
                0,
            ).values,
            budget.remaining + fields_work(true, es, a_s, 0).values <= start + fields_work(
                true,
                es,
                a_s,
                i as nat,
            ).values,
            fields_work(false, es, a_s, i as nat).levels <= fields_work(false, es, a_s, 0).levels,
            fields_work(true, es, a_s, 0).levels <= fields_work(true, es, a_s, i as nat).levels
                || depth + fields_work(true, es, a_s, 0).levels <= MAX_DYNAMIC_DEPTH,
            decreases_to!(expected => expected.fields),
            old(budget).remaining == start + 1,
            expected@.full_name == actual@.full_name,
            es == expected@.fields,
            a_s == actual@.fields,
        decreases expected.fields@.len() - i,
    {
        let e = &expected.fields[i];
        let a = &actual.fields[i];
        assert(es[i as int] == e@);
        assert(a_s[i as int] == a@);
        assert(told + Seq::<Question>::empty() =~= told);
        if !same_text(&e.name, &a.name) {
            return Ok(false);
        }
        let ghost before = budget.remaining as nat;
        let step = field_types_match(&e.field_type, &a.field_type, depth + 1, budget);
        proof {
            let (te, ta) = (e@.field_type, a@.field_type);
            let d = (depth + 1) as nat;
            let after = budget.remaining as nat;
            let asked = choose|asked: Seq<Question>| #[trigger]
                answered(asked) && compare_types(te, ta, d, before, asked) == ended(
                    verdict(step),
                    after,
                );
            let all = told + asked;
            assert(answered(all));
            if verdict(step) == Ok::<bool, ErrorView>(true) {
                assert forall|more: Seq<Question>| compare_schemas(
                    expected@,
                    actual@,
                    depth as nat,
                    left,
                    #[trigger] (all + more),
                ) == compare_fields(es, a_s, (i + 1) as nat, d, after, more) by {
                    compare_types_followed(te, ta, d, before, asked, more);
                    assert(all + more =~= told + (asked + more));
                    assert(Seq::<Question>::empty() + more =~= more);
                }
            }
            told = all;
        }
        if !step? {
            return Ok(false);
        }
        i = i + 1;
    }
    assert(told + Seq::<Question>::empty() =~= told);
    Ok(true)
}

/// Whether two field types are the same.
fn field_types_match(
    expected: &FieldType,
    actual: &FieldType,
    depth: usize,
    budget: &mut ValidationBudget,
) -> (r: Result<bool, DynamicError>)
    ensures
        match r {
            Ok(same) => {
                &&& same == types_equal(expected@, actual@)
                &&& spent(
                    depth as nat,
                    old(budget).remaining as nat,
                    final(budget).remaining as nat,
                    types_work(true, expected@, actual@),
                    types_work(false, expected@, actual@),
                )
            },
            Err(e) => limited(
                e@,
                depth as nat,
                old(budget).remaining as nat,
                types_work(false, expected@, actual@),
            ),
        },
        final(budget).remaining <= old(budget).remaining,
        types_compared(
            expected@,
            actual@,
            depth as nat,
            old(budget).remaining as nat,
            verdict(r),
            final(budget).remaining as nat,
        ),
    decreases expected, 0int,
{
    assert(answered(Seq::<Question>::empty()));
    check_depth(depth)?;
    budget.consume()?;
    match (expected, actual) {
        (FieldType::Message(e), FieldType::Message(a)) => schemas_match(&**e, &**a, depth + 1, budget),
        (FieldType::Array(e, n), FieldType::Array(a, m)) => {
            if *n != *m {
                return Ok(false);
            }
            field_types_match(&**e, &**a, depth + 1, budget)
        },
        (FieldType::Sequence(e), FieldType::Sequence(a)) => field_types_match(
            &**e,
            &**a,
            depth + 1,
            budget,
        ),
        (FieldType::BoundedSequence(e, n), FieldType::BoundedSequence(a, m)) => {
            if *n != *m {
                return Ok(false);
            }
            field_types_match(&**e, &**a, depth + 1, budget)
        },
        (FieldType::BoundedString(n), FieldType::BoundedString(m)) => Ok(*n == *m),
        (FieldType::BoundedWString(n), FieldType::BoundedWString(m)) => Ok(*n == *m),
        (FieldType::Bool, FieldType::Bool) => Ok(true),
        (FieldType::Int8, FieldType::Int8) => Ok(true),
        (FieldType::Int16, FieldType::Int16) => Ok(true),
        (FieldType::Int32, FieldType::Int32) => Ok(true),
        (FieldType::Int64, FieldType::Int64) => Ok(true),
        (FieldType::Uint8, FieldType::Uint8) => Ok(true),
        (FieldType::Char, FieldType::Char) => Ok(true),
        (FieldType::WChar, FieldType::WChar) => Ok(true),
        (FieldType::Byte, FieldType::Byte) => Ok(true),
        (FieldType::Uint16, FieldType::Uint16) => Ok(true),
        (FieldType::Uint32, FieldType::Uint32) => Ok(true),
        (FieldType::Uint64, FieldType::Uint64) => Ok(true),
        (FieldType::Float32, FieldType::Float32) => Ok(true),
        (FieldType::Float64, FieldType::Float64) => Ok(true),
        (FieldType::String, FieldType::String) => Ok(true),
        (FieldType::WString, FieldType::WString) => Ok(true),
        _ => Ok(false),
    }
}

/// The name of a type in a message to the user.
pub fn type_label(t: &FieldType) -> (r: String)
    ensures
        r@ == type_label_text(t@),
{
    match t {
        FieldType::Bool => "bool".to_owned(),
        FieldType::Int8 => "int8".to_owned(),
        FieldType::Int16 => "int16".to_owned(),
        FieldType::Int32 => "int32".to_owned(),
        FieldType::Int64 => "int64".to_owned(),
        FieldType::Uint8 => "uint8".to_owned(),
        FieldType::Char => "char".to_owned(),
        FieldType::WChar => "wchar".to_owned(),
        FieldType::Byte => "byte".to_owned(),
        FieldType::Uint16 => "uint16".to_owned(),
        FieldType::Uint32 => "uint32".to_owned(),
        FieldType::Uint64 => "uint64".to_owned(),
        FieldType::Float32 => "float32".to_owned(),
        FieldType::Float64 => "float64".to_owned(),
        FieldType::String => "string".to_owned(),
        FieldType::BoundedString(_) => "bounded string".to_owned(),
        FieldType::WString => "wstring".to_owned(),
        FieldType::BoundedWString(_) => "bounded wstring".to_owned(),
        FieldType::Message(s) => {
            assert(s@.full_name == s.full_name@);
            join2("message ", &s.full_name)
        },
        FieldType::Array(_, _) => "fixed array".to_owned(),
        FieldType::Sequence(_) => "sequence".to_owned(),
        FieldType::BoundedSequence(_, _) => "bounded sequence".to_owned(),
    }
}

pub(crate) fn type_mismatch(path: &str, expected: &FieldType) -> (e: DynamicError)
    ensures
        e@ == (ErrorView::TypeMismatch { path: path@, expected: type_label_text(expected@) }),
{
    DynamicError::TypeMismatch { path: path.to_owned(), expected: type_label(expected) }
}

pub fn is_byte_type(t: &FieldType) -> (r: bool)
    ensures
        r == byte_type(t@),
{
    match t {
        FieldType::Uint8 => true,
        FieldType::Char => true,
        FieldType::Byte => true,
        _ => false,
    }
}

/// The path of `field` below `prefix`.
pub(crate) fn join_path(prefix: &str, field: &str) -> (r: String)
    ensures
        r@ == joined(prefix@, field@),
{
    if prefix.unicode_len() == 0 {
        field.to_owned()
    } else {
        join3(prefix, ".", field)
    }
}

fn contains_zero(bytes: &[u8]) -> (r: bool)
    ensures
        r == bytes@.contains(0u8),
{
    let mut i: usize = 0;
    while i < bytes.len()
        invariant
            i <= bytes@.len(),
            forall|j: int| 0 <= j < i ==> bytes@[j] != 0,
        decreases bytes@.len() - i,
    {
        if bytes[i] == 0 {
            assert(bytes@[i as int] == 0u8);
            return true;
        }
        i = i + 1;
    }
    false
}

fn contains_zero_unit(units: &Vec<u16>) -> (r: bool)
    ensures
        r == units@.contains(0u16),
{
    let mut i: usize = 0;
    while i < units.len()
        invariant
            i <= units@.len(),
            forall|j: int| 0 <= j < i ==> units@[j] != 0,
        decreases units@.len() - i,
    {
        if units[i] == 0 {
            assert(units@[i as int] == 0u16);
            return true;
        }
        i = i + 1;
    }
    false
}

fn validate_narrow_string(value: &str, path: &str) -> (r: Result<(), DynamicError>)
    ensures
        error_of(r) == narrow_violation(value@, path@),
{
    if contains_zero(value.as_bytes()) {
        return Err(
            DynamicError::InvalidString {
                path: path.to_owned(),
                reason: "contains an embedded NUL byte".to_owned(),
            },
        );
    }
    let len: usize = value.as_bytes().len();
    if len == usize::MAX {
        return Err(
            DynamicError::InvalidString {
                path: path.to_owned(),
                reason: "length overflows CDR string prefix".to_owned(),
            },
        );
    }
    if (len as u64) >= u32::MAX as u64 {
        return Err(
            DynamicError::InvalidString {
                path: path.to_owned(),
                reason: "length exceeds CDR uint32 string prefix".to_owned(),
            },
        );
    }
    Ok(())
}

fn validate_wide_string(value: &str, path: &str) -> (r: Result<usize, DynamicError>)
    ensures
        error_of(r) == wide_violation(value@, path@),
        r matches Ok(n) ==> n == utf16(value@).len(),
{
    let units: Vec<u16> = encode_utf16(value);
    if contains_zero_unit(&units) {
        return Err(
            DynamicError::InvalidString {
                path: path.to_owned(),
                reason: "contains an embedded NUL word".to_owned(),
            },
        );
    }
    if units.len() as u64 > u32::MAX as u64 {
        return Err(
            DynamicError::InvalidString {
                path: path.to_owned(),
                reason: "length exceeds CDR uint32 wide-string prefix".to_owned(),
            },
        );
    }
    Ok(units.len())
}

fn validate_sequence_length(len: usize, path: &str) -> (r: Result<(), DynamicError>)
    ensures
        error_of(r) == length_violation(len as nat, path@),
{
    if len as u64 > u32::MAX as u64 {
        return Err(
            DynamicError::SerializationError(
                join3("sequence at '", path, "' exceeds CDR uint32 length prefix"),
            ),
        );
    }
    Ok(())
}

fn indexed_path(path: &str, i: usize) -> (r: String)
    ensures
        r@ == element_path(path@, i as nat),
{
    let mut r: String = join3(path, "[", &decimal_text(i as u64));
    r.append("]");
    r
}

/// Checks that `value` at `path` has type `field_type`, at nesting `depth`.
pub fn validate_value_inner(
    field_type: &FieldType,
    value: &DynamicValue,
    path: &str,
    depth: usize,
    budget: &mut ValidationBudget,
) -> (r: Result<(), DynamicError>)
    ensures
        match r {
            Ok(()) => {
                &&& violation(field_type@, value@, path@) is None
                &&& spent(
                    depth as nat,
                    old(budget).remaining as nat,
                    final(budget).remaining as nat,
                    value_work(true, field_type@, value@, path@),
                    value_work(false, field_type@, value@, path@),
                )
            },
            Err(e) => refused(
                e@,
                depth as nat,
                old(budget).remaining as nat,
                violation(field_type@, value@, path@),
                value_work(true, field_type@, value@, path@),
                value_work(false, field_type@, value@, path@),
            ),
        },
        final(budget).remaining <= old(budget).remaining,
        value_checked(
            field_type@,
            value@,
            path@,
            depth as nat,
            old(budget).remaining as nat,
            error_of(r),
            final(budget).remaining as nat,
        ),
    decreases value@, 0int,
{
    assert(answered(Seq::<Question>::empty()));
    check_depth(depth)?;
    budget.consume()?;
    match (field_type, value) {
        (FieldType::Bool, DynamicValue::Bool(_)) => Ok(()),
        (FieldType::Int8, DynamicValue::Int8(_)) => Ok(()),
        (FieldType::Int16, DynamicValue::Int16(_)) => Ok(()),
        (FieldType::Int32, DynamicValue::Int32(_)) => Ok(()),
        (FieldType::Int64, DynamicValue::Int64(_)) => Ok(()),
        (FieldType::Uint8, DynamicValue::Uint8(_)) => Ok(()),
        (FieldType::Char, DynamicValue::Uint8(_)) => Ok(()),
        (FieldType::Byte, DynamicValue::Uint8(_)) => Ok(()),
        (FieldType::Uint16, DynamicValue::Uint16(_)) => Ok(()),
        (FieldType::WChar, DynamicValue::Uint16(_)) => Ok(()),
        (FieldType::Uint32, DynamicValue::Uint32(_)) => Ok(()),
        (FieldType::Uint64, DynamicValue::Uint64(_)) => Ok(()),
        (FieldType::Float32, DynamicValue::Float32(_)) => Ok(()),
        (FieldType::Float64, DynamicValue::Float64(_)) => Ok(()),
        (FieldType::String, DynamicValue::String(text)) => validate_narrow_string(text, path),
        (FieldType::BoundedString(max), DynamicValue::String(text)) => {
            validate_narrow_string(text, path)?;
            let actual: usize = text.as_str().as_bytes().len();
            if actual > *max {
                return Err(
                    DynamicError::FieldBoundExceeded { path: path.to_owned(), max: *max, actual },
                );
            }
            Ok(())
        },
        (FieldType::WString, DynamicValue::String(text)) => {
            validate_wide_string(text, path)?;
            Ok(())
        },
        (FieldType::BoundedWString(max), DynamicValue::String(text)) => {
            let actual: usize = validate_wide_string(text, path)?;
            if actual > *max {
                return Err(DynamicError::BoundExceeded { max: *max, actual });
            }
            Ok(())
        },
        (FieldType::Array(inner, expected), DynamicValue::Array(values)) => {
            if values.len() != *expected {
                return Err(
                    DynamicError::WrongArrayLength {
                        path: path.to_owned(),
                        expected: *expected,
                        actual: values.len(),
                    },
                );
            }
            validate_elements(&**inner, values, path, depth, budget)
        },
        (FieldType::Sequence(inner), DynamicValue::Array(values)) => {
            validate_sequence_length(values.len(), path)?;
            validate_elements(&**inner, values, path, depth, budget)
        },
        (FieldType::BoundedSequence(inner, max), DynamicValue::Array(values)) => {
            validate_sequence_length(values.len(), path)?;
            if values.len() > *max {
                return Err(
                    DynamicError::FieldBoundExceeded {
                        path: path.to_owned(),
                        max: *max,
                        actual: values.len(),
                    },
                );
            }
            validate_elements(&**inner, values, path, depth, budget)
        },
        (FieldType::Sequence(inner), DynamicValue::Bytes(bytes)) => {
            if !is_byte_type(&**inner) {
                return Err(type_mismatch(path, field_type));
            }
            validate_sequence_length(bytes.len(), path)
        },
        (FieldType::BoundedSequence(inner, max), DynamicValue::Bytes(bytes)) => {
            if !is_byte_type(&**inner) {
                return Err(type_mismatch(path, field_type));
            }
            validate_sequence_length(bytes.len(), path)?;
            if bytes.len() > *max {
                return Err(
                    DynamicError::FieldBoundExceeded {
                        path: path.to_owned(),
                        max: *max,
                        actual: bytes.len(),
                    },
                );
            }
            Ok(())
        },
        (FieldType::Message(expected), DynamicValue::Message(message)) => {
            let ghost left = budget.remaining as nat;
            let matched = schemas_match(&**expected, &*message.schema, depth + 1, budget);
            let ghost middle = budget.remaining as nat;
            if !matched? {
                return Err(type_mismatch(path, field_type));
            }
            let r = validate_message_inner(&**expected, &**message, path, depth + 1, budget);
            proof {
                let (es, m) = (expected@, message@);
                let d = (depth + 1) as nat;
                let after = budget.remaining as nat;
                let first = choose|asked: Seq<Question>| #[trigger]
                    answered(asked) && compare_schemas(es, m.schema, d, left, asked) == ended(
                        Ok::<bool, ErrorView>(true),
                        middle,
                    );
                let second = choose|asked: Seq<Question>| #[trigger]
                    answered(asked) && check_message(es, m, path@, d, middle, asked) == ended(
                        error_of(r),
                        after,
                    );
                compare_schemas_followed(es, m.schema, d, left, first, second);
                assert(Seq::<Question>::empty() + second =~= second);
                assert(answered(first + second));
            }
            r
        },
        _ => Err(type_mismatch(path, field_type)),
    }
}

/// Checks each of `values` at one level below `depth`.
fn validate_elements(
    inner: &FieldType,
    values: &Vec<DynamicValue>,
    path: &str,
    depth: usize,
    budget: &mut ValidationBudget,
) -> (r: Result<(), DynamicError>)
    requires
        depth <= MAX_DYNAMIC_DEPTH,
    ensures
        match r {
            Ok(()) => {
                &&& elements_violation(inner@, values_view(values@), path@, 0) is None
                &&& spent(
                    depth as nat,
                    old(budget).remaining as nat,
                    final(budget).remaining as nat,
                    elements_work(true, inner@, values_view(values@), path@, 0),
                    elements_work(false, inner@, values_view(values@), path@, 0),
                )
            },
            Err(e) => refused(
                e@,
                depth as nat,
                old(budget).remaining as nat,
                elements_violation(inner@, values_view(values@), path@, 0),
                elements_work(true, inner@, values_view(values@), path@, 0),
                elements_work(false, inner@, values_view(values@), path@, 0),
            ),
        },
        final(budget).remaining <= old(budget).remaining,
        elements_checked(
            inner@,
            values_view(values@),
            path@,
            (depth + 1) as nat,
            old(budget).remaining as nat,
            error_of(r),
            final(budget).remaining as nat,
        ),
    decreases values_view(values@), 1int,
{
    let ghost vs = values_view(values@);
    let ghost start = budget.remaining;
    let ghost d = (depth + 1) as nat;
    let ghost mut told = Seq::<Question>::empty();
    let mut i: usize = 0;
    assert(forall|more: Seq<Question>| #[trigger] (told + more) =~= more);
    while i < values.len()
        invariant
            d == depth + 1,
            answered(told),
            forall|more: Seq<Question>|
                check_elements(inner@, vs, path@, 0, d, start as nat, #[trigger] (told + more))
                    == check_elements(
                    inner@,
                    vs,
                    path@,
                    i as nat,
                    d,
                    budget.remaining as nat,
                    more,
                ),
            i <= values@.len(),
            vs == values_view(values@),
            depth <= MAX_DYNAMIC_DEPTH,
            start == old(budget).remaining,
            budget.remaining <= start,
            elements_violation(inner@, vs, path@, 0) == elements_violation(
                inner@,
                vs,
                path@,
                i as nat,
            ),
            start + elements_work(false, inner@, vs, path@, i as nat).values <= budget.remaining
                + elements_work(false, inner@, vs, path@, 0).values,
            budget.remaining + elements_work(true, inner@, vs, path@, 0).values <= start
                + elements_work(true, inner@, vs, path@, i as nat).values,
            elements_work(false, inner@, vs, path@, i as nat).levels <= elements_work(
                false,
                inner@,
                vs,
                path@,
                0,
            ).levels,
            elements_work(true, inner@, vs, path@, 0).levels <= elements_work(
                true,
                inner@,
                vs,
                path@,
                i as nat,
            ).levels || depth + elements_work(true, inner@, vs, path@, 0).levels
                <= MAX_DYNAMIC_DEPTH,
        decreases values@.len() - i,
    {
        let value = &values[i];
        assert(vs[i as int] == value@);
        let item_path: String = indexed_path(path, i);
        let ghost before = budget.remaining as nat;
        let step = validate_value_inner(inner, value, &item_path, depth + 1, budget);
        proof {
            let here = item_path@;
            let after = budget.remaining as nat;
            let asked = choose|asked: Seq<Question>| #[trigger]
                answered(asked) && check_value(inner@, value@, here, d, before, asked) == ended(
                    error_of(step),
                    after,
                );
            let all = told + asked;
            assert(answered(all));
            if step is Ok {
                assert forall|more: Seq<Question>| check_elements(
                    inner@,
                    vs,
                    path@,
                    0,
                    d,
                    start as nat,
                    #[trigger] (all + more),
                ) == check_elements(inner@, vs, path@, (i + 1) as nat, d, after, more) by {
                    check_value_followed(inner@, value@, here, d, before, asked, more);
                    assert(all + more =~= told + (asked + more));
                    assert(Seq::<Question>::empty() + more =~= more);
                }
            }
            told = all;
        }
        step?;
        i = i + 1;
    }
    assert(told + Seq::<Question>::empty() =~= told);
    Ok(())
}

/// Checks the values of `message` against the fields of `expected`.
fn validate_message_inner(
    expected: &MessageSchema,
    message: &DynamicMessage,
    path: &str,
    depth: usize,
    budget: &mut ValidationBudget,
) -> (r: Result<(), DynamicError>)
    ensures
        match r {
            Ok(()) => {
                &&& message_violation(expected@, message@, path@) is None
                &&& spent(
                    depth as nat,
                    old(budget).remaining as nat,
                    final(budget).remaining as nat,
                    message_work(true, expected@, message@, path@),
                    message_work(false, expected@, message@, path@),
                )
            },
            Err(e) => refused(
                e@,
                depth as nat,
                old(budget).remaining as nat,
                message_violation(expected@, message@, path@),
                message_work(true, expected@, message@, path@),
                message_work(false, expected@, message@, path@),
            ),
        },
        final(budget).remaining <= old(budget).remaining,
        message_checked(
            expected@,
            message@,
            path@,
            depth as nat,
            old(budget).remaining as nat,
            error_of(r),
            final(budget).remaining as nat,
        ),
    decreases message@, 0int,
{
    assert(answered(Seq::<Question>::empty()));
    check_depth(depth)?;
    if expected.fields.len() != message.values.len() {
        return Err(
            DynamicError::WrongArrayLength {
                path: path.to_owned(),
                expected: expected.fields.len(),
                actual: message.values.len(),
            },
        );
    }
    let ghost vs = message@.values;
    let ghost fs = expected@.fields;
    let ghost start = budget.remaining;
    let ghost d = depth as nat;
    let ghost mut told = Seq::<Question>::empty();
    let mut i: usize = 0;
    assert(forall|more: Seq<Question>| #[trigger] (told + more) =~= more);
    while i < message.values.len()
        invariant
            d == depth,
            answered(told),
            forall|more: Seq<Question>|
                check_fields(fs, vs, path@, 0, d, start as nat, #[trigger] (told + more))
                    == check_fields(
                    fs,
                    vs,
                    path@,
                    i as nat,
                    d,
                    budget.remaining as nat,
                    more,
                ),
            i <= message.values@.len(),
            expected.fields@.len() == message.values@.len(),
            vs == values_view(message.values@),
            vs == message@.values,
            fs == fields_view(expected.fields@),
            fs == expected@.fields,
            depth <= MAX_DYNAMIC_DEPTH,
            start == old(budget).remaining,
            budget.remaining <= start,
            fields_violation(fs, vs, path@, 0) == fields_violation(fs, vs, path@, i as nat),
            start + message_fields_work(false, fs, vs, path@, i as nat).values <= budget.remaining
                + message_fields_work(false, fs, vs, path@, 0).values,
            budget.remaining + message_fields_work(true, fs, vs, path@, 0).values <= start
                + message_fields_work(true, fs, vs, path@, i as nat).values,
            message_fields_work(false, fs, vs, path@, i as nat).levels <= message_fields_work(
                false,
                fs,
                vs,
                path@,
                0,
            ).levels,
            message_fields_work(true, fs, vs, path@, 0).levels <= message_fields_work(
                true,
                fs,
                vs,
                path@,
                i as nat,
            ).levels || depth + message_fields_work(true, fs, vs, path@, 0).levels
                <= MAX_DYNAMIC_DEPTH,
        decreases message.values@.len() - i,
    {
        let value = &message.values[i];
        let field = &expected.fields[i];
        assert(vs[i as int] == value@);
        assert(fs[i as int] == field@);
        let field_path: String = join_path(path, &field.name);
        assert(decreases_to!(message@ => vs));
        assert(decreases_to!(vs => vs[i as int]));
        let ghost before = budget.remaining as nat;
        let step = validate_value_inner(&field.field_type, value, &field_path, depth, budget);
        proof {
            let (t, here) = (field@.field_type, field_path@);
            let after = budget.remaining as nat;
            let asked = choose|asked: Seq<Question>| #[trigger]
                answered(asked) && check_value(t, value@, here, d, before, asked) == ended(
                    error_of(step),
                    after,
                );
            let all = told + asked;
            assert(answered(all));
            if step is Ok {
                assert forall|more: Seq<Question>| check_fields(
                    fs,
                    vs,
                    path@,
                    0,
                    d,
                    start as nat,
                    #[trigger] (all + more),
                ) == check_fields(fs, vs, path@, (i + 1) as nat, d, after, more) by {
                    check_value_followed(t, value@, here, d, before, asked, more);
                    assert(all + more =~= told + (asked + more));
                    assert(Seq::<Question>::empty() + more =~= more);
                }
            }
            told = all;
        }
        step?;
        i = i + 1;
    }
    assert(told + Seq::<Question>::empty() =~= told);
    Ok(())
}

/// Whether work `w` stays within the limits on a whole message.
pub open spec fn within_limits(w: Work) -> bool {
    w.levels <= MAX_DYNAMIC_DEPTH && w.values <= MAX_DYNAMIC_VALUES
}

/// Whether checking a whole value can end with `error`.
pub open spec fn value_check_ends(
    t: TypeView,
    v: ValueView,
    path: Seq<char>,
    error: Option<ErrorView>,
) -> bool {
    exists|left: nat| #[trigger]
        value_checked(t, v, path, 0, MAX_DYNAMIC_VALUES as nat, error, left)
}

/// Whether checking a whole message can end with `error`.
pub open spec fn message_check_ends(
    s: SchemaView,
    m: MessageView,
    path: Seq<char>,
    error: Option<ErrorView>,
) -> bool {
    exists|left: nat| #[trigger]
        message_checked(s, m, path, 0, MAX_DYNAMIC_VALUES as nat, error, left)
}

/// Checks that `value` at `path` has type `field_type`.
///
/// A value of the type is accepted where the check stays within the limits even
/// without shared schemas, and an error other than a limit's is the first that
/// the value deserves.
pub fn validate_value(field_type: &FieldType, value: &DynamicValue, path: &str) -> (r: Result<
    (),
    DynamicError,
>)
    ensures
        value_check_ends(field_type@, value@, path@, error_of(r)),
        match r {
            Ok(()) => {
                &&& violation(field_type@, value@, path@) is None
                &&& within_limits(value_work(true, field_type@, value@, path@))
            },
            Err(e) => refused(
                e@,
                0,
                MAX_DYNAMIC_VALUES as nat,
                violation(field_type@, value@, path@),
                value_work(true, field_type@, value@, path@),
                value_work(false, field_type@, value@, path@),
            ),
        },
{
    let mut budget = ValidationBudget { remaining: MAX_DYNAMIC_VALUES };
    let r = validate_value_inner(field_type, value, path, 0, &mut budget);
    assert(value_checked(
        field_type@,
        value@,
        path@,
        0,
        MAX_DYNAMIC_VALUES as nat,
        error_of(r),
        budget.remaining as nat,
    ));
    r
}

/// Checks the values of `message` against the fields of its schema.
pub fn validate_message(message: &DynamicMessage) -> (r: Result<(), DynamicError>)
    ensures
        message_check_ends(message@.schema, message@, "$"@, error_of(r)),
        match r {
            Ok(()) => {
                &&& message_violation(message@.schema, message@, "$"@) is None
                &&& within_limits(message_work(true, message@.schema, message@, "$"@))
            },
            Err(e) => refused(
                e@,
                0,
                MAX_DYNAMIC_VALUES as nat,
                message_violation(message@.schema, message@, "$"@),
                message_work(true, message@.schema, message@, "$"@),
                message_work(false, message@.schema, message@, "$"@),
            ),
        },
{
    let mut budget = ValidationBudget { remaining: MAX_DYNAMIC_VALUES };
    let r = validate_message_inner(&*message.schema, message, "$", 0, &mut budget);
    assert(message_checked(
        message@.schema,
        message@,
        "$"@,
        0,
        MAX_DYNAMIC_VALUES as nat,
        error_of(r),
        budget.remaining as nat,
    ));
    r
}

/// Whether a value is accepted does not depend on where it stands.
pub proof fn acceptance_ignores_path(t: TypeView, v: ValueView, p: Seq<char>, q: Seq<char>)
    ensures
        violation(t, v, p) is None == violation(t, v, q) is None,
    decreases v, 0int,
{
    match (t, v) {
        (TypeView::Array(e, _), ValueView::Array(vs)) => {
            elements_acceptance_ignores_path(*e, vs, p, q, 0);
        },
        (TypeView::Sequence(e), ValueView::Array(vs)) => {
            elements_acceptance_ignores_path(*e, vs, p, q, 0);
        },
        (TypeView::BoundedSequence(e, _), ValueView::Array(vs)) => {
            elements_acceptance_ignores_path(*e, vs, p, q, 0);
        },
        (TypeView::Message(s), ValueView::Message(m)) => {
            message_acceptance_ignores_path(*s, *m, p, q);
        },
        _ => {},
    }
}

proof fn elements_acceptance_ignores_path(
    t: TypeView,
    vs: Seq<ValueView>,
    p: Seq<char>,
    q: Seq<char>,
    i: nat,
)
    ensures
        elements_violation(t, vs, p, i) is None == elements_violation(t, vs, q, i) is None,
    decreases vs, vs.len() - i,
{
    if i < vs.len() {
        acceptance_ignores_path(t, vs[i as int], element_path(p, i), element_path(q, i));
        elements_acceptance_ignores_path(t, vs, p, q, i + 1);
    }
}

/// Whether a message is accepted does not depend on where it stands.
pub proof fn message_acceptance_ignores_path(
    s: SchemaView,
    m: MessageView,
    p: Seq<char>,
    q: Seq<char>,
)
    ensures
        message_violation(s, m, p) is None == message_violation(s, m, q) is None,
    decreases m, 0int,
{
    if s.fields.len() == m.values.len() {
        fields_acceptance_ignores_path(s.fields, m.values, p, q, 0);
    }
}

proof fn fields_acceptance_ignores_path(
    fields: Seq<FieldView>,
    vs: Seq<ValueView>,
    p: Seq<char>,
    q: Seq<char>,
    i: nat,
)
    ensures
        fields_violation(fields, vs, p, i) is None == fields_violation(fields, vs, q, i) is None,
    decreases vs, vs.len() - i,
{
    if i < vs.len() {
        acceptance_ignores_path(
            fields[i as int].field_type,
            vs[i as int],
            joined(p, fields[i as int].name),
            joined(q, fields[i as int].name),
        );
        fields_acceptance_ignores_path(fields, vs, p, q, i + 1);
    }
}

/// The fields of a list are accepted where each of them is.
pub proof fn fields_accepted_one_by_one(
    fields: Seq<FieldView>,
    vs: Seq<ValueView>,
    path: Seq<char>,
    i: nat,
)
    ensures
        fields_violation(fields, vs, path, i) is None <==> forall|j: int|
            i <= j < vs.len() ==> violation(
                fields[j].field_type,
                #[trigger] vs[j],
                joined(path, fields[j].name),
            ) is None,
    decreases vs.len() - i,
{
    if i < vs.len() {
        fields_accepted_one_by_one(fields, vs, path, i + 1);
        if fields_violation(fields, vs, path, i) is None {
            assert forall|j: int| i <= j < vs.len() implies violation(
                fields[j].field_type,
                #[trigger] vs[j],
                joined(path, fields[j].name),
            ) is None by {
                if j > i {
                    assert(i + 1 <= j);
                }
            }
        } else if violation(
            fields[i as int].field_type,
            vs[i as int],
            joined(path, fields[i as int].name),
        ) is None {
            assert(fields_violation(fields, vs, path, i + 1) is Some);
        } else {
            assert(violation(
                fields[i as int].field_type,
                vs[i as int],
                joined(path, fields[i as int].name),
            ) is Some);
        }
    }
}

} // verus!
