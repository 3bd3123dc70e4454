//! Building schemas from parsed `.msg` files.
//!
//! Finding and reading files is left to the caller. [`load_schema`] works on the
//! files that the caller has looked for so far, and says which one it needs next.

use crate::dynamic::error::{DynamicError, ErrorView};
use crate::dynamic::registry::SchemaRegistry;
use crate::dynamic::schema::{
    fields_view, FieldSchema, FieldType, FieldView, MessageSchema, SchemaView, TypeView,
};
use crate::shared::share;
use crate::text::{
    all_digits, chars_of, digits_value, join2, join3, nothing_to_split, pieces_hold_no_separator,
    rejoined, same_text, split, split_joined, split_pieces_rejoin, split_text, text_of, texts,
    trim_text, trimmed,
};
use std::sync::Arc;
use vstd::prelude::*;

verus! {

/// How many values a field holds.
#[derive(Debug, Clone, Copy, PartialEq, Eq)]
pub enum ArrayType {
    Single,
    Fixed(usize),
    Bounded(usize),
    Unbounded,
}

/// The declared type of a field.
#[derive(Debug)]
pub struct ParsedFieldType {
    pub base_type: String,
    pub package: Option<String>,
    pub array: ArrayType,
}

/// A field of a `.msg` file.
#[derive(Debug)]
pub struct ParsedField {
    pub name: String,
    pub field_type: ParsedFieldType,
}

/// The contents of a `.msg` file.
#[derive(Debug)]
pub struct ParsedMessage {
    pub package: String,
    pub name: String,
    pub fields: Vec<ParsedField>,
}

/// The number that `s` writes in decimal, with at most one sign before it, if it
/// fits.
pub open spec fn parsed_usize(s: Seq<char>) -> Option<nat> {
    let digits = if s.len() > 1 && s[0] == '+' {
        s.skip(1)
    } else {
        s
    };
    if digits.len() > 0 && all_digits(digits) && digits_value(digits) <= usize::MAX {
        Some(digits_value(digits))
    } else {
        None
    }
}

/// The text before the bound of a bounded string.
pub open spec fn bounded_string_prefix() -> Seq<char> {
    seq!['s', 't', 'r', 'i', 'n', 'g', '<', '=']
}

/// The type that a name stands for without any package.
pub open spec fn primitive(base: Seq<char>) -> Option<TypeView> {
    if base == "bool"@ {
        Some(TypeView::Bool)
    } else if base == "int8"@ || base == "byte"@ {
        Some(TypeView::Int8)
    } else if base == "int16"@ {
        Some(TypeView::Int16)
    } else if base == "int32"@ {
        Some(TypeView::Int32)
    } else if base == "int64"@ {
        Some(TypeView::Int64)
    } else if base == "uint8"@ || base == "char"@ {
        Some(TypeView::Uint8)
    } else if base == "uint16"@ {
        Some(TypeView::Uint16)
    } else if base == "uint32"@ {
        Some(TypeView::Uint32)
    } else if base == "uint64"@ {
        Some(TypeView::Uint64)
    } else if base == "float32"@ {
        Some(TypeView::Float32)
    } else if base == "float64"@ {
        Some(TypeView::Float64)
    } else if base == "string"@ {
        Some(TypeView::String)
    } else if base.len() >= 8 && base.take(8) == bounded_string_prefix() && parsed_usize(
        base.skip(8),
    ) is Some {
        Some(TypeView::BoundedString(parsed_usize(base.skip(8)).unwrap()))
    } else {
        None
    }
}

/// The full name of a message type.
pub open spec fn full_name(package: Seq<char>, name: Seq<char>) -> Seq<char> {
    package + "/msg/"@ + name
}

/// The element type of a field, where `resolved` is the schema of its message
/// type, if it could be had.
pub open spec fn base_type_of(f: ParsedField, resolved: Option<SchemaView>) -> Result<
    TypeView,
    ErrorView,
> {
    let base = f.field_type.base_type@;
    match primitive(base) {
        Some(t) => Ok(t),
        None => match (f.field_type.package, resolved) {
            (None, _) => Err(ErrorView::InvalidTypeName(base)),
            (Some(p), None) => Err(ErrorView::SchemaNotFound(full_name(p@, base))),
            (Some(_), Some(s)) => Ok(TypeView::Message(Box::new(s))),
        },
    }
}

/// The type of as many values of type `t` as `array` says.
pub open spec fn arrayed(t: TypeView, array: ArrayType) -> TypeView {
    match array {
        ArrayType::Single => t,
        ArrayType::Fixed(n) => TypeView::Array(Box::new(t), n as nat),
        ArrayType::Bounded(n) => TypeView::BoundedSequence(Box::new(t), n as nat),
        ArrayType::Unbounded => TypeView::Sequence(Box::new(t)),
    }
}

/// The first `n` fields of a schema, or the first error among them.
pub open spec fn converted(
    fields: Seq<ParsedField>,
    resolved: Seq<Option<SchemaView>>,
    n: nat,
) -> Result<Seq<FieldView>, ErrorView>
    decreases n,
{
    if n == 0 || n > fields.len() {
        Ok(Seq::empty())
    } else {
        match converted(fields, resolved, (n - 1) as nat) {
            Ok(before) => match base_type_of(fields[n - 1], resolved[n - 1]) {
                Ok(t) => Ok(
                    before.push(
                        FieldView {
                            name: fields[n - 1].name@,
                            field_type: arrayed(t, fields[n - 1].field_type.array),
                            default_value: None,
                        },
                    ),
                ),
                Err(e) => Err(e),
            },
            Err(e) => Err(e),
        }
    }
}

/// The schema of a parsed message.
pub open spec fn schema_of(msg: ParsedMessage, resolved: Seq<Option<SchemaView>>) -> Result<
    SchemaView,
    ErrorView,
> {
    match converted(msg.fields@, resolved, msg.fields@.len()) {
        Ok(fields) => Ok(
            SchemaView {
                full_name: full_name(msg.package@, msg.name@),
                package: msg.package@,
                name: msg.name@,
                fields,
                type_hash: None,
            },
        ),
        Err(e) => Err(e),
    }
}

proof fn converted_error_stays(
    fields: Seq<ParsedField>,
    resolved: Seq<Option<SchemaView>>,
    n: nat,
    k: nat,
)
    requires
        n <= k <= fields.len(),
        converted(fields, resolved, n) is Err,
    ensures
        converted(fields, resolved, k) == converted(fields, resolved, n),
    decreases k - n,
{
    if n < k {
        converted_error_stays(fields, resolved, n, (k - 1) as nat);
    }
}

/// The schemas behind each reference.
pub open spec fn resolved_view(rs: Seq<Option<Arc<MessageSchema>>>) -> Seq<Option<SchemaView>> {
    Seq::new(
        rs.len(),
        |i: int|
            match rs[i] {
                Some(s) => Some(s@),
                None => None,
            },
    )
}

/// Reads a decimal number.
fn parse_usize(s: &str) -> (r: Option<usize>)
    ensures
        match r {
            Some(n) => parsed_usize(s@) == Some(n as nat),
            None => parsed_usize(s@) is None,
        },
{
    let chars: Vec<char> = chars_of(s);
    let from: usize = if chars.len() > 1 && chars[0] == '+' { 1 } else { 0 };
    let ghost digits = chars@.skip(from as int);
    assert(from == 0 ==> digits =~= s@);
    if from == chars.len() {
        return None;
    }
    let mut n: usize = 0;
    let mut i: usize = from;
    assert(digits.take(0) =~= Seq::<char>::empty());
    let mut overflow: bool = false;
    while i < chars.len()
        invariant
            from <= i <= chars@.len(),
            chars@ == s@,
            digits == chars@.skip(from as int),
            all_digits(digits.take(i - from)),
            overflow ==> digits_value(digits.take(i - from)) > usize::MAX,
            !overflow ==> n == digits_value(digits.take(i - from)),
            parsed_usize(s@) == (if digits.len() > 0 && all_digits(digits) && digits_value(digits)
                <= usize::MAX {
                Some(digits_value(digits))
            } else {
                None
            }),
            digits.len() > 0,
        decreases chars@.len() - i,
    {
        let c = chars[i];
        assert(digits[i - from] == c);
        if !('0' <= c && c <= '9') {
            assert(!all_digits(digits));
            return None;
        }
        let d: usize = (c as u32 - '0' as u32) as usize;
        let ghost before = digits.take(i - from);
        let ghost after = digits.take(i + 1 - from);
        assert(after.drop_last() =~= before);
        assert(after.last() == c);
        assert(digits_value(after) == digits_value(before) * 10 + d);
        if !overflow {
            match n.checked_mul(10) {
                Some(m) => match m.checked_add(d) {
                    Some(k) => {
                        n = k;
                    },
                    None => {
                        overflow = true;
                    },
                },
                None => {
                    overflow = true;
                },
            }
        }
        assert(all_digits(after)) by {
            assert forall|j: int| 0 <= j < after.len() implies '0' <= #[trigger] after[j]
                <= '9' by {
                if j < before.len() {
                    assert(after[j] == before[j]);
                }
            }
        }
        i = i + 1;
    }
    assert(digits.take(i - from) =~= digits);
    if overflow {
        None
    } else {
        Some(n)
    }
}

/// The type that `base` stands for without any package.
pub fn primitive_type(base: &str) -> (r: Option<FieldType>)
    ensures
        match r {
            Some(t) => primitive(base@) == Some(t@),
            None => primitive(base@) is None,
        },
{
    if same_text(base, "bool") {
        Some(FieldType::Bool)
    } else if same_text(base, "int8") || same_text(base, "byte") {
        Some(FieldType::Int8)
    } else if same_text(base, "int16") {
        Some(FieldType::Int16)
    } else if same_text(base, "int32") {
        Some(FieldType::Int32)
    } else if same_text(base, "int64") {
        Some(FieldType::Int64)
    } else if same_text(base, "uint8") || same_text(base, "char") {
        Some(FieldType::Uint8)
    } else if same_text(base, "uint16") {
        Some(FieldType::Uint16)
    } else if same_text(base, "uint32") {
        Some(FieldType::Uint32)
    } else if same_text(base, "uint64") {
        Some(FieldType::Uint64)
    } else if same_text(base, "float32") {
        Some(FieldType::Float32)
    } else if same_text(base, "float64") {
        Some(FieldType::Float64)
    } else if same_text(base, "string") {
        Some(FieldType::String)
    } else {
        let chars: Vec<char> = chars_of(base);
        if chars.len() < 8 {
            return None;
        }
        let head: String = text_of(&chars, 0, 8);
        assert(head@ =~= base@.take(8));
        proof {
            reveal_strlit("string<=");
            assert("string<="@ =~= bounded_string_prefix());
        }
        if !same_text(&head, "string<=") {
            return None;
        }
        let rest: String = text_of(&chars, 8, chars.len());
        assert(rest@ =~= base@.skip(8));
        match parse_usize(&rest) {
            Some(max) => Some(FieldType::BoundedString(max)),
            None => None,
        }
    }
}

/// The schema of a parsed message, where `resolved` holds, for each field of a
/// message type, the schema of that type, if it could be had.
pub fn parsed_message_to_schema(
    msg: &ParsedMessage,
    resolved: &Vec<Option<Arc<MessageSchema>>>,
) -> (r: Result<Arc<MessageSchema>, DynamicError>)
    requires
        resolved@.len() == msg.fields@.len(),
    ensures
        match r {
            Ok(s) => schema_of(*msg, resolved_view(resolved@)) == Ok::<SchemaView, ErrorView>(s@),
            Err(e) => schema_of(*msg, resolved_view(resolved@)) == Err::<SchemaView, ErrorView>(
                e@,
            ),
        },
{
    let ghost rs = resolved_view(resolved@);
    let mut fields: Vec<FieldSchema> = Vec::new();
    let mut i: usize = 0;
    assert(fields_view(fields@) =~= Seq::<FieldView>::empty());
    while i < msg.fields.len()
        invariant
            i <= msg.fields@.len(),
            resolved@.len() == msg.fields@.len(),
            rs == resolved_view(resolved@),
            fields@.len() == i,
            converted(msg.fields@, rs, i as nat) == Ok::<Seq<FieldView>, ErrorView>(
                fields_view(fields@),
            ),
        decreases msg.fields@.len() - i,
    {
        match convert_field_type(&msg.fields[i], &resolved[i]) {
            Ok(field_type) => {
                let ghost before = fields@;
                fields.push(
                    FieldSchema {
                        name: msg.fields[i].name.clone(),
                        field_type,
                        default_value: None,
                    },
                );
                assert(fields_view(fields@) =~= fields_view(before).push(
                    fields@[i as int]@,
                ));
            },
            Err(e) => {
                proof {
                    converted_error_stays(msg.fields@, rs, (i + 1) as nat, msg.fields@.len());
                }
                return Err(e);
            },
        }
        i = i + 1;
    }
    let s = MessageSchema {
        full_name: join3(&msg.package, "/msg/", &msg.name),
        package: msg.package.clone(),
        name: msg.name.clone(),
        fields,
        type_hash: None,
    };
    Ok(Arc::new(s))
}

/// The type of a field.
fn convert_field_type(field: &ParsedField, resolved: &Option<Arc<MessageSchema>>) -> (r: Result<
    FieldType,
    DynamicError,
>)
    ensures
        ({
            let s = match *resolved {
                Some(s) => Some(s@),
                None => None,
            };
            match r {
                Ok(t) => base_type_of(*field, s) matches Ok(b) && t@ == arrayed(
                    b,
                    field.field_type.array,
                ),
                Err(e) => base_type_of(*field, s) == Err::<TypeView, ErrorView>(e@),
            }
        }),
{
    let base: FieldType = convert_base_type(field, resolved)?;
    match field.field_type.array {
        ArrayType::Single => Ok(base),
        ArrayType::Fixed(n) => Ok(FieldType::Array(Box::new(base), n)),
        ArrayType::Bounded(n) => Ok(FieldType::BoundedSequence(Box::new(base), n)),
        ArrayType::Unbounded => Ok(FieldType::Sequence(Box::new(base))),
    }
}

/// The element type of a field.
fn convert_base_type(field: &ParsedField, resolved: &Option<Arc<MessageSchema>>) -> (r: Result<
    FieldType,
    DynamicError,
>)
    ensures
        ({
            let s = match *resolved {
                Some(s) => Some(s@),
                None => None,
            };
            match r {
                Ok(t) => base_type_of(*field, s) == Ok::<TypeView, ErrorView>(t@),
                Err(e) => base_type_of(*field, s) == Err::<TypeView, ErrorView>(e@),
            }
        }),
{
    let base: &String = &field.field_type.base_type;
    match primitive_type(base) {
        Some(t) => Ok(t),
        None => match &field.field_type.package {
            None => Err(DynamicError::InvalidTypeName(base.clone())),
            Some(package) => match resolved {
                Some(s) => Ok(FieldType::Message(share(s))),
                None => Err(DynamicError::SchemaNotFound(join3(package, "/msg/", base))),
            },
        },
    }
}

/// What the search for the file of a message type came to.
#[derive(Debug)]
pub enum MsgFile {
    /// No file was found.
    Missing,
    /// A file was found and cannot be parsed.
    Broken,
    /// A file was found and parsed.
    Parsed(ParsedMessage),
}

/// A message type and its file.
#[derive(Debug)]
pub struct KnownFile {
    pub package: String,
    pub name: String,
    pub file: MsgFile,
}

/// Where loading a schema stands.
#[derive(Debug)]
pub enum LoadStep {
    /// The schema is loaded and registered.
    Loaded(Arc<MessageSchema>),
    /// The type cannot be found or parsed.
    NotFound,
    /// The file of this message type is to be looked for first.
    NeedFile { package: String, name: String },
}

/// Model of a [`LoadStep`].
#[verifier::ext_equal]
pub enum LoadView {
    Loaded(SchemaView),
    NotFound,
    NeedFile { package: Seq<char>, name: Seq<char> },
}

impl View for LoadStep {
    type V = LoadView;

    open spec fn view(&self) -> LoadView {
        match *self {
            LoadStep::Loaded(s) => LoadView::Loaded(s@),
            LoadStep::NotFound => LoadView::NotFound,
            LoadStep::NeedFile { package, name } => LoadView::NeedFile {
                package: package@,
                name: name@,
            },
        }
    }
}

/// The package and the name in `pkg/msg/Name` or `pkg/Name`.
pub open spec fn split_type(type_id: Seq<char>) -> Option<(Seq<char>, Seq<char>)> {
    let parts = split(type_id, '/');
    if parts.len() == 3 && parts[1] == "msg"@ {
        Some((parts[0], parts[2]))
    } else if parts.len() == 2 {
        Some((parts[0], parts[1]))
    } else {
        None
    }
}

/// Splits `pkg/msg/Name`, or `pkg/Name`, into package and name.
pub fn split_msg_type(type_id: &str) -> (r: Option<(String, String)>)
    ensures
        match r {
            Some((p, n)) => split_type(type_id@) == Some((p@, n@)),
            None => split_type(type_id@) is None,
        },
{
    let parts: Vec<String> = split_text(type_id, '/');
    assert(texts(parts@).len() == parts@.len());
    if parts.len() == 3 {
        assert(texts(parts@)[1] == parts@[1]@);
        if same_text(&parts[1], "msg") {
            return Some((parts[0].clone(), parts[2].clone()));
        }
        None
    } else if parts.len() == 2 {
        Some((parts[0].clone(), parts[1].clone()))
    } else {
        None
    }
}

/// The index of the file of a message type, or the number of files.
pub open spec fn file_index(files: Seq<KnownFile>, package: Seq<char>, name: Seq<char>) -> nat
    decreases files.len(),
{
    if files.len() == 0 || files[0].package@ == package && files[0].name@ == name {
        0
    } else {
        1 + file_index(files.skip(1), package, name)
    }
}

fn find_file(files: &Vec<KnownFile>, package: &str, name: &str) -> (r: Option<usize>)
    ensures
        match r {
            Some(i) => i < files@.len() && i == file_index(files@, package@, name@),
            None => file_index(files@, package@, name@) == files@.len(),
        },
{
    let ghost fs = files@;
    let mut i: usize = 0;
    assert(fs.skip(0) =~= fs);
    while i < files.len()
        invariant
            i <= files@.len(),
            fs == files@,
            file_index(fs, package@, name@) == i + file_index(fs.skip(i as int), package@, name@),
        decreases files@.len() - i,
    {
        assert(fs.skip(i as int)[0] == fs[i as int]);
        if same_text(&files[i].package, package) && same_text(&files[i].name, name) {
            return Some(i);
        }
        assert(fs.skip(i as int).skip(1) =~= fs.skip(i + 1));
        i = i + 1;
    }
    None
}

/// How many of the marks are off.
pub open spec fn open_marks(busy: Seq<bool>) -> nat
    decreases busy.len(),
{
    if busy.len() == 0 {
        0
    } else {
        open_marks(busy.drop_last()) + if busy.last() { 0nat } else { 1nat }
    }
}

/// Setting a mark that is off leaves one less.
pub proof fn marking_closes_one(busy: Seq<bool>, i: int)
    requires
        0 <= i < busy.len(),
        !busy[i],
    ensures
        open_marks(busy.update(i, true)) + 1 == open_marks(busy),
    decreases busy.len(),
{
    let after = busy.update(i, true);
    if i == busy.len() - 1 {
        assert(after.drop_last() =~= busy.drop_last());
    } else {
        marking_closes_one(busy.drop_last(), i);
        assert(after.drop_last() =~= busy.drop_last().update(i, true));
    }
}

/// What loading type `type_id` comes to, and the registry after it. The files
/// marked `busy` are being loaded, and a type that leads back to one of them
/// cannot be.
pub open spec fn load_outcome(
    files: Seq<KnownFile>,
    registry: Map<Seq<char>, SchemaView>,
    busy: Seq<bool>,
    type_id: Seq<char>,
) -> (LoadView, Map<Seq<char>, SchemaView>)
    decreases open_marks(busy), 0nat,
{
    if registry.contains_key(type_id) {
        (LoadView::Loaded(registry[type_id]), registry)
    } else {
        match split_type(type_id) {
            None => (LoadView::NotFound, registry),
            Some((package, name)) => {
                let i = file_index(files, package, name) as int;
                if i >= files.len() || i >= busy.len() {
                    (LoadView::NeedFile { package, name }, registry)
                } else if busy[i] {
                    (LoadView::NotFound, registry)
                } else {
                    match files[i].file {
                        MsgFile::Parsed(msg) => {
                            proof {
                                marking_closes_one(busy, i);
                            }
                            let (nested, after) = nested_outcome(
                                files,
                                registry,
                                busy.update(i, true),
                                msg.fields@,
                                msg.fields@.len(),
                            );
                            match nested {
                                Err(step) => (step, after),
                                Ok(resolved) => match schema_of(msg, resolved) {
                                    Ok(s) => (
                                        LoadView::Loaded(s),
                                        after.insert(s.full_name, s),
                                    ),
                                    Err(_) => (LoadView::NotFound, after),
                                },
                            }
                        },
                        _ => (LoadView::NotFound, registry),
                    }
                }
            },
        }
    }
}

/// The schemas of the message types among the first `n` fields, or why one
/// cannot be had, and the registry after them.
pub open spec fn nested_outcome(
    files: Seq<KnownFile>,
    registry: Map<Seq<char>, SchemaView>,
    busy: Seq<bool>,
    fields: Seq<ParsedField>,
    n: nat,
) -> (Result<Seq<Option<SchemaView>>, LoadView>, Map<Seq<char>, SchemaView>)
    decreases open_marks(busy), n + 1,
{
    if n == 0 || n > fields.len() {
        (Ok(Seq::empty()), registry)
    } else {
        let (before, after) = nested_outcome(files, registry, busy, fields, (n - 1) as nat);
        let f = fields[n - 1];
        match before {
            Err(step) => (Err(step), after),
            Ok(resolved) => if primitive(f.field_type.base_type@) is Some {
                (Ok(resolved.push(None)), after)
            } else {
                match f.field_type.package {
                    None => (Err(LoadView::NotFound), after),
                    Some(p) => {
                        let (step, last) = load_outcome(
                            files,
                            after,
                            busy,
                            full_name(p@, f.field_type.base_type@),
                        );
                        match step {
                            LoadView::Loaded(s) => (Ok(resolved.push(Some(s))), last),
                            _ => (Err(step), last),
                        }
                    },
                }
            },
        }
    }
}

proof fn nested_error_stays(
    files: Seq<KnownFile>,
    registry: Map<Seq<char>, SchemaView>,
    busy: Seq<bool>,
    fields: Seq<ParsedField>,
    n: nat,
    k: nat,
)
    requires
        n <= k <= fields.len(),
        nested_outcome(files, registry, busy, fields, n).0 is Err,
    ensures
        nested_outcome(files, registry, busy, fields, k) == nested_outcome(
            files,
            registry,
            busy,
            fields,
            n,
        ),
    decreases k - n,
{
    if n < k {
        nested_error_stays(files, registry, busy, fields, n, (k - 1) as nat);
    }
}

/// No file is being loaded.
pub open spec fn idle(n: nat) -> Seq<bool> {
    Seq::new(n, |i: int| false)
}

/// Loads the schema of `type_id` and of all message types that it holds, from
/// the files known so far, and registers each.
pub fn load_schema(
    type_id: &str,
    files: &Vec<KnownFile>,
    registry: &mut SchemaRegistry,
) -> (r: LoadStep)
    requires
        old(registry).wf(),
    ensures
        final(registry).wf(),
        (r@, final(registry)@) == load_outcome(
            files@,
            old(registry)@,
            idle(files@.len()),
            type_id@,
        ),
        r matches LoadStep::Loaded(s) ==> final(registry).entry(s@.full_name) == Some(s),
        old(registry).entry(type_id@) matches Some(s) ==> r == LoadStep::Loaded(s)
            && *final(registry) == *old(registry),
{
    let mut busy: Vec<bool> = Vec::new();
    while busy.len() < files.len()
        invariant
            busy@.len() <= files@.len(),
            busy@ == idle(busy@.len()),
        decreases files@.len() - busy@.len(),
    {
        busy.push(false);
        assert(busy@ =~= idle(busy@.len()));
    }
    load_schema_inner(type_id, files, registry, &mut busy)
}

fn load_schema_inner(
    type_id: &str,
    files: &Vec<KnownFile>,
    registry: &mut SchemaRegistry,
    busy: &mut Vec<bool>,
) -> (r: LoadStep)
    requires
        old(registry).wf(),
        old(busy)@.len() == files@.len(),
    ensures
        final(registry).wf(),
        final(busy)@ == old(busy)@,
        (r@, final(registry)@) == load_outcome(
            files@,
            old(registry)@,
            old(busy)@,
            type_id@,
        ),
        r matches LoadStep::Loaded(s) ==> final(registry).entry(s@.full_name) == Some(s),
        old(registry).entry(type_id@) matches Some(s) ==> r == LoadStep::Loaded(s)
            && *final(registry) == *old(registry),
    decreases open_marks(old(busy)@), 0nat,
{
    match registry.get(type_id) {
        Some(s) => {
            proof {
                registry.schemas_stand_under_their_own_names();
            }
            return LoadStep::Loaded(s);
        },
        None => {},
    }
    let (package, name) = match split_msg_type(type_id) {
        Some(parts) => parts,
        None => return LoadStep::NotFound,
    };
    let i: usize = match find_file(files, &package, &name) {
        Some(i) => i,
        None => return LoadStep::NeedFile { package, name },
    };
    if busy[i] {
        return LoadStep::NotFound;
    }
    match &files[i].file {
        MsgFile::Parsed(msg) => {
            proof {
                marking_closes_one(busy@, i as int);
            }
            busy.set(i, true);
            let nested = load_nested(msg, files, registry, busy);
            busy.set(i, false);
            assert(busy@ =~= old(busy)@);
            match nested {
                Err(step) => step,
                Ok(resolved) => match parsed_message_to_schema(msg, &resolved) {
                    Ok(schema) => LoadStep::Loaded(registry.register(schema)),
                    Err(_) => LoadStep::NotFound,
                },
            }
        },
        _ => LoadStep::NotFound,
    }
}

/// The schemas of the message types among the fields of `msg`.
fn load_nested(
    msg: &ParsedMessage,
    files: &Vec<KnownFile>,
    registry: &mut SchemaRegistry,
    busy: &mut Vec<bool>,
) -> (r: Result<Vec<Option<Arc<MessageSchema>>>, LoadStep>)
    requires
        old(registry).wf(),
        old(busy)@.len() == files@.len(),
    ensures
        final(registry).wf(),
        final(busy)@ == old(busy)@,
        ({
            let (nested, after) = nested_outcome(
                files@,
                old(registry)@,
                old(busy)@,
                msg.fields@,
                msg.fields@.len(),
            );
            &&& final(registry)@ == after
            &&& match r {
                Ok(resolved) => resolved@.len() == msg.fields@.len() && nested == Ok::<
                    Seq<Option<SchemaView>>,
                    LoadView,
                >(resolved_view(resolved@)),
                Err(step) => step !is Loaded && nested == Err::<Seq<Option<SchemaView>>, LoadView>(
                    step@,
                ),
            }
        }),
    decreases open_marks(old(busy)@), msg.fields@.len() + 1,
{
    let ghost reg = registry@;
    let ghost marks = busy@;
    let mut resolved: Vec<Option<Arc<MessageSchema>>> = Vec::new();
    let mut i: usize = 0;
    assert(resolved_view(resolved@) =~= Seq::<Option<SchemaView>>::empty());
    while i < msg.fields.len()
        invariant
            i <= msg.fields@.len(),
            registry.wf(),
            reg == old(registry)@,
            marks == old(busy)@,
            busy@ == marks,
            marks.len() == files@.len(),
            resolved@.len() == i,
            nested_outcome(files@, reg, marks, msg.fields@, i as nat) == (
                Ok::<Seq<Option<SchemaView>>, LoadView>(resolved_view(resolved@)),
                registry@,
            ),
        decreases msg.fields@.len() - i,
    {
        let field = &msg.fields[i];
        let ghost before = resolved@;
        match primitive_type(&field.field_type.base_type) {
            Some(_) => {
                resolved.push(None);
                assert(resolved_view(resolved@) =~= resolved_view(before).push(None));
            },
            None => match &field.field_type.package {
                None => {
                    proof {
                        nested_error_stays(
                            files@,
                            reg,
                            marks,
                            msg.fields@,
                            (i + 1) as nat,
                            msg.fields@.len(),
                        );
                    }
                    return Err(LoadStep::NotFound);
                },
                Some(package) => {
                    let nested: String = join3(package, "/msg/", &field.field_type.base_type);
                    let step: LoadStep = load_schema_inner(&nested, files, registry, busy);
                    match step {
                        LoadStep::Loaded(s) => {
                            resolved.push(Some(s));
                            assert(resolved_view(resolved@) =~= resolved_view(before).push(
                                Some(s@),
                            ));
                        },
                        _ => {
                            proof {
                                nested_error_stays(
                                    files@,
                                    reg,
                                    marks,
                                    msg.fields@,
                                    (i + 1) as nat,
                                    msg.fields@.len(),
                                );
                            }
                            return Err(step);
                        },
                    }
                },
            },
        }
        i = i + 1;
    }
    Ok(resolved)
}

/// Loading keeps every registered type, and a type that was loaded is
/// registered under its full name.
pub proof fn loading_keeps_registered_types(
    files: Seq<KnownFile>,
    registry: Map<Seq<char>, SchemaView>,
    busy: Seq<bool>,
    type_id: Seq<char>,
)
    ensures
        registry.dom().subset_of(load_outcome(files, registry, busy, type_id).1.dom()),
        !registry.contains_key(type_id) ==> (load_outcome(
            files,
            registry,
            busy,
            type_id,
        ).0 matches LoadView::Loaded(s) ==> {
            let after = load_outcome(files, registry, busy, type_id).1;
            after.contains_key(s.full_name) && after[s.full_name] == s
        }),
    decreases open_marks(busy), 0nat,
{
    match split_type(type_id) {
        Some((package, name)) => {
            let i = file_index(files, package, name) as int;
            if i < files.len() && i < busy.len() && !busy[i] {
                if let MsgFile::Parsed(msg) = files[i].file {
                    marking_closes_one(busy, i);
                    nested_loading_keeps_registered_types(
                        files,
                        registry,
                        busy.update(i, true),
                        msg.fields@,
                        msg.fields@.len(),
                    );
                }
            }
        },
        None => {},
    }
}

proof fn nested_loading_keeps_registered_types(
    files: Seq<KnownFile>,
    registry: Map<Seq<char>, SchemaView>,
    busy: Seq<bool>,
    fields: Seq<ParsedField>,
    n: nat,
)
    ensures
        registry.dom().subset_of(nested_outcome(files, registry, busy, fields, n).1.dom()),
        nested_outcome(files, registry, busy, fields, n).0 matches Err(step) ==> step !is Loaded,
    decreases open_marks(busy), n + 1,
{
    if 0 < n <= fields.len() {
        nested_loading_keeps_registered_types(files, registry, busy, fields, (n - 1) as nat);
        let (before, after) = nested_outcome(files, registry, busy, fields, (n - 1) as nat);
        let f = fields[n - 1];
        if before is Ok && primitive(f.field_type.base_type@) is None {
            if let Some(p) = f.field_type.package {
                loading_keeps_registered_types(
                    files,
                    after,
                    busy,
                    full_name(p@, f.field_type.base_type@),
                );
            }
        }
    }
}

/// Whether each parsed file is that of the message type under which it is known.
pub open spec fn files_are_named(files: Seq<KnownFile>) -> bool {
    forall|i: int|
        0 <= i < files.len() ==> ((#[trigger] files[i]).file matches MsgFile::Parsed(msg) ==> {
            &&& msg.package@ == files[i].package@
            &&& msg.name@ == files[i].name@
        })
}

/// A schema that is loaded has the type name that was asked for; one that was
/// asked for as `pkg/Name` and is not registered so has the name `pkg/msg/Name`.
pub proof fn a_loaded_schema_has_the_name_asked_for(
    files: Seq<KnownFile>,
    registry: Map<Seq<char>, SchemaView>,
    busy: Seq<bool>,
    type_id: Seq<char>,
)
    requires
        files_are_named(files),
        forall|n: Seq<char>| #[trigger] registry.contains_key(n) ==> registry[n].full_name == n,
    ensures
        load_outcome(files, registry, busy, type_id).0 matches LoadView::Loaded(s) ==> {
            ||| s.full_name == type_id
            ||| {
                &&& !registry.contains_key(type_id)
                &&& split(type_id, '/').len() == 2
                &&& s.full_name == full_name(split(type_id, '/')[0], split(type_id, '/')[1])
            }
        },
{
    if let Some((package, name)) = split_type(type_id) {
        let i = file_index(files, package, name) as int;
        file_index_finds(files, package, name);
        if i < files.len() && i < busy.len() && !busy[i] && !registry.contains_key(type_id) {
            if let MsgFile::Parsed(msg) = files[i].file {
                assert(files[i].package@ == package);
                marking_closes_one(busy, i);
                nested_loading_keeps_registered_types(
                    files,
                    registry,
                    busy.update(i, true),
                    msg.fields@,
                    msg.fields@.len(),
                );
                if split(type_id, '/').len() == 3 {
                    three_parts_rejoin(type_id);
                }
            }
        }
    }
}

proof fn full_name_splits(package: Seq<char>, name: Seq<char>)
    requires
        !package.contains('/'),
        !name.contains('/'),
    ensures
        split(full_name(package, name), '/') == seq![package, "msg"@, name],
{
    reveal_strlit("msg");
    reveal_strlit("/msg/");
    let front = package.push('/') + "msg"@;
    assert(full_name(package, name) =~= front.push('/') + name);
    split_joined(front, '/', name);
    split_joined(package, '/', "msg"@);
    nothing_to_split(package, '/');
    nothing_to_split("msg"@, '/');
    nothing_to_split(name, '/');
    assert(split(full_name(package, name), '/') =~= seq![package, "msg"@, name]);
}

/// A load that does not end with the schema asked for leaves its type unregistered,
/// whatever else it registers on the way.
pub proof fn a_failed_load_registers_nothing(
    files: Seq<KnownFile>,
    registry: Map<Seq<char>, SchemaView>,
    busy: Seq<bool>,
    type_id: Seq<char>,
)
    requires
        files_are_named(files),
        !registry.contains_key(type_id),
        split(type_id, '/').len() == 3,
        load_outcome(files, registry, busy, type_id).0 !is Loaded,
    ensures
        !load_outcome(files, registry, busy, type_id).1.contains_key(type_id),
{
    if let Some((package, name)) = split_type(type_id) {
        let i = file_index(files, package, name) as int;
        if i < files.len() && i < busy.len() && !busy[i] {
            if let MsgFile::Parsed(msg) = files[i].file {
                marking_closes_one(busy, i);
                three_parts_rejoin(type_id);
                pieces_hold_no_separator(type_id, '/');
                nested_loads_keep_off(
                    files,
                    registry,
                    busy.update(i, true),
                    msg.fields@,
                    msg.fields@.len(),
                    package,
                    name,
                );
            }
        }
    }
}

/// A load registers no type whose own load is under way.
proof fn loads_keep_off(
    files: Seq<KnownFile>,
    registry: Map<Seq<char>, SchemaView>,
    busy: Seq<bool>,
    type_id: Seq<char>,
    package: Seq<char>,
    name: Seq<char>,
)
    requires
        files_are_named(files),
        !package.contains('/'),
        !name.contains('/'),
        file_index(files, package, name) < busy.len(),
        busy[file_index(files, package, name) as int],
        !registry.contains_key(full_name(package, name)),
    ensures
        !load_outcome(files, registry, busy, type_id).1.contains_key(full_name(package, name)),
    decreases open_marks(busy), 0nat,
{
    if let Some((p, n)) = split_type(type_id) {
        let i = file_index(files, p, n) as int;
        if !registry.contains_key(type_id) && i < files.len() && i < busy.len() && !busy[i] {
            if let MsgFile::Parsed(msg) = files[i].file {
                marking_closes_one(busy, i);
                nested_loads_keep_off(
                    files,
                    registry,
                    busy.update(i, true),
                    msg.fields@,
                    msg.fields@.len(),
                    package,
                    name,
                );
                file_index_finds(files, p, n);
                pieces_hold_no_separator(type_id, '/');
                full_name_splits(p, n);
                full_name_splits(package, name);
                if full_name(p, n) == full_name(package, name) {
                    let parts = split(full_name(p, n), '/');
                    assert(parts[0] == p && parts[0] == package);
                    assert(parts[2] == n && parts[2] == name);
                }
            }
        }
    }
}

proof fn nested_loads_keep_off(
    files: Seq<KnownFile>,
    registry: Map<Seq<char>, SchemaView>,
    busy: Seq<bool>,
    fields: Seq<ParsedField>,
    k: nat,
    package: Seq<char>,
    name: Seq<char>,
)
    requires
        files_are_named(files),
        !package.contains('/'),
        !name.contains('/'),
        file_index(files, package, name) < busy.len(),
        busy[file_index(files, package, name) as int],
        !registry.contains_key(full_name(package, name)),
    ensures
        !nested_outcome(files, registry, busy, fields, k).1.contains_key(full_name(package, name)),
    decreases open_marks(busy), k + 1,
{
    if 0 < k <= fields.len() {
        nested_loads_keep_off(files, registry, busy, fields, (k - 1) as nat, package, name);
        let (before, after) = nested_outcome(files, registry, busy, fields, (k - 1) as nat);
        let f = fields[k - 1];
        if before is Ok && primitive(f.field_type.base_type@) is None {
            if let Some(p) = f.field_type.package {
                loads_keep_off(
                    files,
                    after,
                    busy,
                    full_name(p@, f.field_type.base_type@),
                    package,
                    name,
                );
            }
        }
    }
}

proof fn three_parts_rejoin(type_id: Seq<char>)
    requires
        split(type_id, '/').len() == 3,
        split(type_id, '/')[1] == "msg"@,
    ensures
        full_name(split(type_id, '/')[0], split(type_id, '/')[2]) == type_id,
{
    let parts = split(type_id, '/');
    reveal_strlit("msg");
    reveal_strlit("/msg/");
    split_pieces_rejoin(type_id, '/');
    reveal_with_fuel(rejoined, 3);
    assert(parts.drop_last().drop_last()[0] == parts[0]);
    assert(full_name(parts[0], parts[2]) =~= type_id);
}

proof fn file_index_finds(files: Seq<KnownFile>, package: Seq<char>, name: Seq<char>)
    ensures
        ({
            let i = file_index(files, package, name) as int;
            i < files.len() ==> files[i].package@ == package && files[i].name@ == name
        }),
    decreases files.len(),
{
    if files.len() > 0 && !(files[0].package@ == package && files[0].name@ == name) {
        file_index_finds(files.skip(1), package, name);
    }
}

/// The entries among the first `n` parts of a search path: the parts without white
/// space around them, as far as they hold anything.
pub open spec fn path_entries(parts: Seq<Seq<char>>, n: nat) -> Seq<Seq<char>>
    decreases n,
{
    if n == 0 || n > parts.len() {
        Seq::empty()
    } else {
        let before = path_entries(parts, (n - 1) as nat);
        let entry = trimmed(parts[n - 1]);
        if entry.len() > 0 {
            before.push(entry)
        } else {
            before
        }
    }
}

/// The entries of a search path, which stand between colons.
pub fn search_path_entries(path: &str) -> (r: Vec<String>)
    ensures
        texts(r@) == path_entries(split(path@, ':'), split(path@, ':').len()),
{
    let parts: Vec<String> = split_text(path, ':');
    let ghost all = split(path@, ':');
    let mut r: Vec<String> = Vec::new();
    let mut i: usize = 0;
    assert(texts(r@) =~= Seq::<Seq<char>>::empty());
    while i < parts.len()
        invariant
            i <= parts@.len(),
            texts(parts@) == all,
            texts(r@) == path_entries(all, i as nat),
        decreases parts@.len() - i,
    {
        let entry: String = trim_text(&parts[i]);
        assert(all[i as int] == parts@[i as int]@);
        if entry.as_str().unicode_len() > 0 {
            let ghost before = r@;
            r.push(entry);
            assert(texts(r@) =~= texts(before).push(entry@));
        }
        i = i + 1;
    }
    assert(texts(parts@).len() == parts@.len());
    r
}

/// An entry of the search path for `.msg` files.
#[derive(Debug)]
pub struct SearchEntry {
    pub path: String,
    /// The last component of the path, if it has one.
    pub base_name: Option<String>,
}

/// Whether an entry is the directory of `package` itself.
pub open spec fn is_package_dir(e: SearchEntry, package: Seq<char>) -> bool {
    match e.base_name {
        Some(b) => b@ == package,
        None => false,
    }
}

/// The places, as path components, where the file of `name` may be in the first
/// `n` entries: below the package below the entry, and then, only where the entry
/// is the package's own directory, below the entry.
pub open spec fn places(
    entries: Seq<SearchEntry>,
    package: Seq<char>,
    name: Seq<char>,
    n: nat,
) -> Seq<Seq<Seq<char>>>
    decreases n,
{
    if n == 0 || n > entries.len() {
        Seq::empty()
    } else {
        let e = entries[n - 1];
        let file = name + ".msg"@;
        let before = places(entries, package, name, (n - 1) as nat).push(
            seq![e.path@, package, "msg"@, file],
        );
        if is_package_dir(e, package) {
            before.push(seq![e.path@, "msg"@, file])
        } else {
            before
        }
    }
}

/// The components of each path.
pub open spec fn paths_view(ps: Seq<Vec<String>>) -> Seq<Seq<Seq<char>>> {
    Seq::new(ps.len(), |i: int| texts(ps[i]@))
}

/// The places where the file of a message type may be, in the order in which
/// they are tried, each as path components to be joined.
pub fn msg_file_places(entries: &Vec<SearchEntry>, package: &str, name: &str) -> (r: Vec<
    Vec<String>,
>)
    ensures
        paths_view(r@) == places(entries@, package@, name@, entries@.len()),
{
    let mut r: Vec<Vec<String>> = Vec::new();
    let mut i: usize = 0;
    assert(paths_view(r@) =~= Seq::<Seq<Seq<char>>>::empty());
    while i < entries.len()
        invariant
            i <= entries@.len(),
            paths_view(r@) == places(entries@, package@, name@, i as nat),
        decreases entries@.len() - i,
    {
        let e = &entries[i];
        let mut below: Vec<String> = Vec::new();
        below.push(e.path.clone());
        below.push(package.to_owned());
        below.push("msg".to_owned());
        below.push(join2(name, ".msg"));
        assert(texts(below@) =~= seq![e.path@, package@, "msg"@, name@ + ".msg"@]);
        let ghost before = r@;
        r.push(below);
        assert(paths_view(r@) =~= paths_view(before).push(texts(below@)));
        let own: bool = match &e.base_name {
            Some(b) => same_text(b, package),
            None => false,
        };
        if own {
            let mut inside: Vec<String> = Vec::new();
            inside.push(e.path.clone());
            inside.push("msg".to_owned());
            inside.push(join2(name, ".msg"));
            assert(texts(inside@) =~= seq![e.path@, "msg"@, name@ + ".msg"@]);
            let ghost middle = r@;
            r.push(inside);
            assert(paths_view(r@) =~= paths_view(middle).push(texts(inside@)));
        }
        i = i + 1;
    }
    r
}

} // verus!
