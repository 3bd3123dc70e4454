//! Default values, and conversions between Rust values and dynamic values.

use crate::dynamic::schema::{
    copy_value, fields_view, values_view, DynamicMessage, DynamicValue, FieldSchema, FieldType,
    FieldView, MessageView, SchemaView, TypeView, ValueView,
};
use crate::dynamic::validate::{
    acceptance_ignores_path, element_path, elements_violation, fields_accepted_one_by_one, joined, message_violation,
    narrow_violation, schemas_equal_reflexive, violation, wide_violation,
};
use crate::shared::share;
use vstd::prelude::*;

verus! {

/// The value of a field of type `t` that nobody has set.
pub open spec fn default_view(t: TypeView) -> ValueView
    decreases t, 0int,
{
    match t {
        TypeView::Bool => ValueView::Bool(false),
        TypeView::Int8 => ValueView::Int8(0),
        TypeView::Int16 => ValueView::Int16(0),
        TypeView::Int32 => ValueView::Int32(0),
        TypeView::Int64 => ValueView::Int64(0),
        TypeView::Uint8 => ValueView::Uint8(0),
        TypeView::Char => ValueView::Uint8(0),
        TypeView::Byte => ValueView::Uint8(0),
        TypeView::Uint16 => ValueView::Uint16(0),
        TypeView::WChar => ValueView::Uint16(0),
        TypeView::Uint32 => ValueView::Uint32(0),
        TypeView::Uint64 => ValueView::Uint64(0),
        TypeView::Float32 => ValueView::Float32(0),
        TypeView::Float64 => ValueView::Float64(0),
        TypeView::String => ValueView::String(Seq::empty()),
        TypeView::BoundedString(_) => ValueView::String(Seq::empty()),
        TypeView::WString => ValueView::String(Seq::empty()),
        TypeView::BoundedWString(_) => ValueView::String(Seq::empty()),
        TypeView::Message(s) => ValueView::Message(
            Box::new(MessageView { schema: *s, values: defaults_view(s.fields) }),
        ),
        TypeView::Array(e, n) => {
            let element = default_view(*e);
            ValueView::Array(Seq::new(n, |i: int| element))
        },
        TypeView::Sequence(_) => ValueView::Array(Seq::empty()),
        TypeView::BoundedSequence(_, _) => ValueView::Array(Seq::empty()),
    }
}

/// The value of field `f` that nobody has set: its declared default, or else
/// the default of its type.
pub open spec fn field_default(f: FieldView) -> ValueView
    decreases f, 0int,
{
    match f.default_value {
        Some(v) => v,
        None => default_view(f.field_type),
    }
}

/// The default of each field.
pub open spec fn defaults_view(fs: Seq<FieldView>) -> Seq<ValueView>
    decreases fs, 0int,
{
    Seq::new(
        fs.len(),
        |i: int|
            if 0 <= i < fs.len() {
                field_default(fs[i])
            } else {
                arbitrary()
            },
    )
}

/// The default of each of `fields`.
pub fn default_values(fields: &Vec<FieldSchema>) -> (r: Vec<DynamicValue>)
    ensures
        values_view(r@) == defaults_view(fields_view(fields@)),
    decreases fields, 0int,
{
    let mut r: Vec<DynamicValue> = Vec::new();
    let mut i: usize = 0;
    while i < fields.len()
        invariant
            i <= fields@.len(),
            r@.len() == i,
            forall|j: int|
                0 <= j < i ==> (#[trigger] r@[j])@ == field_default(fields@[j]@),
        decreases fields@.len() - i,
    {
        let f = &fields[i];
        assert(decreases_to!(fields => fields@));
        assert(decreases_to!(fields@ => fields@[i as int]));
        let v = default_of_field(f);
        r.push(v);
        i = i + 1;
    }
    let ghost fs = fields_view(fields@);
    assert forall|j: int| 0 <= j < r@.len() implies values_view(r@)[j] == defaults_view(
        fs,
    )[j] by {
        assert(r@[j]@ == field_default(fields@[j]@));
        assert(fs[j] == fields@[j]@);
    }
    assert(values_view(r@) =~= defaults_view(fs));
    r
}

/// The value of field `f` that nobody has set.
pub fn default_of_field(f: &FieldSchema) -> (r: DynamicValue)
    ensures
        r@ == field_default(f@),
    decreases f, 0int,
{
    match &f.default_value {
        Some(v) => copy_value(v),
        None => default_for_type(&f.field_type),
    }
}

/// The value of a field of type `t` that nobody has set.
pub fn default_for_type(t: &FieldType) -> (r: DynamicValue)
    ensures
        r@ == default_view(t@),
    decreases t, 0int,
{
    match t {
        FieldType::Bool => DynamicValue::Bool(false),
        FieldType::Int8 => DynamicValue::Int8(0),
        FieldType::Int16 => DynamicValue::Int16(0),
        FieldType::Int32 => DynamicValue::Int32(0),
        FieldType::Int64 => DynamicValue::Int64(0),
        FieldType::Uint8 => DynamicValue::Uint8(0),
        FieldType::Char => DynamicValue::Uint8(0),
        FieldType::Byte => DynamicValue::Uint8(0),
        FieldType::Uint16 => DynamicValue::Uint16(0),
        FieldType::WChar => DynamicValue::Uint16(0),
        FieldType::Uint32 => DynamicValue::Uint32(0),
        FieldType::Uint64 => DynamicValue::Uint64(0),
        FieldType::Float32 => DynamicValue::Float32(0),
        FieldType::Float64 => DynamicValue::Float64(0),
        FieldType::String => empty_text(),
        FieldType::BoundedString(_) => empty_text(),
        FieldType::WString => empty_text(),
        FieldType::BoundedWString(_) => empty_text(),
        FieldType::Message(s) => {
            assert(decreases_to!(t => *s));
            assert(decreases_to!(*s => s.fields));
            let values: Vec<DynamicValue> = default_values(&s.fields);
            let m = DynamicMessage { schema: share(s), values };
            assert(s@.fields == fields_view(s.fields@));
            assert(m@ == (MessageView { schema: s@, values: defaults_view(s@.fields) }));
            DynamicValue::Message(Box::new(m))
        },
        FieldType::Array(e, n) => {
            let mut vs: Vec<DynamicValue> = Vec::new();
            let mut i: usize = 0;
            let ghost element = default_view(e@);
            while i < *n
                invariant
                    i <= *n,
                    vs@.len() == i,
                    forall|j: int| 0 <= j < i ==> (#[trigger] vs@[j])@ == element,
                    element == default_view(e@),
                    decreases_to!(t => *e),
                decreases *n - i,
            {
                let v = default_for_type(&**e);
                vs.push(v);
                i = i + 1;
            }
            assert(values_view(vs@) =~= Seq::new(*n as nat, |i: int| element)) by {
                assert forall|j: int| 0 <= j < vs@.len() implies values_view(vs@)[j]
                    == element by {
                    assert(vs@[j]@ == element);
                }
            }
            DynamicValue::Array(vs)
        },
        FieldType::Sequence(_) => no_elements(),
        FieldType::BoundedSequence(_, _) => no_elements(),
    }
}

fn empty_text() -> (r: DynamicValue)
    ensures
        r@ == ValueView::String(Seq::empty()),
{
    let s: String = String::new();
    assert(s@ =~= Seq::<char>::empty());
    DynamicValue::String(s)
}

fn no_elements() -> (r: DynamicValue)
    ensures
        r@ == ValueView::Array(Seq::empty()),
{
    let vs: Vec<DynamicValue> = Vec::new();
    assert(values_view(vs@) =~= Seq::<ValueView>::empty());
    DynamicValue::Array(vs)
}

/// A Rust value that can be stored in a field.
pub trait IntoDynamic: Sized {
    /// The dynamic value that `self` becomes.
    spec fn as_dynamic(self) -> ValueView;

    fn into_dynamic(self) -> (r: DynamicValue)
        ensures
            r@ == self.as_dynamic(),
    ;
}

/// A Rust value that can be read from a field.
pub trait FromDynamic: Sized {
    /// Whether `v` holds a value of this type.
    spec fn readable(v: ValueView) -> bool;

    /// Whether `r` is the value that `v` holds.
    spec fn reads(v: ValueView, r: Self) -> bool;

    /// The name of this type.
    spec fn label() -> Seq<char>;

    fn from_dynamic(value: &DynamicValue) -> (r: Option<Self>)
        ensures
            match r {
                Some(x) => Self::readable(value@) && Self::reads(value@, x),
                None => !Self::readable(value@),
            },
    ;

    fn rust_name() -> (r: String)
        ensures
            r@ == Self::label(),
    ;
}

impl IntoDynamic for bool {
    open spec fn as_dynamic(self) -> ValueView {
        ValueView::Bool(self)
    }

    fn into_dynamic(self) -> (r: DynamicValue) {
        DynamicValue::Bool(self)
    }
}

impl FromDynamic for bool {
    open spec fn readable(v: ValueView) -> bool {
        v is Bool
    }

    open spec fn reads(v: ValueView, r: bool) -> bool {
        v == ValueView::Bool(r)
    }

    open spec fn label() -> Seq<char> {
        "bool"@
    }

    fn from_dynamic(value: &DynamicValue) -> (r: Option<bool>) {
        match value {
            DynamicValue::Bool(x) => Some(*x),
            _ => None,
        }
    }

    fn rust_name() -> (r: String) {
        "bool".to_owned()
    }
}

impl IntoDynamic for i8 {
    open spec fn as_dynamic(self) -> ValueView {
        ValueView::Int8(self)
    }

    fn into_dynamic(self) -> (r: DynamicValue) {
        DynamicValue::Int8(self)
    }
}

impl FromDynamic for i8 {
    open spec fn readable(v: ValueView) -> bool {
        v is Int8
    }

    open spec fn reads(v: ValueView, r: i8) -> bool {
        v == ValueView::Int8(r)
    }

    open spec fn label() -> Seq<char> {
        "i8"@
    }

    fn from_dynamic(value: &DynamicValue) -> (r: Option<i8>) {
        match value {
            DynamicValue::Int8(x) => Some(*x),
            _ => None,
        }
    }

    fn rust_name() -> (r: String) {
        "i8".to_owned()
    }
}

impl IntoDynamic for i16 {
    open spec fn as_dynamic(self) -> ValueView {
        ValueView::Int16(self)
    }

    fn into_dynamic(self) -> (r: DynamicValue) {
        DynamicValue::Int16(self)
    }
}

impl FromDynamic for i16 {
    open spec fn readable(v: ValueView) -> bool {
        v is Int16
    }

    open spec fn reads(v: ValueView, r: i16) -> bool {
        v == ValueView::Int16(r)
    }

    open spec fn label() -> Seq<char> {
        "i16"@
    }

    fn from_dynamic(value: &DynamicValue) -> (r: Option<i16>) {
        match value {
            DynamicValue::Int16(x) => Some(*x),
            _ => None,
        }
    }

    fn rust_name() -> (r: String) {
        "i16".to_owned()
    }
}

impl IntoDynamic for i32 {
    open spec fn as_dynamic(self) -> ValueView {
        ValueView::Int32(self)
    }

    fn into_dynamic(self) -> (r: DynamicValue) {
        DynamicValue::Int32(self)
    }
}

impl FromDynamic for i32 {
    open spec fn readable(v: ValueView) -> bool {
        v is Int32
    }

    open spec fn reads(v: ValueView, r: i32) -> bool {
        v == ValueView::Int32(r)
    }

    open spec fn label() -> Seq<char> {
        "i32"@
    }

    fn from_dynamic(value: &DynamicValue) -> (r: Option<i32>) {
        match value {
            DynamicValue::Int32(x) => Some(*x),
            _ => None,
        }
    }

    fn rust_name() -> (r: String) {
        "i32".to_owned()
    }
}

impl IntoDynamic for i64 {
    open spec fn as_dynamic(self) -> ValueView {
        ValueView::Int64(self)
    }

    fn into_dynamic(self) -> (r: DynamicValue) {
        DynamicValue::Int64(self)
    }
}

impl FromDynamic for i64 {
    open spec fn readable(v: ValueView) -> bool {
        v is Int64
    }

    open spec fn reads(v: ValueView, r: i64) -> bool {
        v == ValueView::Int64(r)
    }

    open spec fn label() -> Seq<char> {
        "i64"@
    }

    fn from_dynamic(value: &DynamicValue) -> (r: Option<i64>) {
        match value {
            DynamicValue::Int64(x) => Some(*x),
            _ => None,
        }
    }

    fn rust_name() -> (r: String) {
        "i64".to_owned()
    }
}

impl IntoDynamic for u8 {
    open spec fn as_dynamic(self) -> ValueView {
        ValueView::Uint8(self)
    }

    fn into_dynamic(self) -> (r: DynamicValue) {
        DynamicValue::Uint8(self)
    }
}

impl FromDynamic for u8 {
    open spec fn readable(v: ValueView) -> bool {
        v is Uint8
    }

    open spec fn reads(v: ValueView, r: u8) -> bool {
        v == ValueView::Uint8(r)
    }

    open spec fn label() -> Seq<char> {
        "u8"@
    }

    fn from_dynamic(value: &DynamicValue) -> (r: Option<u8>) {
        match value {
            DynamicValue::Uint8(x) => Some(*x),
            _ => None,
        }
    }

    fn rust_name() -> (r: String) {
        "u8".to_owned()
    }
}

impl IntoDynamic for u16 {
    open spec fn as_dynamic(self) -> ValueView {
        ValueView::Uint16(self)
    }

    fn into_dynamic(self) -> (r: DynamicValue) {
        DynamicValue::Uint16(self)
    }
}

impl FromDynamic for u16 {
    open spec fn readable(v: ValueView) -> bool {
        v is Uint16
    }

    open spec fn reads(v: ValueView, r: u16) -> bool {
        v == ValueView::Uint16(r)
    }

    open spec fn label() -> Seq<char> {
        "u16"@
    }

    fn from_dynamic(value: &DynamicValue) -> (r: Option<u16>) {
        match value {
            DynamicValue::Uint16(x) => Some(*x),
            _ => None,
        }
    }

    fn rust_name() -> (r: String) {
        "u16".to_owned()
    }
}

impl IntoDynamic for u32 {
    open spec fn as_dynamic(self) -> ValueView {
        ValueView::Uint32(self)
    }

    fn into_dynamic(self) -> (r: DynamicValue) {
        DynamicValue::Uint32(self)
    }
}

impl FromDynamic for u32 {
    open spec fn readable(v: ValueView) -> bool {
        v is Uint32
    }

    open spec fn reads(v: ValueView, r: u32) -> bool {
        v == ValueView::Uint32(r)
    }

    open spec fn label() -> Seq<char> {
        "u32"@
    }

    fn from_dynamic(value: &DynamicValue) -> (r: Option<u32>) {
        match value {
            DynamicValue::Uint32(x) => Some(*x),
            _ => None,
        }
    }

    fn rust_name() -> (r: String) {
        "u32".to_owned()
    }
}

impl IntoDynamic for u64 {
    open spec fn as_dynamic(self) -> ValueView {
        ValueView::Uint64(self)
    }

    fn into_dynamic(self) -> (r: DynamicValue) {
        DynamicValue::Uint64(self)
    }
}

impl FromDynamic for u64 {
    open spec fn readable(v: ValueView) -> bool {
        v is Uint64
    }

    open spec fn reads(v: ValueView, r: u64) -> bool {
        v == ValueView::Uint64(r)
    }

    open spec fn label() -> Seq<char> {
        "u64"@
    }

    fn from_dynamic(value: &DynamicValue) -> (r: Option<u64>) {
        match value {
            DynamicValue::Uint64(x) => Some(*x),
            _ => None,
        }
    }

    fn rust_name() -> (r: String) {
        "u64".to_owned()
    }
}

impl IntoDynamic for String {
    open spec fn as_dynamic(self) -> ValueView {
        ValueView::String(self@)
    }

    fn into_dynamic(self) -> (r: DynamicValue) {
        DynamicValue::String(self)
    }
}

impl<'a> IntoDynamic for &'a str {
    open spec fn as_dynamic(self) -> ValueView {
        ValueView::String(self@)
    }

    fn into_dynamic(self) -> (r: DynamicValue) {
        DynamicValue::String(self.to_owned())
    }
}

impl FromDynamic for String {
    open spec fn readable(v: ValueView) -> bool {
        v is String
    }

    open spec fn reads(v: ValueView, r: String) -> bool {
        v == ValueView::String(r@)
    }

    open spec fn label() -> Seq<char> {
        "alloc::string::String"@
    }

    fn from_dynamic(value: &DynamicValue) -> (r: Option<String>) {
        match value {
            DynamicValue::String(x) => Some(x.clone()),
            _ => None,
        }
    }

    fn rust_name() -> (r: String) {
        "alloc::string::String".to_owned()
    }
}

impl IntoDynamic for DynamicValue {
    open spec fn as_dynamic(self) -> ValueView {
        self@
    }

    fn into_dynamic(self) -> (r: DynamicValue) {
        self
    }
}

/// Whether every declared default inside type `t` is a value of its field's
/// type.
pub open spec fn defaults_fit(t: TypeView) -> bool
    decreases t, 0nat,
{
    match t {
        TypeView::Message(s) => field_defaults_fit(s.fields, s.fields.len()),
        TypeView::Array(e, _) => defaults_fit(*e),
        _ => true,
    }
}

/// Whether the declared defaults of the first `n` fields, and all those inside
/// the types of the others among them, fit.
pub open spec fn field_defaults_fit(fs: Seq<FieldView>, n: nat) -> bool
    decreases fs, n,
{
    if n == 0 || n > fs.len() {
        true
    } else {
        &&& field_defaults_fit(fs, (n - 1) as nat)
        &&& match fs[n - 1].default_value {
            Some(v) => violation(fs[n - 1].field_type, v, Seq::empty()) is None,
            None => defaults_fit(fs[n - 1].field_type),
        }
    }
}

/// A default value is a value of its type.
pub proof fn defaults_are_accepted(t: TypeView, path: Seq<char>)
    requires
        defaults_fit(t),
    ensures
        violation(t, default_view(t), path) is None,
    decreases t, 0nat,
{
    match t {
        TypeView::Message(s) => {
            schemas_equal_reflexive(*s);
            message_defaults_are_accepted(*s, path);
            assert(violation(t, default_view(t), path) == message_violation(
                *s,
                MessageView { schema: *s, values: defaults_view(s.fields) },
                path,
            ));
        },
        TypeView::Array(e, n) => {
            let vs = default_view(t)->Array_0;
            assert(forall|i: int| 0 <= i < vs.len() ==> vs[i] == default_view(*e));
            element_defaults_are_accepted(*e, vs, path, 0);
        },
        TypeView::String => no_text_is_accepted(path),
        TypeView::BoundedString(_) => no_text_is_accepted(path),
        TypeView::WString => no_text_is_accepted(path),
        TypeView::BoundedWString(_) => no_text_is_accepted(path),
        _ => {},
    }
}

proof fn no_text_is_accepted(path: Seq<char>)
    ensures
        narrow_violation(Seq::empty(), path) is None,
        wide_violation(Seq::empty(), path) is None,
        vstd::utf8::encode_utf8(Seq::empty()).len() == 0,
        crate::dynamic::wide::utf16(Seq::empty()).len() == 0,
{
    assert(vstd::utf8::encode_utf8(Seq::<char>::empty()).len() == 0);
}

proof fn element_defaults_are_accepted(
    e: TypeView,
    vs: Seq<ValueView>,
    path: Seq<char>,
    i: nat,
)
    requires
        defaults_fit(e),
        forall|j: int| 0 <= j < vs.len() ==> vs[j] == default_view(e),
    ensures
        elements_violation(e, vs, path, i) is None,
    decreases e, vs.len() - i + 1,
{
    if i < vs.len() {
        defaults_are_accepted(e, element_path(path, i));
        element_defaults_are_accepted(e, vs, path, i + 1);
    }
}

/// A new message passes validation.
pub proof fn message_defaults_are_accepted(s: SchemaView, path: Seq<char>)
    requires
        field_defaults_fit(s.fields, s.fields.len()),
    ensures
        message_violation(
            s,
            MessageView { schema: s, values: defaults_view(s.fields) },
            path,
        ) is None,
    decreases s, 0nat,
{
    let vs = defaults_view(s.fields);
    assert forall|j: int| 0 <= j < vs.len() implies violation(
        s.fields[j].field_type,
        #[trigger] vs[j],
        joined(path, s.fields[j].name),
    ) is None by {
        field_default_is_accepted(
            s.fields,
            s.fields.len(),
            j,
            joined(path, s.fields[j].name),
        );
    }
    fields_accepted_one_by_one(s.fields, vs, path, 0);
}

proof fn field_default_is_accepted(fs: Seq<FieldView>, n: nat, j: int, path: Seq<char>)
    requires
        n <= fs.len(),
        0 <= j < n,
        field_defaults_fit(fs, n),
    ensures
        violation(fs[j].field_type, field_default(fs[j]), path) is None,
    decreases fs, n,
{
    if j < n - 1 {
        field_default_is_accepted(fs, (n - 1) as nat, j, path);
    } else {
        match fs[j].default_value {
            Some(v) => acceptance_ignores_path(fs[j].field_type, v, Seq::empty(), path),
            None => defaults_are_accepted(fs[j].field_type, path),
        }
    }
}

} // verus!
