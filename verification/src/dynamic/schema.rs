//! Message schemas, message values, and their mathematical models.
//!
//! A schema, a value and a message are modelled by [`SchemaView`],
//! [`ValueView`] and [`MessageView`], which replace strings and vectors by
//! sequences and drop boxes and reference counts.

use crate::dynamic::error::{DynamicError, ErrorView};
use crate::shared::{same_arc, share};
use crate::text::{same_text, split, split_text, texts};
use std::sync::Arc;
use vstd::prelude::*;

verus! {

/// The type of a field.
#[derive(Debug, PartialEq)]
pub enum FieldType {
    Bool,
    Int8,
    Int16,
    Int32,
    Int64,
    Uint8,
    /// An eight bit character.
    Char,
    /// A sixteen bit character.
    WChar,
    Byte,
    Uint16,
    Uint32,
    Uint64,
    Float32,
    Float64,
    String,
    /// A string of at most this many bytes.
    BoundedString(usize),
    WString,
    /// A wide string of at most this many UTF-16 code units.
    BoundedWString(usize),
    Message(Arc<MessageSchema>),
    /// A fixed number of elements.
    Array(Box<FieldType>, usize),
    Sequence(Box<FieldType>),
    /// A sequence of at most this many elements.
    BoundedSequence(Box<FieldType>, usize),
}

/// One field of a message type.
#[derive(Debug, PartialEq)]
pub struct FieldSchema {
    pub name: String,
    pub field_type: FieldType,
    pub default_value: Option<DynamicValue>,
}

/// A message type: its names and its fields, in wire order.
#[derive(Debug, PartialEq)]
pub struct MessageSchema {
    /// The full name, such as `geometry_msgs/msg/Twist`.
    pub full_name: String,
    pub package: String,
    pub name: String,
    pub fields: Vec<FieldSchema>,
    pub type_hash: Option<String>,
}

/// A value of a field. Floating point numbers are kept as their IEEE 754 bits.
#[derive(Debug)]
pub enum DynamicValue {
    Bool(bool),
    Int8(i8),
    Int16(i16),
    Int32(i32),
    Int64(i64),
    Uint8(u8),
    Uint16(u16),
    Uint32(u32),
    Uint64(u64),
    /// The bits of a 32 bit float.
    Float32(u32),
    /// The bits of a 64 bit float.
    Float64(u64),
    String(String),
    /// A sequence of bytes, kept in one piece.
    Bytes(Vec<u8>),
    Message(Box<DynamicMessage>),
    /// The elements of an array or a sequence.
    Array(Vec<DynamicValue>),
}

/// A message whose type is known only at run time: a schema, and one value for
/// each of its fields.
#[derive(Debug)]
pub struct DynamicMessage {
    pub schema: Arc<MessageSchema>,
    pub values: Vec<DynamicValue>,
}

/// Model of a [`FieldType`].
#[verifier::ext_equal]
pub enum TypeView {
    Bool,
    Int8,
    Int16,
    Int32,
    Int64,
    Uint8,
    Char,
    WChar,
    Byte,
    Uint16,
    Uint32,
    Uint64,
    Float32,
    Float64,
    String,
    BoundedString(nat),
    WString,
    BoundedWString(nat),
    Message(Box<SchemaView>),
    Array(Box<TypeView>, nat),
    Sequence(Box<TypeView>),
    BoundedSequence(Box<TypeView>, nat),
}

/// Model of a [`FieldSchema`].
#[verifier::ext_equal]
pub struct FieldView {
    pub name: Seq<char>,
    pub field_type: TypeView,
    pub default_value: Option<ValueView>,
}

/// Model of a [`MessageSchema`].
#[verifier::ext_equal]
pub struct SchemaView {
    pub full_name: Seq<char>,
    pub package: Seq<char>,
    pub name: Seq<char>,
    pub fields: Seq<FieldView>,
    pub type_hash: Option<Seq<char>>,
}

/// Model of a [`DynamicValue`].
#[verifier::ext_equal]
pub enum ValueView {
    Bool(bool),
    Int8(i8),
    Int16(i16),
    Int32(i32),
    Int64(i64),
    Uint8(u8),
    Uint16(u16),
    Uint32(u32),
    Uint64(u64),
    Float32(u32),
    Float64(u64),
    String(Seq<char>),
    Bytes(Seq<u8>),
    Message(Box<MessageView>),
    Array(Seq<ValueView>),
}

/// Model of a [`DynamicMessage`].
#[verifier::ext_equal]
pub struct MessageView {
    pub schema: SchemaView,
    pub values: Seq<ValueView>,
}

pub open spec fn type_view(t: FieldType) -> TypeView
    decreases t,
{
    match t {
        FieldType::Bool => TypeView::Bool,
        FieldType::Int8 => TypeView::Int8,
        FieldType::Int16 => TypeView::Int16,
        FieldType::Int32 => TypeView::Int32,
        FieldType::Int64 => TypeView::Int64,
        FieldType::Uint8 => TypeView::Uint8,
        FieldType::Char => TypeView::Char,
        FieldType::WChar => TypeView::WChar,
        FieldType::Byte => TypeView::Byte,
        FieldType::Uint16 => TypeView::Uint16,
        FieldType::Uint32 => TypeView::Uint32,
        FieldType::Uint64 => TypeView::Uint64,
        FieldType::Float32 => TypeView::Float32,
        FieldType::Float64 => TypeView::Float64,
        FieldType::String => TypeView::String,
        FieldType::BoundedString(n) => TypeView::BoundedString(n as nat),
        FieldType::WString => TypeView::WString,
        FieldType::BoundedWString(n) => TypeView::BoundedWString(n as nat),
        FieldType::Message(s) => TypeView::Message(Box::new(schema_view(*s))),
        FieldType::Array(e, n) => TypeView::Array(Box::new(type_view(*e)), n as nat),
        FieldType::Sequence(e) => TypeView::Sequence(Box::new(type_view(*e))),
        FieldType::BoundedSequence(e, n) => {
            TypeView::BoundedSequence(Box::new(type_view(*e)), n as nat)
        },
    }
}

pub open spec fn field_view(f: FieldSchema) -> FieldView
    decreases f,
{
    FieldView {
        name: f.name@,
        field_type: type_view(f.field_type),
        default_value: match f.default_value {
            Some(v) => Some(value_view(v)),
            None => None,
        },
    }
}

pub open spec fn fields_view(fs: Seq<FieldSchema>) -> Seq<FieldView>
    decreases fs,
{
    Seq::new(
        fs.len(),
        |i: int|
            if 0 <= i < fs.len() {
                field_view(fs[i])
            } else {
                arbitrary()
            },
    )
}

pub open spec fn schema_view(s: MessageSchema) -> SchemaView
    decreases s,
{
    SchemaView {
        full_name: s.full_name@,
        package: s.package@,
        name: s.name@,
        fields: fields_view(s.fields@),
        type_hash: match s.type_hash {
            Some(h) => Some(h@),
            None => None,
        },
    }
}

pub open spec fn value_view(v: DynamicValue) -> ValueView
    decreases v,
{
    match v {
        DynamicValue::Bool(x) => ValueView::Bool(x),
        DynamicValue::Int8(x) => ValueView::Int8(x),
        DynamicValue::Int16(x) => ValueView::Int16(x),
        DynamicValue::Int32(x) => ValueView::Int32(x),
        DynamicValue::Int64(x) => ValueView::Int64(x),
        DynamicValue::Uint8(x) => ValueView::Uint8(x),
        DynamicValue::Uint16(x) => ValueView::Uint16(x),
        DynamicValue::Uint32(x) => ValueView::Uint32(x),
        DynamicValue::Uint64(x) => ValueView::Uint64(x),
        DynamicValue::Float32(x) => ValueView::Float32(x),
        DynamicValue::Float64(x) => ValueView::Float64(x),
        DynamicValue::String(x) => ValueView::String(x@),
        DynamicValue::Bytes(x) => ValueView::Bytes(x@),
        DynamicValue::Message(m) => ValueView::Message(Box::new(message_view(*m))),
        DynamicValue::Array(vs) => ValueView::Array(values_view(vs@)),
    }
}

pub open spec fn values_view(vs: Seq<DynamicValue>) -> Seq<ValueView>
    decreases vs,
{
    Seq::new(
        vs.len(),
        |i: int|
            if 0 <= i < vs.len() {
                value_view(vs[i])
            } else {
                arbitrary()
            },
    )
}

pub open spec fn message_view(m: DynamicMessage) -> MessageView
    decreases m,
{
    MessageView { schema: schema_view(*m.schema), values: values_view(m.values@) }
}

impl View for FieldType {
    type V = TypeView;

    open spec fn view(&self) -> TypeView {
        type_view(*self)
    }
}

impl View for FieldSchema {
    type V = FieldView;

    open spec fn view(&self) -> FieldView {
        field_view(*self)
    }
}

impl View for MessageSchema {
    type V = SchemaView;

    open spec fn view(&self) -> SchemaView {
        schema_view(*self)
    }
}

impl View for DynamicValue {
    type V = ValueView;

    open spec fn view(&self) -> ValueView {
        value_view(*self)
    }
}

impl View for DynamicMessage {
    type V = MessageView;

    open spec fn view(&self) -> MessageView {
        message_view(*self)
    }
}

impl Clone for FieldType {
    fn clone(&self) -> (r: Self)
        ensures
            r@ == self@,
        decreases self,
    {
        match self {
            FieldType::Bool => FieldType::Bool,
            FieldType::Int8 => FieldType::Int8,
            FieldType::Int16 => FieldType::Int16,
            FieldType::Int32 => FieldType::Int32,
            FieldType::Int64 => FieldType::Int64,
            FieldType::Uint8 => FieldType::Uint8,
            FieldType::Char => FieldType::Char,
            FieldType::WChar => FieldType::WChar,
            FieldType::Byte => FieldType::Byte,
            FieldType::Uint16 => FieldType::Uint16,
            FieldType::Uint32 => FieldType::Uint32,
            FieldType::Uint64 => FieldType::Uint64,
            FieldType::Float32 => FieldType::Float32,
            FieldType::Float64 => FieldType::Float64,
            FieldType::String => FieldType::String,
            FieldType::BoundedString(n) => FieldType::BoundedString(*n),
            FieldType::WString => FieldType::WString,
            FieldType::BoundedWString(n) => FieldType::BoundedWString(*n),
            FieldType::Message(s) => FieldType::Message(share(s)),
            FieldType::Array(e, n) => FieldType::Array(Box::new((&**e).clone()), *n),
            FieldType::Sequence(e) => FieldType::Sequence(Box::new((&**e).clone())),
            FieldType::BoundedSequence(e, n) => {
                FieldType::BoundedSequence(Box::new((&**e).clone()), *n)
            },
        }
    }
}

/// Copies a vector of bytes.
fn copy_bytes(bytes: &Vec<u8>) -> (r: Vec<u8>)
    ensures
        r@ == bytes@,
{
    let mut r: Vec<u8> = Vec::new();
    r.extend_from_slice(bytes.as_slice());
    assert(r@ =~= bytes@);
    r
}

/// Copies each value of `vs`.
pub fn copy_values(vs: &Vec<DynamicValue>) -> (r: Vec<DynamicValue>)
    ensures
        values_view(r@) == values_view(vs@),
    decreases vs,
{
    let mut r: Vec<DynamicValue> = Vec::new();
    let mut i: usize = 0;
    while i < vs.len()
        invariant
            i <= vs@.len(),
            r@.len() == i,
            forall|j: int| 0 <= j < i ==> (#[trigger] r@[j])@ == vs@[j]@,
        decreases vs@.len() - i,
    {
        let v = copy_value(&vs[i]);
        r.push(v);
        i = i + 1;
    }
    assert(values_view(r@) =~= values_view(vs@)) by {
        assert forall|j: int| 0 <= j < r@.len() implies values_view(r@)[j] == values_view(vs@)[j] by {
            assert(r@[j]@ == vs@[j]@);
        }
    }
    r
}

/// Copies a message; the copy shares the schema.
pub fn copy_message(m: &DynamicMessage) -> (r: DynamicMessage)
    ensures
        r@ == m@,
        r.schema == m.schema,
    decreases m,
{
    DynamicMessage { schema: share(&m.schema), values: copy_values(&m.values) }
}

/// Copies a value.
pub fn copy_value(v: &DynamicValue) -> (r: DynamicValue)
    ensures
        r@ == v@,
    decreases v,
{
    match v {
        DynamicValue::Bool(x) => DynamicValue::Bool(*x),
        DynamicValue::Int8(x) => DynamicValue::Int8(*x),
        DynamicValue::Int16(x) => DynamicValue::Int16(*x),
        DynamicValue::Int32(x) => DynamicValue::Int32(*x),
        DynamicValue::Int64(x) => DynamicValue::Int64(*x),
        DynamicValue::Uint8(x) => DynamicValue::Uint8(*x),
        DynamicValue::Uint16(x) => DynamicValue::Uint16(*x),
        DynamicValue::Uint32(x) => DynamicValue::Uint32(*x),
        DynamicValue::Uint64(x) => DynamicValue::Uint64(*x),
        DynamicValue::Float32(x) => DynamicValue::Float32(*x),
        DynamicValue::Float64(x) => DynamicValue::Float64(*x),
        DynamicValue::String(x) => DynamicValue::String(x.clone()),
        DynamicValue::Bytes(x) => DynamicValue::Bytes(copy_bytes(x)),
        DynamicValue::Message(m) => DynamicValue::Message(Box::new(copy_message(&**m))),
        DynamicValue::Array(vs) => DynamicValue::Array(copy_values(vs)),
    }
}

impl Clone for DynamicValue {
    fn clone(&self) -> (r: Self)
        ensures
            r@ == self@,
    {
        copy_value(self)
    }
}

impl Clone for DynamicMessage {
    fn clone(&self) -> (r: Self)
        ensures
            r@ == self@,
            r.schema == self.schema,
    {
        copy_message(self)
    }
}

/// Whether these are the bits of no number, where the sign is the bit `sign` and
/// `infinity` are the bits of infinity.
pub open spec fn not_a_number(x: nat, sign: nat, infinity: nat) -> bool {
    x % sign > infinity
}

/// Whether two floating point numbers of these bits are equal: what is no number
/// equals nothing, and both zeros are one.
pub open spec fn floats_equal(x: nat, y: nat, sign: nat, infinity: nat) -> bool {
    &&& !not_a_number(x, sign, infinity)
    &&& !not_a_number(y, sign, infinity)
    &&& x == y || x % sign == 0 && y % sign == 0
}

/// Whether two values are equal, schemas by what they hold.
pub open spec fn alike(a: ValueView, b: ValueView) -> bool
    decreases a,
{
    match (a, b) {
        (ValueView::Float32(x), ValueView::Float32(y)) => floats_equal(
            x as nat,
            y as nat,
            0x8000_0000,
            0x7f80_0000,
        ),
        (ValueView::Float64(x), ValueView::Float64(y)) => floats_equal(
            x as nat,
            y as nat,
            0x8000_0000_0000_0000,
            0x7ff0_0000_0000_0000,
        ),
        (ValueView::Message(m), ValueView::Message(n)) => {
            m.schema == n.schema && all_alike(m.values, n.values)
        },
        (ValueView::Array(xs), ValueView::Array(ys)) => all_alike(xs, ys),
        _ => a == b,
    }
}

/// Whether two lists of values are equal, one by one.
pub open spec fn all_alike(xs: Seq<ValueView>, ys: Seq<ValueView>) -> bool
    decreases xs,
{
    &&& xs.len() == ys.len()
    &&& forall|i: int| 0 <= i < xs.len() ==> alike(#[trigger] xs[i], ys[i])
}

/// Whether a value holds no messages.
pub open spec fn plain(v: ValueView) -> bool
    decreases v,
{
    match v {
        ValueView::Message(_) => false,
        ValueView::Array(vs) => all_plain(vs),
        _ => true,
    }
}

/// Whether no value of a list holds messages.
pub open spec fn all_plain(vs: Seq<ValueView>) -> bool
    decreases vs,
{
    forall|i: int| 0 <= i < vs.len() ==> plain(#[trigger] vs[i])
}

/// Whether comparing two values can give `r`: messages are equal if they share one
/// schema, which is asked for, and their values are equal.
pub closed spec fn compares(a: DynamicValue, b: DynamicValue, r: bool) -> bool
    decreases a,
{
    match (a, b) {
        (DynamicValue::Message(m), DynamicValue::Message(n)) => compares_messages(*m, *n, r),
        (DynamicValue::Array(xs), DynamicValue::Array(ys)) => compares_lists(xs@, ys@, r),
        _ => r == alike(a@, b@),
    }
}

/// Whether comparing two lists of values can give `r`.
pub closed spec fn compares_lists(
    xs: Seq<DynamicValue>,
    ys: Seq<DynamicValue>,
    r: bool,
) -> bool
    decreases xs,
{
    if xs.len() != ys.len() {
        !r
    } else if r {
        forall|i: int| 0 <= i < xs.len() ==> compares(#[trigger] xs[i], ys[i], true)
    } else {
        exists|i: int| 0 <= i < xs.len() && compares(#[trigger] xs[i], ys[i], false)
    }
}

/// Whether comparing two messages can give `r`.
pub closed spec fn compares_messages(a: DynamicMessage, b: DynamicMessage, r: bool) -> bool
    decreases a,
{
    exists|same: bool| #[trigger]
        call_ensures(same_arc::<MessageSchema>, (&a.schema, &b.schema), same) && (if same {
            compares_lists(a.values@, b.values@, r)
        } else {
            !r
        })
}

/// Whether two values are equal. Messages within them are equal if they share one
/// schema, which is more than to have equal ones.
pub fn values_equal(a: &DynamicValue, b: &DynamicValue) -> (r: bool)
    ensures
        compares(*a, *b, r),
        r ==> alike(a@, b@),
        plain(a@) ==> r == alike(a@, b@),
    decreases a,
{
    match (a, b) {
        (DynamicValue::Bool(x), DynamicValue::Bool(y)) => *x == *y,
        (DynamicValue::Int8(x), DynamicValue::Int8(y)) => *x == *y,
        (DynamicValue::Int16(x), DynamicValue::Int16(y)) => *x == *y,
        (DynamicValue::Int32(x), DynamicValue::Int32(y)) => *x == *y,
        (DynamicValue::Int64(x), DynamicValue::Int64(y)) => *x == *y,
        (DynamicValue::Uint8(x), DynamicValue::Uint8(y)) => *x == *y,
        (DynamicValue::Uint16(x), DynamicValue::Uint16(y)) => *x == *y,
        (DynamicValue::Uint32(x), DynamicValue::Uint32(y)) => *x == *y,
        (DynamicValue::Uint64(x), DynamicValue::Uint64(y)) => *x == *y,
        (DynamicValue::Float32(x), DynamicValue::Float32(y)) => {
            let (p, q): (u32, u32) = (*x % 0x8000_0000, *y % 0x8000_0000);
            p <= 0x7f80_0000 && q <= 0x7f80_0000 && (*x == *y || p == 0 && q == 0)
        },
        (DynamicValue::Float64(x), DynamicValue::Float64(y)) => {
            let (p, q): (u64, u64) = (*x % 0x8000_0000_0000_0000, *y % 0x8000_0000_0000_0000);
            p <= 0x7ff0_0000_0000_0000 && q <= 0x7ff0_0000_0000_0000 && (*x == *y || p == 0 && q
                == 0)
        },
        (DynamicValue::String(x), DynamicValue::String(y)) => same_text(x, y),
        (DynamicValue::Bytes(x), DynamicValue::Bytes(y)) => same_bytes(x, y),
        (DynamicValue::Message(m), DynamicValue::Message(n)) => messages_equal(&**m, &**n),
        (DynamicValue::Array(xs), DynamicValue::Array(ys)) => lists_equal(xs, ys),
        _ => false,
    }
}

fn same_bytes(a: &Vec<u8>, b: &Vec<u8>) -> (r: bool)
    ensures
        r == (a@ == b@),
{
    if a.len() != b.len() {
        return false;
    }
    let mut i: usize = 0;
    while i < a.len()
        invariant
            i <= a@.len(),
            a@.len() == b@.len(),
            forall|j: int| 0 <= j < i ==> a@[j] == b@[j],
        decreases a@.len() - i,
    {
        if a[i] != b[i] {
            return false;
        }
        i = i + 1;
    }
    assert(a@ =~= b@);
    true
}

fn lists_equal(xs: &Vec<DynamicValue>, ys: &Vec<DynamicValue>) -> (r: bool)
    ensures
        compares_lists(xs@, ys@, r),
        r ==> all_alike(values_view(xs@), values_view(ys@)),
        all_plain(values_view(xs@)) ==> r == all_alike(values_view(xs@), values_view(ys@)),
    decreases xs,
{
    if xs.len() != ys.len() {
        return false;
    }
    let ghost vs = values_view(xs@);
    let ghost ws = values_view(ys@);
    let mut i: usize = 0;
    while i < xs.len()
        invariant
            i <= xs@.len(),
            xs@.len() == ys@.len(),
            vs == values_view(xs@),
            ws == values_view(ys@),
            forall|j: int| 0 <= j < i ==> alike(#[trigger] vs[j], ws[j]),
            forall|j: int| 0 <= j < i ==> compares(#[trigger] xs@[j], ys@[j], true),
        decreases xs@.len() - i,
    {
        assert(vs[i as int] == xs@[i as int]@);
        assert(ws[i as int] == ys@[i as int]@);
        if !values_equal(&xs[i], &ys[i]) {
            return false;
        }
        i = i + 1;
    }
    true
}

/// Whether two messages share one schema and their values are equal. Whether they
/// share a schema is not visible in their models.
pub fn messages_equal(a: &DynamicMessage, b: &DynamicMessage) -> (r: bool)
    ensures
        compares_messages(*a, *b, r),
        r ==> a.schema == b.schema && all_alike(a@.values, b@.values),
    decreases a,
{
    let same: bool = same_arc(&a.schema, &b.schema);
    assert(call_ensures(same_arc::<MessageSchema>, (&a.schema, &b.schema), same));
    same && lists_equal(&a.values, &b.values)
}

impl PartialEq for DynamicValue {
    fn eq(&self, other: &Self) -> (r: bool) {
        values_equal(self, other)
    }
}

impl vstd::std_specs::cmp::PartialEqSpecImpl for DynamicValue {
    open spec fn obeys_eq_spec() -> bool {
        false
    }

    open spec fn eq_spec(&self, other: &Self) -> bool {
        alike(self@, other@)
    }
}

/// See [`messages_equal`].
impl PartialEq for DynamicMessage {
    fn eq(&self, other: &Self) -> (r: bool) {
        messages_equal(self, other)
    }
}

impl vstd::std_specs::cmp::PartialEqSpecImpl for DynamicMessage {
    open spec fn obeys_eq_spec() -> bool {
        false
    }

    open spec fn eq_spec(&self, other: &Self) -> bool {
        all_alike(self@.values, other@.values)
    }
}

/// Builds a schema field by field.
#[derive(Debug)]
pub struct MessageSchemaBuilder {
    pub full_name: String,
    pub fields: Vec<FieldSchema>,
}

impl MessageSchema {
    /// A builder of a schema named `pkg/msg/Name`.
    pub fn builder(full_name: &str) -> (r: MessageSchemaBuilder)
        ensures
            r.full_name@ == full_name@,
            r.fields@.len() == 0,
    {
        MessageSchemaBuilder { full_name: full_name.to_owned(), fields: Vec::new() }
    }
}

impl MessageSchemaBuilder {
    /// Adds a field without a declared default.
    pub fn field(self, name: &str, field_type: FieldType) -> (r: Self)
        ensures
            r.full_name == self.full_name,
            fields_view(r.fields@) == fields_view(self.fields@).push(
                FieldView { name: name@, field_type: field_type@, default_value: None },
            ),
    {
        let MessageSchemaBuilder { full_name, fields } = self;
        let mut fields = fields;
        let ghost before = fields@;
        fields.push(FieldSchema { name: name.to_owned(), field_type, default_value: None });
        assert(fields_view(fields@) =~= fields_view(before).push(fields@.last()@));
        MessageSchemaBuilder { full_name, fields }
    }

    /// Adds a field with a declared default.
    pub fn field_with_default(
        self,
        name: &str,
        field_type: FieldType,
        default_value: DynamicValue,
    ) -> (r: Self)
        ensures
            r.full_name == self.full_name,
            fields_view(r.fields@) == fields_view(self.fields@).push(
                FieldView {
                    name: name@,
                    field_type: field_type@,
                    default_value: Some(default_value@),
                },
            ),
    {
        let MessageSchemaBuilder { full_name, fields } = self;
        let mut fields = fields;
        let ghost before = fields@;
        fields.push(
            FieldSchema { name: name.to_owned(), field_type, default_value: Some(default_value) },
        );
        assert(fields_view(fields@) =~= fields_view(before).push(fields@.last()@));
        MessageSchemaBuilder { full_name, fields }
    }

    /// The schema, unless its name is not of the form `pkg/msg/Name`.
    pub fn build(self) -> (r: Result<Arc<MessageSchema>, DynamicError>)
        ensures
            ({
                let parts = split(self.full_name@, '/');
                match r {
                    Ok(s) => parts.len() == 3 && s@ == (SchemaView {
                        full_name: self.full_name@,
                        package: parts[0],
                        name: parts[2],
                        fields: fields_view(self.fields@),
                        type_hash: None,
                    }),
                    Err(e) => parts.len() != 3 && e@ == ErrorView::InvalidTypeName(
                        self.full_name@,
                    ),
                }
            }),
    {
        let parts: Vec<String> = split_text(&self.full_name, '/');
        assert(texts(parts@).len() == parts@.len());
        if parts.len() != 3 {
            return Err(DynamicError::InvalidTypeName(self.full_name));
        }
        assert(texts(parts@)[0] == parts@[0]@);
        assert(texts(parts@)[2] == parts@[2]@);
        Ok(
            Arc::new(
                MessageSchema {
                    full_name: self.full_name,
                    package: parts[0].clone(),
                    name: parts[2].clone(),
                    fields: self.fields,
                    type_hash: None,
                },
            ),
        )
    }
}

} // verus!
