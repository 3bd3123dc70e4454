//! What values mean: defaults, Rust values, and equality.

use crate::dynamic::acceptance::is_number;
use crate::dynamic::schema::{alike, MessageView, SchemaView, TypeView, ValueView};
use crate::dynamic::serialization::cdr::decoded;
use crate::dynamic::serialization::layout::{
    bytes_are_read_as_they_are, numbers_are_read_where_they_are_aligned,
};
use crate::dynamic::validate::violation;
use crate::dynamic::value::{default_view, defaults_view, field_default, FromDynamic, IntoDynamic};
use vstd::prelude::*;

verus! {

/// The default of a number is what zeros are read as.
pub proof fn numbers_are_zero_by_default(t: TypeView, big: bool, data: Seq<u8>)
    requires
        is_number(t),
        data.len() >= 8,
        forall|k: int| 0 <= k < data.len() ==> #[trigger] data[k] == 0,
    ensures
        decoded(t, big, data, 0) matches Ok((v, _)) && v == default_view(t),
{
    numbers_are_read_where_they_are_aligned(big, data, 0);
    bytes_are_read_as_they_are(big, data, 0);
}

/// The default of a string is empty, that of an array has the default of its
/// elements as often as its size says, and that of a sequence has no elements.
pub proof fn defaults_hold_as_little_as_they_may(e: TypeView, n: nat, k: int)
    ensures
        forall|t: TypeView|
            t is String || t is WString || t is BoundedString || t is BoundedWString ==> (
            #[trigger] default_view(t) matches ValueView::String(s) && s.len() == 0),
        default_view(TypeView::Array(Box::new(e), n)) matches ValueView::Array(vs) && {
            &&& vs.len() == n
            &&& 0 <= k < n ==> vs[k] == default_view(e)
        },
        default_view(TypeView::Sequence(Box::new(e))) matches ValueView::Array(vs) && vs.len() == 0,
        default_view(TypeView::BoundedSequence(Box::new(e), n)) matches ValueView::Array(vs)
            && vs.len() == 0,
{
}

/// The default of a message has its schema and, in each field, the default that is
/// declared there, or else that of the field's type.
pub proof fn messages_hold_the_declared_defaults(s: SchemaView, k: int)
    ensures
        default_view(TypeView::Message(Box::new(s))) matches ValueView::Message(m) && {
            &&& m.schema == s
            &&& m.values.len() == s.fields.len()
            &&& 0 <= k < s.fields.len() ==> m.values[k] == (match s.fields[k].default_value {
                Some(v) => v,
                None => default_view(s.fields[k].field_type),
            })
        },
{
    let values = defaults_view(s.fields);
    assert(default_view(TypeView::Message(Box::new(s))) == ValueView::Message(
        Box::new(MessageView { schema: s, values }),
    ));
    assert(values.len() == s.fields.len());
    if 0 <= k < s.fields.len() {
        assert(values[k] == field_default(s.fields[k]));
        assert(field_default(s.fields[k]) == match s.fields[k].default_value {
            Some(v) => v,
            None => default_view(s.fields[k].field_type),
        });
    }
}

/// Each Rust number can be stored in a field of its own type and is read back from
/// there.
pub proof fn rust_numbers_fit_their_fields(
    a: i8,
    b: i16,
    c: i32,
    d: i64,
    e: u8,
    f: u16,
    g: u32,
    h: u64,
    i: bool,
    path: Seq<char>,
)
    ensures
        violation(TypeView::Int8, a.as_dynamic(), path) is None && i8::reads(a.as_dynamic(), a),
        violation(TypeView::Int16, b.as_dynamic(), path) is None && i16::reads(b.as_dynamic(), b),
        violation(TypeView::Int32, c.as_dynamic(), path) is None && i32::reads(c.as_dynamic(), c),
        violation(TypeView::Int64, d.as_dynamic(), path) is None && i64::reads(d.as_dynamic(), d),
        violation(TypeView::Uint8, e.as_dynamic(), path) is None && u8::reads(e.as_dynamic(), e),
        violation(TypeView::Uint16, f.as_dynamic(), path) is None && u16::reads(f.as_dynamic(), f),
        violation(TypeView::Uint32, g.as_dynamic(), path) is None && u32::reads(g.as_dynamic(), g),
        violation(TypeView::Uint64, h.as_dynamic(), path) is None && u64::reads(h.as_dynamic(), h),
        violation(TypeView::Bool, i.as_dynamic(), path) is None && bool::reads(i.as_dynamic(), i),
        default_view(TypeView::Int8) == 0i8.as_dynamic(),
        default_view(TypeView::Int16) == 0i16.as_dynamic(),
        default_view(TypeView::Int32) == 0i32.as_dynamic(),
        default_view(TypeView::Int64) == 0i64.as_dynamic(),
        default_view(TypeView::Uint8) == 0u8.as_dynamic(),
        default_view(TypeView::Uint16) == 0u16.as_dynamic(),
        default_view(TypeView::Uint32) == 0u32.as_dynamic(),
        default_view(TypeView::Uint64) == 0u64.as_dynamic(),
        default_view(TypeView::Bool) == false.as_dynamic(),
{
}

/// A Rust value is read from a value just where the field of that type could hold
/// it, and then it is the one that would be stored as that value.
pub proof fn rust_values_are_read_from_their_fields(v: ValueView, path: Seq<char>)
    ensures
        i8::readable(v) <==> violation(TypeView::Int8, v, path) is None,
        i16::readable(v) <==> violation(TypeView::Int16, v, path) is None,
        i32::readable(v) <==> violation(TypeView::Int32, v, path) is None,
        i64::readable(v) <==> violation(TypeView::Int64, v, path) is None,
        u8::readable(v) <==> violation(TypeView::Uint8, v, path) is None,
        u16::readable(v) <==> violation(TypeView::Uint16, v, path) is None,
        u32::readable(v) <==> violation(TypeView::Uint32, v, path) is None,
        u64::readable(v) <==> violation(TypeView::Uint64, v, path) is None,
        bool::readable(v) <==> violation(TypeView::Bool, v, path) is None,
        forall|x: i8| #[trigger] i8::reads(v, x) ==> v == x.as_dynamic(),
        forall|x: i16| #[trigger] i16::reads(v, x) ==> v == x.as_dynamic(),
        forall|x: i32| #[trigger] i32::reads(v, x) ==> v == x.as_dynamic(),
        forall|x: i64| #[trigger] i64::reads(v, x) ==> v == x.as_dynamic(),
        forall|x: u8| #[trigger] u8::reads(v, x) ==> v == x.as_dynamic(),
        forall|x: u16| #[trigger] u16::reads(v, x) ==> v == x.as_dynamic(),
        forall|x: u32| #[trigger] u32::reads(v, x) ==> v == x.as_dynamic(),
        forall|x: u64| #[trigger] u64::reads(v, x) ==> v == x.as_dynamic(),
        forall|x: bool| #[trigger] bool::reads(v, x) ==> v == x.as_dynamic(),
{
}

/// A text is stored as it is and read back, from values that are texts only.
pub proof fn texts_are_stored_and_read(s: String, v: ValueView)
    ensures
        s.as_dynamic() == ValueView::String(s@),
        String::readable(s.as_dynamic()),
        String::readable(v) <==> v is String,
        String::reads(v, s) ==> v->String_0 == s@,
        String::reads(s.as_dynamic(), s),
{
}

/// The numbers of a type are shown by the name of the Rust type.
pub proof fn rust_types_have_their_names()
    ensures
        bool::label() == "bool"@,
        i8::label() == "i8"@,
        i16::label() == "i16"@,
        i32::label() == "i32"@,
        i64::label() == "i64"@,
        u8::label() == "u8"@,
        u16::label() == "u16"@,
        u32::label() == "u32"@,
        u64::label() == "u64"@,
        String::label() == "alloc::string::String"@,
{
}

/// The exponent and the fraction of a floating point number of four bytes.
pub open spec fn parts_of_single(x: u32) -> (int, int) {
    ((x as int) / 0x80_0000 % 0x100, (x as int) % 0x80_0000)
}

/// The exponent and the fraction of a floating point number of eight bytes.
pub open spec fn parts_of_double(x: u64) -> (int, int) {
    ((x as int) / 0x10_0000_0000_0000 % 0x800, (x as int) % 0x10_0000_0000_0000)
}

/// Floating point numbers are equal where they have the same bits, or where both
/// are zero whatever their signs; what has the greatest exponent and a fraction is
/// no number and equals nothing.
pub proof fn floats_are_equal_as_numbers(x: u32, y: u32, p: u64, q: u64)
    ensures
        ({
            let number = |z: u32| parts_of_single(z).0 < 0xff || parts_of_single(z).1 == 0;
            let zero = |z: u32| parts_of_single(z) == (0int, 0int);
            alike(ValueView::Float32(x), ValueView::Float32(y)) <==> number(x) && number(y) && (x
                == y || zero(x) && zero(y))
        }),
        ({
            let number = |z: u64| parts_of_double(z).0 < 0x7ff || parts_of_double(z).1 == 0;
            let zero = |z: u64| parts_of_double(z) == (0int, 0int);
            alike(ValueView::Float64(p), ValueView::Float64(q)) <==> number(p) && number(q) && (p
                == q || zero(p) && zero(q))
        }),
{
    single_bits(x);
    single_bits(y);
    double_bits(p);
    double_bits(q);
}

proof fn single_bits(x: u32)
    ensures
        x as nat % 0x8000_0000 > 0x7f80_0000 <==> !(parts_of_single(x).0 < 0xff || parts_of_single(
            x,
        ).1 == 0),
        x as nat % 0x8000_0000 == 0 <==> parts_of_single(x) == (0int, 0int),
{
    let low = x as int % 0x8000_0000;
    assert(low == parts_of_single(x).0 * 0x80_0000 + parts_of_single(x).1);
}

proof fn double_bits(x: u64)
    ensures
        x as nat % 0x8000_0000_0000_0000 > 0x7ff0_0000_0000_0000 <==> !(parts_of_double(x).0 < 0x7ff
            || parts_of_double(x).1 == 0),
        x as nat % 0x8000_0000_0000_0000 == 0 <==> parts_of_double(x) == (0int, 0int),
{
    let low = x as int % 0x8000_0000_0000_0000;
    assert(low == parts_of_double(x).0 * 0x10_0000_0000_0000 + parts_of_double(x).1);
}

/// Other values are equal where they are the same, and arrays where their elements
/// are, one by one; values of different kinds are not.
pub proof fn values_are_equal_part_by_part(
    v: ValueView,
    w: ValueView,
    xs: Seq<ValueView>,
    ys: Seq<ValueView>,
)
    ensures
        !(v is Float32 || v is Float64 || v is Message || v is Array) ==> (alike(v, w) <==> v == w),
        alike(ValueView::Array(xs), ValueView::Array(ys)) <==> xs.len() == ys.len() && forall|
            k: int,
        |
            0 <= k < xs.len() ==> alike(#[trigger] xs[k], ys[k]),
        v is Message && alike(v, w) ==> w is Message && v->Message_0.schema == w->Message_0.schema,
        v is Message && w is Message ==> (alike(v, w) <==> v->Message_0.schema
            == w->Message_0.schema && alike(
            ValueView::Array(v->Message_0.values),
            ValueView::Array(w->Message_0.values),
        )),
{
}

} // verus!
