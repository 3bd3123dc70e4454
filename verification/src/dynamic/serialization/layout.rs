//! What the bytes of an encoded message look like, byte by byte.

use crate::dynamic::error::ErrorView;
use crate::dynamic::schema::{FieldView, MessageView, SchemaView, TypeView, ValueView};
use crate::dynamic::serialization::cdr::{
    cdr_bytes, cdr_message, decoded, decoded_elements, decoded_fields, encoded, encoded_elements,
    encoded_fields, prefix_of, units_at, with_u32, with_units, Refusal,
};
use crate::dynamic::serialization::wire::{
    byte_ranges, bytes_value, gap, le_bytes, le_value, number_at, padded, written_number_reads_back,
};
use crate::dynamic::wide::{code_units_come_back, utf16, utf16_round_trip};
use vstd::prelude::*;
use vstd::utf8::{decode_utf8, encode_utf8, valid_utf8};

verus! {

/// The first multiple of `width` that is not before `pos`.
pub open spec fn aligned(pos: nat, width: int) -> int {
    (pos + width - 1) / width * width
}

/// The number that one, two, four or eight bytes of `b` write from `at` on, the
/// least significant byte first.
pub open spec fn ascending(b: Seq<u8>, at: int, width: int) -> int {
    if width == 1 {
        b[at] as int
    } else if width == 2 {
        b[at] + 0x100 * b[at + 1]
    } else if width == 4 {
        b[at] + 0x100 * b[at + 1] + 0x1_0000 * b[at + 2] + 0x100_0000 * b[at + 3]
    } else {
        b[at] + 0x100 * b[at + 1] + 0x1_0000 * b[at + 2] + 0x100_0000 * b[at + 3]
            + 0x1_0000_0000 * b[at + 4] + 0x100_0000_0000 * b[at + 5] + 0x1_0000_0000_0000 * b[at
            + 6] + 0x100_0000_0000_0000 * b[at + 7]
    }
}

/// The number that two, four or eight bytes of `b` write from `at` on, the most
/// significant byte first.
pub open spec fn descending(b: Seq<u8>, at: int, width: int) -> int {
    if width == 2 {
        0x100 * b[at] + b[at + 1]
    } else if width == 4 {
        0x100_0000 * b[at] + 0x1_0000 * b[at + 1] + 0x100 * b[at + 2] + b[at + 3]
    } else {
        0x100_0000_0000_0000 * b[at] + 0x1_0000_0000_0000 * b[at + 1] + 0x100_0000_0000 * b[at + 2]
            + 0x1_0000_0000 * b[at + 3] + 0x100_0000 * b[at + 4] + 0x1_0000 * b[at + 5] + 0x100
            * b[at + 6] + b[at + 7]
    }
}

/// Whether `r` is `out`, zeros up to a multiple of `width`, and `width` bytes that
/// write the number `n`.
pub open spec fn appends_number(
    r: Result<Seq<u8>, Refusal>,
    out: Seq<u8>,
    width: int,
    n: int,
) -> bool {
    let start = aligned(out.len(), width);
    &&& r matches Ok(b)
    &&& b.len() == start + width
    &&& start - out.len() < width
    &&& forall|k: int| 0 <= k < out.len() ==> #[trigger] b[k] == out[k]
    &&& forall|k: int| out.len() <= k < start ==> #[trigger] b[k] == 0
    &&& ascending(b, start, width) == n
}

/// The unsigned number of `bits` bits that stands for `x`: negative numbers come
/// after the others.
pub open spec fn unsigned(x: int, bits: int) -> int {
    if x >= 0 {
        x
    } else if bits == 8 {
        x + 0x100
    } else if bits == 16 {
        x + 0x1_0000
    } else if bits == 32 {
        x + 0x1_0000_0000
    } else {
        x + 0x1_0000_0000_0000_0000
    }
}

proof fn bytes_of_number(x: nat)
    ensures
        le_bytes(x, 2).len() == 2,
        le_bytes(x, 4).len() == 4,
        le_bytes(x, 8).len() == 8,
        x < 0x1_0000 ==> ascending(le_bytes(x, 2), 0, 2) == x,
        x < 0x1_0000_0000 ==> ascending(le_bytes(x, 4), 0, 4) == x,
        x < 0x1_0000_0000_0000_0000 ==> ascending(le_bytes(x, 8), 0, 8) == x,
{
    reveal_with_fuel(le_bytes, 9);
}

proof fn gap_reaches_alignment(pos: nat)
    ensures
        pos + gap(pos, 2) == aligned(pos, 2),
        pos + gap(pos, 4) == aligned(pos, 4),
        pos + gap(pos, 8) == aligned(pos, 8),
{
    assert((pos + 1) / 2 * 2 == if pos % 2 == 0 {
        pos as int
    } else {
        pos + (2 - pos % 2)
    });
    assert((pos + 3) / 4 * 4 == if pos % 4 == 0 {
        pos as int
    } else {
        pos + (4 - pos % 4)
    });
    assert((pos + 7) / 8 * 8 == if pos % 8 == 0 {
        pos as int
    } else {
        pos + (8 - pos % 8)
    });
}

proof fn number_appended(out: Seq<u8>, x: nat, width: nat)
    requires
        width == 2 && x < 0x1_0000 || width == 4 && x < 0x1_0000_0000 || width == 8 && x
            < 0x1_0000_0000_0000_0000,
    ensures
        appends_number(Ok(padded(out, width) + le_bytes(x, width)), out, width as int, x as int),
{
    bytes_of_number(x);
    let b = padded(out, width) + le_bytes(x, width);
    let start = aligned(out.len(), width as int);
    gap_reaches_alignment(out.len());
    assert(padded(out, width).len() == start);
    assert forall|k: int| 0 <= k < width implies b[start + k] == #[trigger] le_bytes(x, width)[k] by {
    }
    assert(b[start + 0] == le_bytes(x, width)[0]);
    assert(b[start + 1] == le_bytes(x, width)[1]);
}

/// A number is written at the next multiple of its size, least significant byte
/// first, after zeros, and what was there before stays. Negative numbers are
/// written in two's complement.
pub proof fn numbers_are_aligned_and_ascending(
    out: Seq<u8>,
    a: i16,
    b: u16,
    c: i32,
    d: u32,
    e: i64,
    f: u64,
)
    ensures
        appends_number(encoded(TypeView::Int16, ValueView::Int16(a), out), out, 2, unsigned(a as int, 16)),
        appends_number(encoded(TypeView::Uint16, ValueView::Uint16(b), out), out, 2, b as int),
        appends_number(encoded(TypeView::WChar, ValueView::Uint16(b), out), out, 2, b as int),
        appends_number(encoded(TypeView::Int32, ValueView::Int32(c), out), out, 4, unsigned(c as int, 32)),
        appends_number(encoded(TypeView::Uint32, ValueView::Uint32(d), out), out, 4, d as int),
        appends_number(encoded(TypeView::Float32, ValueView::Float32(d), out), out, 4, d as int),
        appends_number(encoded(TypeView::Int64, ValueView::Int64(e), out), out, 8, unsigned(e as int, 64)),
        appends_number(encoded(TypeView::Uint64, ValueView::Uint64(f), out), out, 8, f as int),
        appends_number(encoded(TypeView::Float64, ValueView::Float64(f), out), out, 8, f as int),
{
    assert(a < 0 ==> a as u16 == a + 0x1_0000) by (bit_vector);
    assert(c < 0 ==> c as u32 == c + 0x1_0000_0000) by (bit_vector);
    assert(e < 0 ==> e as u64 == e + 0x1_0000_0000_0000_0000) by (bit_vector);
    number_appended(out, a as u16 as nat, 2);
    number_appended(out, b as nat, 2);
    number_appended(out, c as u32 as nat, 4);
    number_appended(out, d as nat, 4);
    number_appended(out, e as u64 as nat, 8);
    number_appended(out, f as nat, 8);
}

/// A number of one byte is written as that byte, wherever the payload ends, and
/// truth as a byte of one.
pub proof fn bytes_are_written_as_they_are(out: Seq<u8>, a: i8, b: u8, c: bool)
    ensures
        appends_number(encoded(TypeView::Int8, ValueView::Int8(a), out), out, 1, unsigned(a as int, 8)),
        appends_number(encoded(TypeView::Uint8, ValueView::Uint8(b), out), out, 1, b as int),
        appends_number(encoded(TypeView::Char, ValueView::Uint8(b), out), out, 1, b as int),
        appends_number(encoded(TypeView::Byte, ValueView::Uint8(b), out), out, 1, b as int),
        appends_number(
            encoded(TypeView::Bool, ValueView::Bool(c), out),
            out,
            1,
            if c {
                1
            } else {
                0
            },
        ),
{
    assert(a < 0 ==> a as u8 == a + 0x100) by (bit_vector);
}

proof fn elements_of_longer(
    t: TypeView,
    vs: Seq<ValueView>,
    v: ValueView,
    n: nat,
    out: Seq<u8>,
)
    requires
        n <= vs.len(),
    ensures
        encoded_elements(t, vs.push(v), n, out) == encoded_elements(t, vs, n, out),
    decreases n,
{
    if n > 0 {
        elements_of_longer(t, vs, v, (n - 1) as nat, out);
    }
}

proof fn last_element(t: TypeView, vs: Seq<ValueView>, out: Seq<u8>)
    requires
        vs.len() > 0,
    ensures
        encoded_elements(t, vs, vs.len(), out) == match encoded_elements(
            t,
            vs,
            (vs.len() - 1) as nat,
            out,
        ) {
            Ok(b) => encoded(t, vs.last(), b),
            Err(why) => Err(why),
        },
{
}

/// A fixed-size array is written as its elements, one after the other, and nothing
/// else: without elements nothing is written, and one more element is written
/// behind what the others gave.
pub proof fn arrays_are_their_elements(
    e: TypeView,
    n: nat,
    m: nat,
    vs: Seq<ValueView>,
    v: ValueView,
    out: Seq<u8>,
)
    ensures
        encoded(
            TypeView::Array(Box::new(e), n),
            ValueView::Array(Seq::empty()),
            out,
        ) == Ok::<Seq<u8>, Refusal>(out),
        encoded(TypeView::Array(Box::new(e), n), ValueView::Array(vs.push(v)), out) == (match encoded(
            TypeView::Array(Box::new(e), m),
            ValueView::Array(vs),
            out,
        ) {
            Ok(b) => encoded(e, v, b),
            Err(why) => Err(why),
        }),
{
    elements_of_longer(e, vs, v, vs.len(), out);
    assert(vs.push(v)[vs.len() as int] == v);
    assert((vs.push(v).len() - 1) as nat == vs.len());
}

/// The number of four bytes that stands for `v`.
pub open spec fn four_bytes(e: TypeView, v: ValueView) -> Option<int> {
    match (e, v) {
        (TypeView::Int32, ValueView::Int32(x)) => Some(unsigned(x as int, 32)),
        (TypeView::Uint32, ValueView::Uint32(x)) => Some(x as int),
        (TypeView::Float32, ValueView::Float32(x)) => Some(x as int),
        _ => None,
    }
}

/// A fixed-size array of `n` numbers of four bytes takes `4 * n` bytes, of which
/// the `k`-th four write the `k`-th number.
pub proof fn arrays_of_numbers_take_their_size(e: TypeView, n: nat, vs: Seq<ValueView>, out: Seq<u8>)
    requires
        out.len() % 4 == 0,
        forall|k: int| 0 <= k < vs.len() ==> four_bytes(e, #[trigger] vs[k]) is Some,
    ensures
        encoded(TypeView::Array(Box::new(e), n), ValueView::Array(vs), out) matches Ok(b) && {
            &&& b.len() == out.len() + 4 * vs.len()
            &&& forall|k: int| 0 <= k < out.len() ==> #[trigger] b[k] == out[k]
            &&& forall|k: int|
                #![trigger vs[k]]
                0 <= k < vs.len() ==> four_bytes(e, vs[k]) == Some(
                    ascending(b, out.len() + 4 * k, 4),
                )
        },
    decreases vs.len(),
{
    if vs.len() > 0 {
        let before = vs.drop_last();
        let v = vs.last();
        arrays_of_numbers_take_their_size(e, n, before, out);
        arrays_are_their_elements(e, n, n, before, v, out);
        assert(before.push(v) =~= vs);
        let a = encoded(TypeView::Array(Box::new(e), n), ValueView::Array(before), out)->Ok_0;
        assert(four_bytes(e, v) is Some);
        four_bytes_appended(e, v, a);
        let b = encoded(e, v, a)->Ok_0;
        assert forall|k: int| 0 <= k < vs.len() implies four_bytes(e, #[trigger] vs[k]) == Some(
            ascending(b, out.len() + 4 * k, 4),
        ) by {
            if k < before.len() {
                assert(before[k] == vs[k]);
                let at = out.len() + 4 * k;
                assert(b[at] == a[at] && b[at + 1] == a[at + 1] && b[at + 2] == a[at + 2] && b[at
                    + 3] == a[at + 3]);
            }
        }
        assert forall|k: int| 0 <= k < out.len() implies #[trigger] b[k] == out[k] by {
            assert(b[k] == a[k]);
        }
    }
}

proof fn four_bytes_appended(e: TypeView, v: ValueView, out: Seq<u8>)
    requires
        out.len() % 4 == 0,
        four_bytes(e, v) is Some,
    ensures
        encoded(e, v, out) matches Ok(b) && {
            &&& b.len() == out.len() + 4
            &&& forall|k: int| 0 <= k < out.len() ==> #[trigger] b[k] == out[k]
            &&& four_bytes(e, v) == Some(ascending(b, out.len() as int, 4))
        },
{
    assert(aligned(out.len(), 4) == out.len());
    match v {
        ValueView::Int32(x) => {
            numbers_are_aligned_and_ascending(out, 0, 0, x, 0, 0, 0);
        },
        ValueView::Uint32(x) => {
            numbers_are_aligned_and_ascending(out, 0, 0, 0, x, 0, 0);
        },
        ValueView::Float32(x) => {
            numbers_are_aligned_and_ascending(out, 0, 0, 0, x, 0, 0);
        },
        _ => {},
    }
}

/// A sequence is written as a number of four bytes, how many elements it has, and
/// then as an array of these elements would be; a bound changes nothing.
pub proof fn sequences_are_a_count_and_an_array(
    e: TypeView,
    n: nat,
    max: nat,
    vs: Seq<ValueView>,
    out: Seq<u8>,
)
    requires
        vs.len() <= u32::MAX,
    ensures
        encoded(TypeView::Sequence(Box::new(e)), ValueView::Array(vs), out) == encoded(
            TypeView::Array(Box::new(e), n),
            ValueView::Array(vs),
            encoded(TypeView::Uint32, ValueView::Uint32(vs.len() as u32), out)->Ok_0,
        ),
        encoded(TypeView::BoundedSequence(Box::new(e), max), ValueView::Array(vs), out) == encoded(
            TypeView::Sequence(Box::new(e)),
            ValueView::Array(vs),
            out,
        ),
{
}

/// The values of the bytes `b`.
pub open spec fn byte_values(b: Seq<u8>) -> Seq<ValueView> {
    Seq::new(b.len(), |k: int| ValueView::Uint8(b[k]))
}

/// A string of bytes is written as the sequence of its bytes.
pub proof fn byte_strings_are_sequences_of_bytes(e: TypeView, b: Seq<u8>, out: Seq<u8>)
    requires
        e == TypeView::Uint8 || e == TypeView::Char || e == TypeView::Byte,
    ensures
        encoded(TypeView::Sequence(Box::new(e)), ValueView::Bytes(b), out) == encoded(
            TypeView::Sequence(Box::new(e)),
            ValueView::Array(byte_values(b)),
            out,
        ),
{
    bytes_behind(e, b, with_u32(out, prefix_of(b.len())));
}

proof fn bytes_behind(e: TypeView, b: Seq<u8>, out: Seq<u8>)
    requires
        e == TypeView::Uint8 || e == TypeView::Char || e == TypeView::Byte,
    ensures
        encoded_elements(e, byte_values(b), b.len(), out) == Ok::<
            Seq<u8>,
            Refusal,
        >(out + b),
    decreases b.len(),
{
    if b.len() == 0 {
        assert(out + b =~= out);
    } else {
        let before = b.drop_last();
        bytes_behind(e, before, out);
        assert(byte_values(b) =~= byte_values(before).push(ValueView::Uint8(b.last())));
        elements_of_longer(e, byte_values(before), ValueView::Uint8(b.last()), before.len(), out);
        last_element(e, byte_values(b), out);
        assert((out + before).push(b.last()) =~= out + b);
    }
}

/// A string is written as a number of four bytes, how many bytes follow, then its
/// UTF-8 bytes and a NUL; a bound changes nothing.
pub proof fn strings_end_with_nul(s: Seq<char>, max: nat, out: Seq<u8>)
    requires
        encode_utf8(s).len() < u32::MAX,
    ensures
        encoded(TypeView::String, ValueView::String(s), out) == encoded(
            TypeView::Sequence(Box::new(TypeView::Uint8)),
            ValueView::Bytes(encode_utf8(s).push(0)),
            out,
        ),
        encoded(TypeView::BoundedString(max), ValueView::String(s), out) == encoded(
            TypeView::String,
            ValueView::String(s),
            out,
        ),
{
    let n = prefix_of(encode_utf8(s).len() + 1);
    assert(with_u32(out, n) + encode_utf8(s) + seq![0u8] =~= with_u32(out, n) + encode_utf8(s).push(
        0,
    ));
}

/// The values of code units.
pub open spec fn unit_values(units: Seq<u16>) -> Seq<ValueView> {
    Seq::new(units.len(), |k: int| ValueView::Uint32(units[k] as u32))
}

/// A wide string is written as the sequence of its code units, each as a number of
/// four bytes, and is refused where they are more than its bound.
pub proof fn wide_strings_are_sequences_of_units(s: Seq<char>, max: nat, out: Seq<u8>)
    requires
        utf16(s).len() <= u32::MAX,
    ensures
        encoded(TypeView::WString, ValueView::String(s), out) == encoded(
            TypeView::Sequence(Box::new(TypeView::Uint32)),
            ValueView::Array(unit_values(utf16(s))),
            out,
        ),
        encoded(TypeView::BoundedWString(max), ValueView::String(s), out) == if utf16(s).len()
            <= max {
            encoded(TypeView::WString, ValueView::String(s), out)
        } else {
            Err(Refusal::Bound { max, actual: utf16(s).len() })
        },
{
    units_behind(utf16(s), with_u32(out, utf16(s).len()));
}

proof fn units_behind(units: Seq<u16>, out: Seq<u8>)
    ensures
        encoded_elements(
            TypeView::Uint32,
            unit_values(units),
            units.len(),
            out,
        ) == Ok::<Seq<u8>, Refusal>(with_units(out, units)),
    decreases units.len(),
{
    if units.len() > 0 {
        let v = ValueView::Uint32(units.last() as u32);
        let before = units.drop_last();
        units_behind(before, out);
        assert(unit_values(units) =~= unit_values(before).push(v));
        elements_of_longer(TypeView::Uint32, unit_values(before), v, before.len(), out);
        last_element(TypeView::Uint32, unit_values(units), out);
    }
}

/// Message `m` with one more field `f` of value `v`.
pub open spec fn with_field(m: MessageView, f: FieldView, v: ValueView) -> MessageView {
    MessageView {
        schema: SchemaView { fields: m.schema.fields.push(f), ..m.schema },
        values: m.values.push(v),
    }
}

proof fn fields_of_longer(
    fs: Seq<FieldView>,
    vs: Seq<ValueView>,
    f: FieldView,
    v: ValueView,
    n: nat,
    out: Seq<u8>,
)
    requires
        n <= vs.len(),
        n <= fs.len(),
    ensures
        encoded_fields(fs.push(f), vs, n, out) == encoded_fields(fs, vs, n, out),
        encoded_fields(fs, vs.push(v), n, out) == encoded_fields(fs, vs, n, out),
    decreases n,
{
    if n > 0 {
        fields_of_longer(fs, vs, f, v, (n - 1) as nat, out);
    }
}

/// A message is written as its fields in order, and nothing else: without fields
/// nothing is written, one more field is written as its type behind what the
/// others gave, and a field without a value or a value without a field is not
/// written.
pub proof fn messages_are_their_fields(
    s: SchemaView,
    m: MessageView,
    f: FieldView,
    v: ValueView,
    out: Seq<u8>,
)
    requires
        m.schema.fields.len() == m.values.len(),
    ensures
        m.values.len() == 0 ==> encoded(
            TypeView::Message(Box::new(s)),
            ValueView::Message(Box::new(m)),
            out,
        ) == Ok::<Seq<u8>, Refusal>(out),
        encoded(
            TypeView::Message(Box::new(s)),
            ValueView::Message(Box::new(with_field(m, f, v))),
            out,
        ) == (match encoded(
            TypeView::Message(Box::new(s)),
            ValueView::Message(Box::new(m)),
            out,
        ) {
            Ok(b) => encoded(f.field_type, v, b),
            Err(why) => Err(why),
        }),
        encoded(
            TypeView::Message(Box::new(s)),
            ValueView::Message(Box::new(MessageView { values: m.values.push(v), ..m })),
            out,
        ) == encoded(TypeView::Message(Box::new(s)), ValueView::Message(Box::new(m)), out),
        encoded(
            TypeView::Message(Box::new(s)),
            ValueView::Message(
                Box::new(
                    MessageView {
                        schema: SchemaView { fields: m.schema.fields.push(f), ..m.schema },
                        ..m
                    },
                ),
            ),
            out,
        ) == encoded(TypeView::Message(Box::new(s)), ValueView::Message(Box::new(m)), out),
{
    let n = m.values.len();
    let fs = m.schema.fields.push(f);
    let vs = m.values.push(v);
    fields_of_longer(m.schema.fields, m.values, f, v, n, out);
    fields_of_longer(m.schema.fields, vs, f, v, n, out);
    assert(encoded_fields(fs, vs, n + 1, out) == match encoded_fields(fs, vs, n, out) {
        Ok(b) => encoded(f.field_type, v, b),
        Err(why) => Err(why),
    }) by {
        assert(fs[n as int] == f && vs[n as int] == v);
        assert(((n + 1) - 1) as nat == n);
    }
}

/// The bytes of a message are the four bytes 0, 1, 0, 0 and what the message is
/// written as on an empty payload.
pub proof fn the_header_says_ascending(s: SchemaView, m: MessageView)
    ensures
        match encoded(
            TypeView::Message(Box::new(s)),
            ValueView::Message(Box::new(m)),
            Seq::empty(),
        ) {
            Ok(payload) => cdr_bytes(m) matches Ok(b) && {
                &&& b.len() == payload.len() + 4
                &&& b[0] == 0 && b[1] == 1 && b[2] == 0 && b[3] == 0
                &&& forall|k: int| 0 <= k < payload.len() ==> b[4 + k] == #[trigger] payload[k]
            },
            Err(why) => cdr_bytes(m) == Err::<Seq<u8>, Refusal>(why),
        },
{
}

/// The signed number of `bits` bits that the unsigned number `n` stands for.
pub open spec fn signed(n: int, bits: int) -> int {
    if bits == 8 {
        if n < 0x80 {
            n
        } else {
            n - 0x100
        }
    } else if bits == 16 {
        if n < 0x8000 {
            n
        } else {
            n - 0x1_0000
        }
    } else if bits == 32 {
        if n < 0x8000_0000 {
            n
        } else {
            n - 0x1_0000_0000
        }
    } else {
        if n < 0x8000_0000_0000_0000 {
            n
        } else {
            n - 0x1_0000_0000_0000_0000
        }
    }
}

/// The number that the `width` bytes from the next multiple of `width` on write,
/// and the position behind them.
pub open spec fn number_found(big: bool, data: Seq<u8>, pos: nat, width: int) -> Option<(int, nat)> {
    let start = aligned(pos, width);
    if start + width > data.len() {
        None
    } else if big {
        Some((descending(data, start, width), (start + width) as nat))
    } else {
        Some((ascending(data, start, width), (start + width) as nat))
    }
}

/// What is said of a payload that ends too early.
pub open spec fn cut_short() -> ErrorView {
    ErrorView::DeserializationError("unexpected end of CDR data"@)
}

proof fn value_of_bytes(b: Seq<u8>, big: bool)
    requires
        b.len() == 2 || b.len() == 4 || b.len() == 8,
    ensures
        bytes_value(big, b) == if big {
            descending(b, 0, b.len() as int)
        } else {
            ascending(b, 0, b.len() as int)
        },
        bytes_value(big, b) < if b.len() == 2 {
            0x1_0000int
        } else if b.len() == 4 {
            0x1_0000_0000int
        } else {
            0x1_0000_0000_0000_0000int
        },
{
    reveal_with_fuel(le_value, 9);
    let c = if big {
        b.reverse()
    } else {
        b
    };
    if b.len() == 8 {
        assert(c.skip(1).skip(1).skip(1).skip(1)[0] == c[4]);
        assert(c.skip(1).skip(1).skip(1).skip(1).skip(1)[0] == c[5]);
        assert(c.skip(1).skip(1).skip(1).skip(1).skip(1).skip(1)[0] == c[6]);
        assert(c.skip(1).skip(1).skip(1).skip(1).skip(1).skip(1).skip(1)[0] == c[7]);
    }
}

proof fn number_is_found(big: bool, data: Seq<u8>, pos: nat, width: nat)
    requires
        width == 2 || width == 4 || width == 8,
    ensures
        match number_found(big, data, pos, width as int) {
            Some((n, p)) => number_at(big, data, pos, width) == Some((n as nat, p)) && 0 <= n < (
            if width == 2 {
                0x1_0000int
            } else if width == 4 {
                0x1_0000_0000int
            } else {
                0x1_0000_0000_0000_0000int
            }),
            None => number_at(big, data, pos, width) is None,
        },
{
    gap_reaches_alignment(pos);
    let start = aligned(pos, width as int);
    if start + width <= data.len() {
        let b = data.subrange(start, start + width);
        value_of_bytes(b, big);
        assert forall|k: int| 0 <= k < width implies #[trigger] b[k] == data[start + k] by {
        }
    }
}

/// A number is read from the next multiple of its size on, in the byte order
/// given; negative numbers are in two's complement. Where it does not end within
/// the payload, that is the error.
pub proof fn numbers_are_read_where_they_are_aligned(big: bool, data: Seq<u8>, pos: nat)
    ensures
        match number_found(big, data, pos, 2) {
            Some((n, p)) => {
                &&& decoded(TypeView::Int16, big, data, pos) == Ok::<(ValueView, nat), ErrorView>(
                    (ValueView::Int16(signed(n, 16) as i16), p),
                )
                &&& decoded(TypeView::Uint16, big, data, pos) == Ok::<(ValueView, nat), ErrorView>(
                    (ValueView::Uint16(n as u16), p),
                )
                &&& decoded(TypeView::WChar, big, data, pos) == Ok::<(ValueView, nat), ErrorView>(
                    (ValueView::Uint16(n as u16), p),
                )
                &&& 0 <= n <= u16::MAX
            },
            None => {
                &&& decoded(TypeView::Int16, big, data, pos) == Err::<(ValueView, nat), ErrorView>(
                    cut_short(),
                )
                &&& decoded(TypeView::Uint16, big, data, pos) == Err::<(ValueView, nat), ErrorView>(
                    cut_short(),
                )
                &&& decoded(TypeView::WChar, big, data, pos) == Err::<(ValueView, nat), ErrorView>(
                    cut_short(),
                )
            },
        },
        match number_found(big, data, pos, 4) {
            Some((n, p)) => {
                &&& decoded(TypeView::Int32, big, data, pos) == Ok::<(ValueView, nat), ErrorView>(
                    (ValueView::Int32(signed(n, 32) as i32), p),
                )
                &&& decoded(TypeView::Uint32, big, data, pos) == Ok::<(ValueView, nat), ErrorView>(
                    (ValueView::Uint32(n as u32), p),
                )
                &&& decoded(TypeView::Float32, big, data, pos) == Ok::<(ValueView, nat), ErrorView>(
                    (ValueView::Float32(n as u32), p),
                )
                &&& 0 <= n <= u32::MAX
            },
            None => {
                &&& decoded(TypeView::Int32, big, data, pos) == Err::<(ValueView, nat), ErrorView>(
                    cut_short(),
                )
                &&& decoded(TypeView::Uint32, big, data, pos) == Err::<(ValueView, nat), ErrorView>(
                    cut_short(),
                )
                &&& decoded(TypeView::Float32, big, data, pos) == Err::<
                    (ValueView, nat),
                    ErrorView,
                >(cut_short())
            },
        },
        match number_found(big, data, pos, 8) {
            Some((n, p)) => {
                &&& decoded(TypeView::Int64, big, data, pos) == Ok::<(ValueView, nat), ErrorView>(
                    (ValueView::Int64(signed(n, 64) as i64), p),
                )
                &&& decoded(TypeView::Uint64, big, data, pos) == Ok::<(ValueView, nat), ErrorView>(
                    (ValueView::Uint64(n as u64), p),
                )
                &&& decoded(TypeView::Float64, big, data, pos) == Ok::<(ValueView, nat), ErrorView>(
                    (ValueView::Float64(n as u64), p),
                )
                &&& 0 <= n <= u64::MAX
            },
            None => {
                &&& decoded(TypeView::Int64, big, data, pos) == Err::<(ValueView, nat), ErrorView>(
                    cut_short(),
                )
                &&& decoded(TypeView::Uint64, big, data, pos) == Err::<(ValueView, nat), ErrorView>(
                    cut_short(),
                )
                &&& decoded(TypeView::Float64, big, data, pos) == Err::<
                    (ValueView, nat),
                    ErrorView,
                >(cut_short())
            },
        },
{
    number_is_found(big, data, pos, 2);
    number_is_found(big, data, pos, 4);
    number_is_found(big, data, pos, 8);
    assert forall|x: u16| #[trigger] (x as i16) == if x < 0x8000 {
        x as int
    } else {
        x - 0x1_0000
    } by {
        assert(x as i16 == if x < 0x8000 {
            x as int
        } else {
            x - 0x1_0000
        }) by (bit_vector);
    }
    assert forall|x: u32| #[trigger] (x as i32) == if x < 0x8000_0000 {
        x as int
    } else {
        x - 0x1_0000_0000
    } by {
        assert(x as i32 == if x < 0x8000_0000 {
            x as int
        } else {
            x - 0x1_0000_0000
        }) by (bit_vector);
    }
    assert forall|x: u64| #[trigger] (x as i64) == if x < 0x8000_0000_0000_0000 {
        x as int
    } else {
        x - 0x1_0000_0000_0000_0000
    } by {
        assert(x as i64 == if x < 0x8000_0000_0000_0000 {
            x as int
        } else {
            x - 0x1_0000_0000_0000_0000
        }) by (bit_vector);
    }
}

/// A number of one byte is that byte, and truth any byte but zero.
pub proof fn bytes_are_read_as_they_are(big: bool, data: Seq<u8>, pos: nat)
    ensures
        pos < data.len() ==> {
            let x = data[pos as int];
            &&& decoded(TypeView::Bool, big, data, pos) == Ok::<(ValueView, nat), ErrorView>(
                (ValueView::Bool(x > 0), pos + 1),
            )
            &&& decoded(TypeView::Int8, big, data, pos) == Ok::<(ValueView, nat), ErrorView>(
                (ValueView::Int8(signed(x as int, 8) as i8), pos + 1),
            )
            &&& decoded(TypeView::Uint8, big, data, pos) == Ok::<(ValueView, nat), ErrorView>(
                (ValueView::Uint8(x), pos + 1),
            )
            &&& decoded(TypeView::Char, big, data, pos) == Ok::<(ValueView, nat), ErrorView>(
                (ValueView::Uint8(x), pos + 1),
            )
            &&& decoded(TypeView::Byte, big, data, pos) == Ok::<(ValueView, nat), ErrorView>(
                (ValueView::Uint8(x), pos + 1),
            )
        },
        pos >= data.len() ==> forall|t: TypeView|
            t == TypeView::Bool || t == TypeView::Int8 || t == TypeView::Uint8 || t
                == TypeView::Char || t == TypeView::Byte ==> #[trigger] decoded(t, big, data, pos)
                == Err::<(ValueView, nat), ErrorView>(cut_short()),
{
    if pos < data.len() {
        let x = data[pos as int];
        assert(x as i8 == if x < 0x80 {
            x as int
        } else {
            x - 0x100
        }) by (bit_vector);
    }
}

/// The elements of a fixed-size array are read one after the other: none from
/// nothing, and one more from behind the others.
pub proof fn arrays_are_read_element_by_element(
    e: TypeView,
    n: nat,
    big: bool,
    data: Seq<u8>,
    pos: nat,
)
    ensures
        decoded(TypeView::Array(Box::new(e), 0), big, data, pos) == Ok::<(ValueView, nat), ErrorView>(
            (ValueView::Array(Seq::empty()), pos),
        ),
        match decoded(TypeView::Array(Box::new(e), n), big, data, pos) {
            Ok((v, p)) => v matches ValueView::Array(vs) && decoded(
                TypeView::Array(Box::new(e), n + 1),
                big,
                data,
                pos,
            ) == (match decoded(e, big, data, p) {
                Ok((w, q)) => Ok((ValueView::Array(vs.push(w)), q)),
                Err(why) => Err(why),
            }),
            Err(why) => decoded(TypeView::Array(Box::new(e), n + 1), big, data, pos) == Err::<
                (ValueView, nat),
                ErrorView,
            >(why),
        },
{
    assert(((n + 1) - 1) as nat == n);
    assert(decoded_elements(e, big, data, pos, n + 1) == match decoded_elements(
        e,
        big,
        data,
        pos,
        n,
    ) {
        Ok((vs, p)) => match decoded(e, big, data, p) {
            Ok((v, q)) => Ok((vs.push(v), q)),
            Err(why) => Err(why),
        },
        Err(why) => Err(why),
    });
}

/// Whether values of type `e` are single bytes.
pub open spec fn single_bytes(e: TypeView) -> bool {
    e == TypeView::Uint8 || e == TypeView::Char || e == TypeView::Byte
}

/// A sequence is read as a number of four bytes and an array of as many elements.
/// Where the elements are bytes, what comes out is the string of these bytes.
pub proof fn sequences_are_read_as_a_count_and_an_array(
    e: TypeView,
    big: bool,
    data: Seq<u8>,
    pos: nat,
)
    ensures
        match decoded(TypeView::Uint32, big, data, pos) {
            Ok((v, p)) => v matches ValueView::Uint32(n) && (match decoded(
                TypeView::Array(Box::new(e), n as nat),
                big,
                data,
                p,
            ) {
                Ok((w, q)) => if single_bytes(e) {
                    decoded(TypeView::Sequence(Box::new(e)), big, data, pos) matches Ok((x, r)) && {
                        &&& x matches ValueView::Bytes(b)
                        &&& b.len() == n
                        &&& forall|k: int| 0 <= k < n ==> #[trigger] b[k] == data[p + k]
                        &&& w == ValueView::Array(byte_values(b))
                        &&& r == q
                    }
                } else {
                    decoded(TypeView::Sequence(Box::new(e)), big, data, pos) == Ok::<
                        (ValueView, nat),
                        ErrorView,
                    >((w, q))
                },
                Err(why) => decoded(TypeView::Sequence(Box::new(e)), big, data, pos) == Err::<
                    (ValueView, nat),
                    ErrorView,
                >(why),
            }),
            Err(why) => decoded(TypeView::Sequence(Box::new(e)), big, data, pos) == Err::<
                (ValueView, nat),
                ErrorView,
            >(why),
        },
{
    number_is_found(big, data, pos, 4);
    if let Ok((v, p)) = decoded(TypeView::Uint32, big, data, pos) {
        let n = v->Uint32_0;
        if single_bytes(e) {
            bytes_found(e, big, data, p, n as nat);
            if p + n <= data.len() {
                let b = data.subrange(p as int, p + n);
                assert(decoded(TypeView::Sequence(Box::new(e)), big, data, pos) == Ok::<
                    (ValueView, nat),
                    ErrorView,
                >((ValueView::Bytes(b), (p + n) as nat)));
            }
        }
    }
}

proof fn bytes_found(e: TypeView, big: bool, data: Seq<u8>, pos: nat, n: nat)
    requires
        single_bytes(e),
        pos <= data.len(),
    ensures
        decoded_elements(e, big, data, pos, n) == if pos + n <= data.len() {
            Ok(
                (
                    byte_values(data.subrange(pos as int, (pos + n) as int)),
                    pos + n,
                ),
            )
        } else {
            Err(cut_short())
        },
    decreases n,
{
    if n == 0 {
        assert(byte_values(data.subrange(pos as int, (pos + n) as int)) =~= Seq::<
            ValueView,
        >::empty());
    } else {
        let last = (pos + n - 1) as nat;
        bytes_found(e, big, data, pos, (n - 1) as nat);
        bytes_are_read_as_they_are(big, data, last);
        assert(decoded_elements(e, big, data, pos, n) == match decoded_elements(
            e,
            big,
            data,
            pos,
            (n - 1) as nat,
        ) {
            Ok((vs, p)) => match decoded(e, big, data, p) {
                Ok((v, q)) => Ok((vs.push(v), q)),
                Err(why) => Err(why),
            },
            Err(why) => Err(why),
        });
        if pos + n <= data.len() {
            assert(decoded(e, big, data, last) == Ok::<(ValueView, nat), ErrorView>(
                (ValueView::Uint8(data[last as int]), last + 1),
            ));
            assert(byte_values(data.subrange(pos as int, (pos + n) as int)) =~= byte_values(
                data.subrange(pos as int, pos + n - 1),
            ).push(ValueView::Uint8(data[pos + n - 1])));
        }
    }
}

/// A bounded sequence and an unbounded one are read alike, at every position of
/// every payload, and so are a bounded string and an unbounded one.
pub proof fn bounds_do_not_change_what_is_read(
    e: TypeView,
    max: nat,
    big: bool,
    data: Seq<u8>,
    pos: nat,
)
    ensures
        decoded(TypeView::BoundedSequence(Box::new(e), max), big, data, pos) == decoded(
            TypeView::Sequence(Box::new(e)),
            big,
            data,
            pos,
        ),
        decoded(TypeView::BoundedString(max), big, data, pos) == decoded(
            TypeView::String,
            big,
            data,
            pos,
        ),
{
}

/// Where an array of bytes was written as a sequence, bounded or not, the string
/// of these bytes is read.
pub proof fn arrays_of_bytes_are_read_as_byte_strings(
    e: TypeView,
    max: nat,
    b: Seq<u8>,
    out: Seq<u8>,
    data: Seq<u8>,
)
    requires
        single_bytes(e),
        b.len() <= u32::MAX,
        encoded(
            TypeView::BoundedSequence(Box::new(e), max),
            ValueView::Array(byte_values(b)),
            out,
        ) matches Ok(after) && after.is_prefix_of(data),
    ensures
        encoded(
            TypeView::BoundedSequence(Box::new(e), max),
            ValueView::Array(byte_values(b)),
            out,
        ) matches Ok(after) && {
            &&& decoded(
                TypeView::BoundedSequence(Box::new(e), max),
                false,
                data,
                out.len(),
            ) == Ok::<(ValueView, nat), ErrorView>((ValueView::Bytes(b), after.len()))
            &&& decoded(TypeView::Sequence(Box::new(e)), false, data, out.len()) == Ok::<
                (ValueView, nat),
                ErrorView,
            >((ValueView::Bytes(b), after.len()))
        },
{
    let start = with_u32(out, b.len());
    bytes_behind(e, b, start);
    let after = start + b;
    assert(after.is_prefix_of(data));
    byte_ranges();
    assert(start.is_prefix_of(data)) by {
        assert forall|k: int| 0 <= k < start.len() implies start[k] == data[k] by {
            assert(after[k] == data[k]);
        }
    }
    written_number_reads_back(out, b.len(), 4, data);
    assert(data.subrange(start.len() as int, (start.len() + b.len()) as int) =~= b) by {
        assert forall|k: int| 0 <= k < b.len() implies b[k] == data[start.len() + k] by {
            assert(after[start.len() + k] == data[start.len() + k]);
        }
    }
}

/// A string is read as a sequence of bytes, without a NUL at its end, as UTF-8.
pub proof fn strings_are_read_as_bytes(big: bool, data: Seq<u8>, pos: nat)
    ensures
        match decoded(TypeView::Sequence(Box::new(TypeView::Uint8)), big, data, pos) {
            Ok((v, p)) => v matches ValueView::Bytes(b) && ({
                let text = if b.len() > 0 && b[b.len() - 1] == 0 {
                    b.take(b.len() - 1)
                } else {
                    b
                };
                decoded(TypeView::String, big, data, pos) == if valid_utf8(text) {
                    Ok((ValueView::String(decode_utf8(text)), p))
                } else {
                    Err(ErrorView::DeserializationError("invalid UTF-8 in CDR string"@))
                }
            }),
            Err(why) => decoded(TypeView::String, big, data, pos) == Err::<
                (ValueView, nat),
                ErrorView,
            >(why),
        },
{
}

/// The fields of a message are read in order, each from behind the one before it,
/// and make a message of the schema asked for.
pub proof fn messages_are_read_field_by_field(
    s: SchemaView,
    f: FieldView,
    big: bool,
    data: Seq<u8>,
    pos: nat,
)
    ensures
        s.fields.len() == 0 ==> decoded(TypeView::Message(Box::new(s)), big, data, pos) == Ok::<
            (ValueView, nat),
            ErrorView,
        >((ValueView::Message(Box::new(MessageView { schema: s, values: Seq::empty() })), pos)),
        ({
            let longer = SchemaView { fields: s.fields.push(f), ..s };
            match decoded(TypeView::Message(Box::new(s)), big, data, pos) {
                Ok((v, p)) => v matches ValueView::Message(m) && m.schema == s && decoded(
                    TypeView::Message(Box::new(longer)),
                    big,
                    data,
                    pos,
                ) == (match decoded(f.field_type, big, data, p) {
                    Ok((w, q)) => Ok(
                        (
                            ValueView::Message(
                                Box::new(MessageView { schema: longer, values: m.values.push(w) }),
                            ),
                            q,
                        ),
                    ),
                    Err(why) => Err(why),
                }),
                Err(why) => decoded(TypeView::Message(Box::new(longer)), big, data, pos) == Err::<
                    (ValueView, nat),
                    ErrorView,
                >(why),
            }
        }),
{
    let n = s.fields.len();
    let fs = s.fields.push(f);
    read_fields_of_longer(s.fields, f, big, data, pos, n);
    assert(decoded_fields(fs, big, data, pos, n + 1) == match decoded_fields(
        fs,
        big,
        data,
        pos,
        n,
    ) {
        Ok((vs, p)) => match decoded(f.field_type, big, data, p) {
            Ok((v, q)) => Ok((vs.push(v), q)),
            Err(why) => Err(why),
        },
        Err(why) => Err(why),
    }) by {
        assert(fs[n as int] == f);
        assert(((n + 1) - 1) as nat == n);
    }
}

proof fn read_fields_of_longer(
    fs: Seq<FieldView>,
    f: FieldView,
    big: bool,
    data: Seq<u8>,
    pos: nat,
    n: nat,
)
    requires
        n <= fs.len(),
    ensures
        decoded_fields(fs.push(f), big, data, pos, n) == decoded_fields(fs, big, data, pos, n),
    decreases n,
{
    if n > 0 {
        read_fields_of_longer(fs, f, big, data, pos, (n - 1) as nat);
    }
}

/// What the first two bytes say decides how the payload behind the first four is
/// read: 0 and 1 least significant byte first, 0 and 0 most significant byte
/// first, anything else not at all; less than four bytes are no message.
pub proof fn the_header_decides_the_byte_order(data: Seq<u8>, s: SchemaView)
    ensures
        data.len() < 4 ==> cdr_message(data, s) == Err::<MessageView, ErrorView>(
            ErrorView::DeserializationError("CDR data too short for header"@),
        ),
        data.len() >= 4 && data[0] == 0 && (data[1] == 0 || data[1] == 1) ==> (match decoded(
            TypeView::Message(Box::new(s)),
            data[1] == 0,
            data.subrange(4, data.len() as int),
            0,
        ) {
            Ok((v, _)) => v matches ValueView::Message(m) && cdr_message(data, s) == Ok::<
                MessageView,
                ErrorView,
            >(*m),
            Err(why) => cdr_message(data, s) == Err::<MessageView, ErrorView>(why),
        }),
        data.len() >= 4 && (data[0] > 0 || data[1] > 1) ==> (cdr_message(data, s) matches Err(why)
            && why is DeserializationError),
{
    if data.len() >= 4 {
        assert(data.skip(4) =~= data.subrange(4, data.len() as int));
    }
}

proof fn unit_found(big: bool, data: Seq<u8>, pos: nat)
    requires
        pos % 4 == 0,
    ensures
        match number_at(big, data, pos, 4) {
            Some((x, p)) => p == pos + 4 && x <= u32::MAX && decoded(
                TypeView::Uint32,
                big,
                data,
                pos,
            ) == Ok::<(ValueView, nat), ErrorView>((ValueView::Uint32(x as u32), p)),
            None => decoded(TypeView::Uint32, big, data, pos) is Err,
        },
{
    number_is_found(big, data, pos, 4);
    assert(aligned(pos, 4) == pos);
}

proof fn units_are_numbers(big: bool, data: Seq<u8>, pos: nat, n: nat)
    requires
        pos % 4 == 0,
        units_at(big, data, pos, n) is Ok,
    ensures
        units_at(big, data, pos, n) matches Ok((units, p)) && {
            &&& p == pos + 4 * n
            &&& units.len() == n
            &&& decoded_elements(TypeView::Uint32, big, data, pos, n) == Ok::<
                (Seq<ValueView>, nat),
                ErrorView,
            >((unit_values(units), p))
        },
    decreases n,
{
    let (units, p) = units_at(big, data, pos, n)->Ok_0;
    if n == 0 {
        assert(unit_values(units) =~= Seq::<ValueView>::empty());
    } else {
        let m = (n - 1) as nat;
        units_are_numbers(big, data, pos, m);
        let (before, q) = units_at(big, data, pos, m)->Ok_0;
        unit_found(big, data, q);
        assert(unit_values(units) =~= unit_values(before).push(
            ValueView::Uint32(units.last() as u32),
        ));
    }
}

proof fn numbers_are_units(big: bool, data: Seq<u8>, pos: nat, n: nat, units: Seq<u16>, p: nat)
    requires
        pos % 4 == 0,
        decoded_elements(TypeView::Uint32, big, data, pos, n) == Ok::<
            (Seq<ValueView>, nat),
            ErrorView,
        >((unit_values(units), p)),
    ensures
        units_at(big, data, pos, n) == Ok::<(Seq<u16>, nat), ErrorView>((units, p)),
    decreases n,
{
    assert(unit_values(units).len() == units.len());
    if n == 0 {
        assert(units =~= Seq::<u16>::empty());
    } else {
        let m = (n - 1) as nat;
        let (before, q) = decoded_elements(TypeView::Uint32, big, data, pos, m)->Ok_0;
        let (v, r) = decoded(TypeView::Uint32, big, data, q)->Ok_0;
        assert(unit_values(units) == before.push(v) && r == p);
        assert(before =~= unit_values(units.drop_last())) by {
            assert(before =~= unit_values(units).drop_last());
        }
        numbers_are_units(big, data, pos, m, units.drop_last(), q);
        units_are_numbers(big, data, pos, m);
        unit_found(big, data, q);
        assert(v == unit_values(units)[units.len() - 1]);
        assert(units =~= units.drop_last().push(units.last()));
    }
}

/// A wide string is what a sequence of numbers of four bytes is, where they are
/// the code units of a text; one of more code units than its bound is refused.
pub proof fn wide_strings_are_read_as_sequences_of_units(
    max: nat,
    big: bool,
    data: Seq<u8>,
    pos: nat,
    s: Seq<char>,
    p: nat,
)
    requires
        data.len() <= usize::MAX,
    ensures
        decoded(TypeView::WString, big, data, pos) == Ok::<(ValueView, nat), ErrorView>(
            (ValueView::String(s), p),
        ) <==> decoded(
            TypeView::Sequence(Box::new(TypeView::Uint32)),
            big,
            data,
            pos,
        ) == Ok::<(ValueView, nat), ErrorView>(
            (ValueView::Array(unit_values(utf16(s))), p),
        ),
        match decoded(TypeView::Uint32, big, data, pos) {
            Ok((v, _)) => v matches ValueView::Uint32(n) && decoded(
                TypeView::BoundedWString(max),
                big,
                data,
                pos,
            ) == if n <= max {
                decoded(TypeView::WString, big, data, pos)
            } else {
                Err(ErrorView::BoundExceeded { max, actual: n as nat })
            },
            Err(why) => decoded(TypeView::WString, big, data, pos) == Err::<
                (ValueView, nat),
                ErrorView,
            >(why) && decoded(TypeView::BoundedWString(max), big, data, pos) == Err::<
                (ValueView, nat),
                ErrorView,
            >(why),
        },
{
    number_is_found(big, data, pos, 4);
    if decoded(TypeView::WString, big, data, pos) == Ok::<(ValueView, nat), ErrorView>(
        (ValueView::String(s), p),
    ) {
        wide_string_is_a_sequence(big, data, pos, s, p);
    }
    if decoded(TypeView::Sequence(Box::new(TypeView::Uint32)), big, data, pos) == Ok::<
        (ValueView, nat),
        ErrorView,
    >((ValueView::Array(unit_values(utf16(s))), p)) {
        sequence_is_a_wide_string(big, data, pos, s, p);
    }
}

proof fn wide_string_is_a_sequence(big: bool, data: Seq<u8>, pos: nat, s: Seq<char>, p: nat)
    requires
        decoded(TypeView::WString, big, data, pos) == Ok::<(ValueView, nat), ErrorView>(
            (ValueView::String(s), p),
        ),
    ensures
        decoded(TypeView::Sequence(Box::new(TypeView::Uint32)), big, data, pos) == Ok::<
            (ValueView, nat),
            ErrorView,
        >((ValueView::Array(unit_values(utf16(s))), p)),
{
    gap_reaches_alignment(pos);
    let (n, start) = number_at(big, data, pos, 4).unwrap();
    assert(start % 4 == 0);
    let (units, q) = units_at(big, data, start, n)->Ok_0;
    code_units_come_back(units);
    units_are_numbers(big, data, start, n);
}

proof fn sequence_is_a_wide_string(big: bool, data: Seq<u8>, pos: nat, s: Seq<char>, p: nat)
    requires
        data.len() <= usize::MAX,
        decoded(TypeView::Sequence(Box::new(TypeView::Uint32)), big, data, pos) == Ok::<
            (ValueView, nat),
            ErrorView,
        >((ValueView::Array(unit_values(utf16(s))), p)),
    ensures
        decoded(TypeView::WString, big, data, pos) == Ok::<(ValueView, nat), ErrorView>(
            (ValueView::String(s), p),
        ),
{
    gap_reaches_alignment(pos);
    let (n, start) = number_at(big, data, pos, 4).unwrap();
    assert(start % 4 == 0);
    utf16_round_trip(s);
    numbers_are_units(big, data, start, n, utf16(s), p);
    units_are_numbers(big, data, start, n);
    units_within(big, data, start, n);
}

proof fn units_within(big: bool, data: Seq<u8>, pos: nat, n: nat)
    requires
        pos <= data.len(),
        units_at(big, data, pos, n) is Ok,
    ensures
        units_at(big, data, pos, n)->Ok_0.1 <= data.len(),
    decreases n,
{
    if n > 0 {
        units_within(big, data, pos, (n - 1) as nat);
    }
}

} // verus!
