//! CDR encoding and decoding of dynamic messages.
//!
//! A payload follows a header of four bytes. Each number stands at a multiple
//! of its own size, counted from the start of the payload.

use crate::dynamic::error::{DynamicError, ErrorView};
use crate::dynamic::schema::{
    fields_view, values_view, DynamicMessage, DynamicValue, FieldType, FieldView, MessageSchema,
    MessageView, SchemaView, TypeView, ValueView,
};
use crate::dynamic::serialization::wire::{
    byte_ranges, le_bytes, number_at, padded, write_u16, write_u32, write_u64,
    written_number_reads_back, Reader,
};
use crate::dynamic::message::schema_equality_keeps_acceptance;
use crate::dynamic::validate::{
    byte_type, element_path, elements_violation, fields_accepted_one_by_one, fields_violation,
    is_byte_type, joined, message_violation, violation,
};
use crate::dynamic::wide::{
    decode_utf16, encode_utf16, text_of_utf16, utf16, utf16_round_trip,
};
use crate::shared::share;
use crate::text::{decimal, decimal_text, hex, hex_text, join2, join3};
use std::sync::Arc;
use vstd::prelude::*;
use vstd::utf8::{decode_utf8, encode_utf8, valid_utf8};

verus! {

/// Why a value cannot be encoded.
pub enum Refusal {
    /// It does not have the type that it is to be encoded as.
    Mismatch { value: ValueView, expected: TypeView },
    /// It is a wide string of more code units than its bound.
    Bound { max: nat, actual: nat },
    /// It is a wide string of more code units than the length prefix can count.
    TooLong,
}

/// Whether `e` is the error for `why`.
pub open spec fn reports(e: ErrorView, why: Refusal) -> bool {
    match why {
        Refusal::Mismatch { value, expected } => e == mismatch_error(value, expected),
        Refusal::Bound { max, actual } => e == (ErrorView::BoundExceeded { max, actual }),
        Refusal::TooLong => e == ErrorView::SerializationError(
            "wide string length exceeds uint32"@,
        ),
    }
}

/// How `Debug` shows a value.
pub uninterp spec fn value_text(v: ValueView) -> Seq<char>;

/// How `Debug` shows a type.
pub uninterp spec fn type_text(t: TypeView) -> Seq<char>;

/// The error of a value that does not have a type.
pub open spec fn mismatch_error(v: ValueView, t: TypeView) -> ErrorView {
    ErrorView::SerializationError(
        "Type mismatch: cannot serialize "@ + value_text(v) + " as "@ + type_text(t),
    )
}

/// What a length prefix says of a length.
pub open spec fn prefix_of(len: nat) -> nat {
    len % 0x1_0000_0000
}

pub open spec fn with_u16(out: Seq<u8>, x: nat) -> Seq<u8> {
    padded(out, 2) + le_bytes(x, 2)
}

pub open spec fn with_u32(out: Seq<u8>, x: nat) -> Seq<u8> {
    padded(out, 4) + le_bytes(x, 4)
}

pub open spec fn with_u64(out: Seq<u8>, x: nat) -> Seq<u8> {
    padded(out, 8) + le_bytes(x, 8)
}

/// The payload `out` followed by a string: its length with the closing NUL, its
/// bytes, and the NUL.
pub open spec fn with_string(out: Seq<u8>, s: Seq<char>) -> Seq<u8> {
    with_u32(out, prefix_of(encode_utf8(s).len() + 1)) + encode_utf8(s) + seq![0u8]
}

/// The payload `out` followed by each code unit as a number of four bytes.
pub open spec fn with_units(out: Seq<u8>, units: Seq<u16>) -> Seq<u8>
    decreases units.len(),
{
    if units.len() == 0 {
        out
    } else {
        with_u32(with_units(out, units.drop_last()), units.last() as nat)
    }
}

/// The payload `out` followed by a wide string of at most `max` code units.
pub open spec fn with_wstring(out: Seq<u8>, s: Seq<char>, max: Option<nat>) -> Result<
    Seq<u8>,
    Refusal,
> {
    let units = utf16(s);
    if max matches Some(m) && units.len() > m {
        Err(Refusal::Bound { max: max.unwrap(), actual: units.len() })
    } else if units.len() > u32::MAX {
        Err(Refusal::TooLong)
    } else {
        Ok(with_units(with_u32(out, units.len()), units))
    }
}

/// The payload `out` followed by value `v` of type `t`.
pub open spec fn encoded(t: TypeView, v: ValueView, out: Seq<u8>) -> Result<Seq<u8>, Refusal>
    decreases v, 0int,
{
    match (v, t) {
        (ValueView::Bool(x), TypeView::Bool) => Ok(out.push(if x { 1u8 } else { 0u8 })),
        (ValueView::Int8(x), TypeView::Int8) => Ok(out.push(x as u8)),
        (ValueView::Int16(x), TypeView::Int16) => Ok(with_u16(out, x as u16 as nat)),
        (ValueView::Int32(x), TypeView::Int32) => Ok(with_u32(out, x as u32 as nat)),
        (ValueView::Int64(x), TypeView::Int64) => Ok(with_u64(out, x as u64 as nat)),
        (ValueView::Uint8(x), TypeView::Uint8) => Ok(out.push(x)),
        (ValueView::Uint8(x), TypeView::Char) => Ok(out.push(x)),
        (ValueView::Uint8(x), TypeView::Byte) => Ok(out.push(x)),
        (ValueView::Uint16(x), TypeView::Uint16) => Ok(with_u16(out, x as nat)),
        (ValueView::Uint16(x), TypeView::WChar) => Ok(with_u16(out, x as nat)),
        (ValueView::Uint32(x), TypeView::Uint32) => Ok(with_u32(out, x as nat)),
        (ValueView::Uint64(x), TypeView::Uint64) => Ok(with_u64(out, x as nat)),
        (ValueView::Float32(x), TypeView::Float32) => Ok(with_u32(out, x as nat)),
        (ValueView::Float64(x), TypeView::Float64) => Ok(with_u64(out, x as nat)),
        (ValueView::String(s), TypeView::String) => Ok(with_string(out, s)),
        (ValueView::String(s), TypeView::BoundedString(_)) => Ok(with_string(out, s)),
        (ValueView::String(s), TypeView::WString) => with_wstring(out, s, None),
        (ValueView::String(s), TypeView::BoundedWString(max)) => with_wstring(out, s, Some(max)),
        (ValueView::Array(vs), TypeView::Array(e, _)) => encoded_elements(*e, vs, vs.len(), out),
        (ValueView::Array(vs), TypeView::Sequence(e)) => encoded_elements(
            *e,
            vs,
            vs.len(),
            with_u32(out, prefix_of(vs.len())),
        ),
        (ValueView::Array(vs), TypeView::BoundedSequence(e, _)) => encoded_elements(
            *e,
            vs,
            vs.len(),
            with_u32(out, prefix_of(vs.len())),
        ),
        (ValueView::Bytes(b), TypeView::Sequence(e)) => if byte_type(*e) {
            Ok(with_u32(out, prefix_of(b.len())) + b)
        } else {
            Err(Refusal::Mismatch { value: v, expected: t })
        },
        (ValueView::Message(m), TypeView::Message(_)) => encoded_message(*m, out),
        _ => Err(Refusal::Mismatch { value: v, expected: t }),
    }
}

/// The payload `out` followed by the first `n` of the elements `vs`.
pub open spec fn encoded_elements(t: TypeView, vs: Seq<ValueView>, n: nat, out: Seq<u8>) -> Result<
    Seq<u8>,
    Refusal,
>
    decreases vs, n,
{
    if n == 0 || n > vs.len() {
        Ok(out)
    } else {
        match encoded_elements(t, vs, (n - 1) as nat, out) {
            Ok(before) => encoded(t, vs[n - 1], before),
            Err(e) => Err(e),
        }
    }
}

/// How many fields of `m` have both a type and a value.
pub open spec fn paired(m: MessageView) -> nat {
    if m.schema.fields.len() <= m.values.len() {
        m.schema.fields.len()
    } else {
        m.values.len()
    }
}

/// The payload `out` followed by message `m`.
pub open spec fn encoded_message(m: MessageView, out: Seq<u8>) -> Result<Seq<u8>, Refusal>
    decreases m, 0int,
{
    encoded_fields(m.schema.fields, m.values, paired(m), out)
}

/// The payload `out` followed by the first `n` fields.
pub open spec fn encoded_fields(
    fs: Seq<FieldView>,
    vs: Seq<ValueView>,
    n: nat,
    out: Seq<u8>,
) -> Result<Seq<u8>, Refusal>
    decreases vs, n,
{
    if n == 0 || n > vs.len() {
        Ok(out)
    } else {
        match encoded_fields(fs, vs, (n - 1) as nat, out) {
            Ok(before) => encoded(fs[n - 1].field_type, vs[n - 1], before),
            Err(e) => Err(e),
        }
    }
}

/// The header of a payload whose numbers stand least significant byte first.
pub open spec fn header_le() -> Seq<u8> {
    seq![0u8, 1u8, 0u8, 0u8]
}

/// The bytes of message `m`, header included.
pub open spec fn cdr_bytes(m: MessageView) -> Result<Seq<u8>, Refusal> {
    match encoded_message(m, Seq::empty()) {
        Ok(payload) => Ok(header_le() + payload),
        Err(e) => Err(e),
    }
}

proof fn encoded_elements_error_stays(
    t: TypeView,
    vs: Seq<ValueView>,
    n: nat,
    k: nat,
    out: Seq<u8>,
)
    requires
        n <= k <= vs.len(),
        encoded_elements(t, vs, n, out) is Err,
    ensures
        encoded_elements(t, vs, k, out) == encoded_elements(t, vs, n, out),
    decreases k - n,
{
    if n < k {
        encoded_elements_error_stays(t, vs, n, (k - 1) as nat, out);
    }
}

proof fn encoded_fields_error_stays(
    fs: Seq<FieldView>,
    vs: Seq<ValueView>,
    n: nat,
    k: nat,
    out: Seq<u8>,
)
    requires
        n <= k <= vs.len(),
        encoded_fields(fs, vs, n, out) is Err,
    ensures
        encoded_fields(fs, vs, k, out) == encoded_fields(fs, vs, n, out),
    decreases k - n,
{
    if n < k {
        encoded_fields_error_stays(fs, vs, n, (k - 1) as nat, out);
    }
}

/// How a value is shown in an error, by `format!` of std with its `Debug`
/// formatting: a text that follows from what the value holds, by a name. How the
/// text is laid out is not stated. Floating point numbers, which are kept as bits,
/// are shown so.
#[verifier::external_body]
fn shown_value(value: &DynamicValue) -> (r: String)
    ensures
        r@ == value_text(value@),
{
    format!("{:?}", value)
}

/// How a type is shown in an error, by `format!` of std with its `Debug`
/// formatting: a text that follows from what the type holds, by a name. How the
/// text is laid out is not stated.
#[verifier::external_body]
fn shown_type(t: &FieldType) -> (r: String)
    ensures
        r@ == type_text(t@),
{
    format!("{:?}", t)
}

fn mismatch(value: &DynamicValue, t: &FieldType) -> (e: DynamicError)
    ensures
        reports(e@, Refusal::Mismatch { value: value@, expected: t@ }),
{
    DynamicError::SerializationError(mismatch_message(&shown_value(value), &shown_type(t)))
}

/// What is said of a value, shown as `value`, that does not have the type shown as
/// `expected`.
pub fn mismatch_message(value: &str, expected: &str) -> (r: String)
    ensures
        r@ == "Type mismatch: cannot serialize "@ + value@ + " as "@ + expected@,
{
    let mut text: String = join3("Type mismatch: cannot serialize ", value, " as ");
    text.append(expected);
    text
}

fn length_prefix(len: usize) -> (r: u32)
    ensures
        r == prefix_of(len as nat),
{
    (len as u64 % 0x1_0000_0000) as u32
}

fn write_length(out: &mut Vec<u8>, len: usize)
    ensures
        final(out)@ == with_u32(old(out)@, prefix_of(len as nat)),
{
    write_u32(out, length_prefix(len));
}

fn write_string(out: &mut Vec<u8>, s: &str)
    ensures
        final(out)@ == with_string(old(out)@, s@),
{
    let bytes = s.as_bytes();
    let n: u32 = length_prefix(bytes.len());
    if n == u32::MAX {
        write_u32(out, 0);
    } else {
        write_u32(out, n + 1);
    }
    out.extend_from_slice(bytes);
    out.push(0);
    assert(out@ =~= with_string(old(out)@, s@));
}

fn write_wstring(out: &mut Vec<u8>, s: &str, max_units: Option<usize>) -> (r: Result<
    (),
    DynamicError,
>)
    ensures
        ({
            let max = match max_units {
                Some(m) => Some(m as nat),
                None => None,
            };
            match r {
                Ok(()) => with_wstring(old(out)@, s@, max) == Ok::<Seq<u8>, Refusal>(
                    final(out)@,
                ),
                Err(e) => with_wstring(old(out)@, s@, max) matches Err(why) && reports(e@, why),
            }
        }),
{
    let units: Vec<u16> = encode_utf16(s);
    match max_units {
        Some(max) => {
            if units.len() > max {
                return Err(DynamicError::BoundExceeded { max, actual: units.len() });
            }
        },
        None => {},
    }
    if units.len() as u64 > u32::MAX as u64 {
        return Err(
            DynamicError::SerializationError("wide string length exceeds uint32".to_owned()),
        );
    }
    write_u32(out, units.len() as u32);
    let ghost start = out@;
    let mut i: usize = 0;
    assert(with_units(start, units@.take(0)) == start);
    while i < units.len()
        invariant
            i <= units@.len(),
            out@ == with_units(start, units@.take(i as int)),
        decreases units@.len() - i,
    {
        write_u32(out, units[i] as u32);
        assert(units@.take(i + 1).drop_last() =~= units@.take(i as int));
        i = i + 1;
    }
    assert(units@.take(i as int) =~= units@);
    Ok(())
}

/// Appends `value` of type `field_type` to the payload.
fn serialize_value(value: &DynamicValue, field_type: &FieldType, out: &mut Vec<u8>) -> (r: Result<
    (),
    DynamicError,
>)
    ensures
        match r {
            Ok(()) => encoded(field_type@, value@, old(out)@) == Ok::<Seq<u8>, Refusal>(
                final(out)@,
            ),
            Err(e) => encoded(field_type@, value@, old(out)@) matches Err(why) && reports(e@, why),
        },
    decreases value@, 0int,
{
    match (value, field_type) {
        (DynamicValue::Bool(x), FieldType::Bool) => {
            out.push(if *x { 1 } else { 0 });
            Ok(())
        },
        (DynamicValue::Int8(x), FieldType::Int8) => {
            out.push(*x as u8);
            Ok(())
        },
        (DynamicValue::Int16(x), FieldType::Int16) => {
            write_u16(out, *x as u16);
            Ok(())
        },
        (DynamicValue::Int32(x), FieldType::Int32) => {
            write_u32(out, *x as u32);
            Ok(())
        },
        (DynamicValue::Int64(x), FieldType::Int64) => {
            write_u64(out, *x as u64);
            Ok(())
        },
        (DynamicValue::Uint8(x), FieldType::Uint8) => {
            out.push(*x);
            Ok(())
        },
        (DynamicValue::Uint8(x), FieldType::Char) => {
            out.push(*x);
            Ok(())
        },
        (DynamicValue::Uint8(x), FieldType::Byte) => {
            out.push(*x);
            Ok(())
        },
        (DynamicValue::Uint16(x), FieldType::Uint16) => {
            write_u16(out, *x);
            Ok(())
        },
        (DynamicValue::Uint16(x), FieldType::WChar) => {
            write_u16(out, *x);
            Ok(())
        },
        (DynamicValue::Uint32(x), FieldType::Uint32) => {
            write_u32(out, *x);
            Ok(())
        },
        (DynamicValue::Uint64(x), FieldType::Uint64) => {
            write_u64(out, *x);
            Ok(())
        },
        (DynamicValue::Float32(x), FieldType::Float32) => {
            write_u32(out, *x);
            Ok(())
        },
        (DynamicValue::Float64(x), FieldType::Float64) => {
            write_u64(out, *x);
            Ok(())
        },
        (DynamicValue::String(s), FieldType::String) => {
            write_string(out, s);
            Ok(())
        },
        (DynamicValue::String(s), FieldType::BoundedString(_)) => {
            write_string(out, s);
            Ok(())
        },
        (DynamicValue::String(s), FieldType::WString) => write_wstring(out, s, None),
        (DynamicValue::String(s), FieldType::BoundedWString(max)) => write_wstring(
            out,
            s,
            Some(*max),
        ),
        (DynamicValue::Array(values), FieldType::Array(inner, _)) => serialize_elements(
            values,
            &**inner,
            out,
        ),
        (DynamicValue::Array(values), FieldType::Sequence(inner)) => {
            write_length(out, values.len());
            serialize_elements(values, &**inner, out)
        },
        (DynamicValue::Array(values), FieldType::BoundedSequence(inner, _)) => {
            write_length(out, values.len());
            serialize_elements(values, &**inner, out)
        },
        (DynamicValue::Bytes(bytes), FieldType::Sequence(inner)) => {
            if !is_byte_type(&**inner) {
                return Err(mismatch(value, field_type));
            }
            write_length(out, bytes.len());
            out.extend_from_slice(bytes.as_slice());
            assert(out@ =~= with_u32(old(out)@, prefix_of(bytes@.len())) + bytes@);
            Ok(())
        },
        (DynamicValue::Message(nested), FieldType::Message(_)) => serialize_message(
            &**nested,
            out,
        ),
        _ => Err(mismatch(value, field_type)),
    }
}

fn serialize_elements(values: &Vec<DynamicValue>, inner: &FieldType, out: &mut Vec<u8>) -> (r:
    Result<(), DynamicError>)
    ensures
        match r {
            Ok(()) => encoded_elements(
                inner@,
                values_view(values@),
                values@.len(),
                old(out)@,
            ) == Ok::<Seq<u8>, Refusal>(final(out)@),
            Err(e) => encoded_elements(
                inner@,
                values_view(values@),
                values@.len(),
                old(out)@,
            ) matches Err(why) && reports(e@, why),
        },
    decreases values_view(values@), 1int,
{
    let ghost vs = values_view(values@);
    let mut i: usize = 0;
    while i < values.len()
        invariant
            i <= values@.len(),
            vs == values_view(values@),
            encoded_elements(inner@, vs, i as nat, old(out)@) == Ok::<Seq<u8>, Refusal>(out@),
        decreases values@.len() - i,
    {
        assert(vs[i as int] == values@[i as int]@);
        let r = serialize_value(&values[i], inner, out);
        if r.is_err() {
            proof {
                encoded_elements_error_stays(
                    inner@,
                    vs,
                    (i + 1) as nat,
                    values@.len(),
                    old(out)@,
                );
            }
            return r;
        }
        i = i + 1;
    }
    Ok(())
}

/// Appends the fields of `msg` to the payload.
fn serialize_message(msg: &DynamicMessage, out: &mut Vec<u8>) -> (r: Result<(), DynamicError>)
    ensures
        match r {
            Ok(()) => encoded_message(msg@, old(out)@) == Ok::<Seq<u8>, Refusal>(final(out)@),
            Err(e) => encoded_message(msg@, old(out)@) matches Err(why) && reports(e@, why),
        },
    decreases msg@, 0int,
{
    let ghost vs = msg@.values;
    let ghost fs = msg@.schema.fields;
    let mut i: usize = 0;
    while i < msg.schema.fields.len() && i < msg.values.len()
        invariant
            i <= msg.values@.len(),
            i <= msg.schema.fields@.len(),
            vs == msg@.values,
            vs == values_view(msg.values@),
            fs == msg@.schema.fields,
            fs == fields_view(msg.schema.fields@),
            encoded_fields(fs, vs, i as nat, old(out)@) == Ok::<Seq<u8>, Refusal>(out@),
        decreases msg.values@.len() - i,
    {
        assert(vs[i as int] == msg.values@[i as int]@);
        assert(fs[i as int] == msg.schema.fields@[i as int]@);
        assert(decreases_to!(msg@ => vs));
        assert(decreases_to!(vs => vs[i as int]));
        let r = serialize_value(&msg.values[i], &msg.schema.fields[i].field_type, out);
        if r.is_err() {
            proof {
                encoded_fields_error_stays(fs, vs, (i + 1) as nat, paired(msg@), old(out)@);
            }
            return r;
        }
        i = i + 1;
    }
    Ok(())
}

/// The bytes of a message.
pub fn serialize_cdr(msg: &DynamicMessage) -> (r: Result<Vec<u8>, DynamicError>)
    ensures
        match r {
            Ok(bytes) => cdr_bytes(msg@) == Ok::<Seq<u8>, Refusal>(bytes@),
            Err(e) => cdr_bytes(msg@) matches Err(why) && reports(e@, why),
        },
{
    let mut payload: Vec<u8> = Vec::new();
    assert(payload@ =~= Seq::<u8>::empty());
    serialize_message(msg, &mut payload)?;
    let mut buffer: Vec<u8> = Vec::new();
    buffer.push(0);
    buffer.push(1);
    buffer.push(0);
    buffer.push(0);
    assert(buffer@ =~= header_le());
    buffer.append(&mut payload);
    Ok(buffer)
}

/// The contents of a Zenoh buffer.
pub uninterp spec fn zbuf_bytes(b: zenoh_buffers::ZBuf) -> Seq<u8>;

#[verifier::external_type_specification]
#[verifier::external_body]
pub struct ExZBuf(zenoh_buffers::ZBuf);

/// `ZBuf::from` of zenoh-buffers: a buffer of one slice that holds `bytes`.
#[verifier::external_body]
fn zbuf_from(bytes: Vec<u8>) -> (r: zenoh_buffers::ZBuf)
    ensures
        zbuf_bytes(r) == bytes@,
{
    zenoh_buffers::ZBuf::from(bytes)
}

/// The bytes of a message, in a Zenoh buffer.
pub fn serialize_cdr_to_zbuf(msg: &DynamicMessage) -> (r: Result<
    zenoh_buffers::ZBuf,
    DynamicError,
>)
    ensures
        match r {
            Ok(buffer) => cdr_bytes(msg@) == Ok::<Seq<u8>, Refusal>(zbuf_bytes(buffer)),
            Err(e) => cdr_bytes(msg@) matches Err(why) && reports(e@, why),
        },
{
    let bytes: Vec<u8> = serialize_cdr(msg)?;
    Ok(zbuf_from(bytes))
}

pub open spec fn bad_data(text: Seq<char>) -> ErrorView {
    ErrorView::DeserializationError(text)
}

/// The error of a payload that ends before a value does.
pub open spec fn short_data() -> ErrorView {
    bad_data("unexpected end of CDR data"@)
}

/// What is read, and the position after it.
pub type Read<T> = Result<(T, nat), ErrorView>;

pub open spec fn u8_at(data: Seq<u8>, pos: nat) -> Read<u8> {
    if pos < data.len() {
        Ok((data[pos as int], pos + 1))
    } else {
        Err(short_data())
    }
}

pub open spec fn n_at(big: bool, data: Seq<u8>, pos: nat, n: nat) -> Read<nat> {
    match number_at(big, data, pos, n) {
        Some((x, next)) => Ok((x, next)),
        None => Err(short_data()),
    }
}

/// A length, and as many bytes.
pub open spec fn bytes_at(big: bool, data: Seq<u8>, pos: nat) -> Read<Seq<u8>> {
    match n_at(big, data, pos, 4) {
        Ok((n, start)) => if start + n > data.len() {
            Err(short_data())
        } else {
            Ok((data.subrange(start as int, (start + n) as int), start + n))
        },
        Err(e) => Err(e),
    }
}

/// The bytes of a string without a closing NUL.
pub open spec fn without_nul(b: Seq<u8>) -> Seq<u8> {
    if b.len() > 0 && b.last() == 0 {
        b.drop_last()
    } else {
        b
    }
}

/// A string: a length, and as many bytes of UTF-8, the last of them a NUL.
pub open spec fn string_at(big: bool, data: Seq<u8>, pos: nat) -> Read<Seq<char>> {
    match bytes_at(big, data, pos) {
        Ok((b, next)) => if valid_utf8(without_nul(b)) {
            Ok((decode_utf8(without_nul(b)), next))
        } else {
            Err(bad_data("invalid UTF-8 in CDR string"@))
        },
        Err(e) => Err(e),
    }
}

/// `n` code units, each a number of four bytes.
pub open spec fn units_at(big: bool, data: Seq<u8>, pos: nat, n: nat) -> Read<Seq<u16>>
    decreases n,
{
    if n == 0 {
        Ok((Seq::empty(), pos))
    } else {
        match units_at(big, data, pos, (n - 1) as nat) {
            Ok((units, p)) => match n_at(big, data, p, 4) {
                Ok((x, next)) => if x > u16::MAX {
                    Err(bad_data("wide string code unit exceeds uint16: 0x"@ + hex(x)))
                } else {
                    Ok((units.push(x as u16), next))
                },
                Err(e) => Err(e),
            },
            Err(e) => Err(e),
        }
    }
}

/// A wide string of at most `max` code units.
pub open spec fn wstring_at(big: bool, data: Seq<u8>, pos: nat, max: Option<nat>) -> Read<
    Seq<char>,
> {
    match n_at(big, data, pos, 4) {
        Ok((n, start)) => if max matches Some(m) && n > m {
            Err(ErrorView::BoundExceeded { max: max.unwrap(), actual: n })
        } else if n * 4 > usize::MAX {
            Err(bad_data("wide string byte length overflow"@))
        } else if n * 4 > data.len() - start {
            Err(bad_data("wide string length exceeds remaining payload"@))
        } else {
            match units_at(big, data, start, n) {
                Ok((units, next)) => match text_of_utf16(units) {
                    Some(s) => Ok((s, next)),
                    None => Err(
                        bad_data(
                            "invalid UTF-16 wide string: invalid utf-16: lone surrogate found"@,
                        ),
                    ),
                },
                Err(e) => Err(e),
            }
        },
        Err(e) => Err(e),
    }
}

/// The value of type `t` at `pos`.
pub open spec fn decoded(t: TypeView, big: bool, data: Seq<u8>, pos: nat) -> Read<ValueView>
    decreases t, 0nat,
{
    match t {
        TypeView::Bool => match u8_at(data, pos) {
            Ok((x, p)) => Ok((ValueView::Bool(x != 0), p)),
            Err(e) => Err(e),
        },
        TypeView::Int8 => match u8_at(data, pos) {
            Ok((x, p)) => Ok((ValueView::Int8(x as i8), p)),
            Err(e) => Err(e),
        },
        TypeView::Int16 => match n_at(big, data, pos, 2) {
            Ok((x, p)) => Ok((ValueView::Int16(x as u16 as i16), p)),
            Err(e) => Err(e),
        },
        TypeView::Int32 => match n_at(big, data, pos, 4) {
            Ok((x, p)) => Ok((ValueView::Int32(x as u32 as i32), p)),
            Err(e) => Err(e),
        },
        TypeView::Int64 => match n_at(big, data, pos, 8) {
            Ok((x, p)) => Ok((ValueView::Int64(x as u64 as i64), p)),
            Err(e) => Err(e),
        },
        TypeView::Uint8 | TypeView::Char | TypeView::Byte => match u8_at(data, pos) {
            Ok((x, p)) => Ok((ValueView::Uint8(x), p)),
            Err(e) => Err(e),
        },
        TypeView::Uint16 | TypeView::WChar => match n_at(big, data, pos, 2) {
            Ok((x, p)) => Ok((ValueView::Uint16(x as u16), p)),
            Err(e) => Err(e),
        },
        TypeView::Uint32 => match n_at(big, data, pos, 4) {
            Ok((x, p)) => Ok((ValueView::Uint32(x as u32), p)),
            Err(e) => Err(e),
        },
        TypeView::Uint64 => match n_at(big, data, pos, 8) {
            Ok((x, p)) => Ok((ValueView::Uint64(x as u64), p)),
            Err(e) => Err(e),
        },
        TypeView::Float32 => match n_at(big, data, pos, 4) {
            Ok((x, p)) => Ok((ValueView::Float32(x as u32), p)),
            Err(e) => Err(e),
        },
        TypeView::Float64 => match n_at(big, data, pos, 8) {
            Ok((x, p)) => Ok((ValueView::Float64(x as u64), p)),
            Err(e) => Err(e),
        },
        TypeView::String | TypeView::BoundedString(_) => match string_at(big, data, pos) {
            Ok((x, p)) => Ok((ValueView::String(x), p)),
            Err(e) => Err(e),
        },
        TypeView::WString => match wstring_at(big, data, pos, None) {
            Ok((x, p)) => Ok((ValueView::String(x), p)),
            Err(e) => Err(e),
        },
        TypeView::BoundedWString(max) => match wstring_at(big, data, pos, Some(max)) {
            Ok((x, p)) => Ok((ValueView::String(x), p)),
            Err(e) => Err(e),
        },
        TypeView::Array(e, n) => match decoded_elements(*e, big, data, pos, n) {
            Ok((vs, p)) => Ok((ValueView::Array(vs), p)),
            Err(e) => Err(e),
        },
        TypeView::Sequence(e) => if byte_type(*e) {
            match bytes_at(big, data, pos) {
                Ok((b, p)) => Ok((ValueView::Bytes(b), p)),
                Err(e) => Err(e),
            }
        } else {
            match n_at(big, data, pos, 4) {
                Ok((n, p)) => match decoded_elements(*e, big, data, p, n) {
                    Ok((vs, q)) => Ok((ValueView::Array(vs), q)),
                    Err(e) => Err(e),
                },
                Err(e) => Err(e),
            }
        },
        TypeView::BoundedSequence(e, _) => if byte_type(*e) {
            match bytes_at(big, data, pos) {
                Ok((b, p)) => Ok((ValueView::Bytes(b), p)),
                Err(e) => Err(e),
            }
        } else {
            match n_at(big, data, pos, 4) {
                Ok((n, p)) => match decoded_elements(*e, big, data, p, n) {
                    Ok((vs, q)) => Ok((ValueView::Array(vs), q)),
                    Err(e) => Err(e),
                },
                Err(e) => Err(e),
            }
        },
        TypeView::Message(s) => match decoded_message(*s, big, data, pos) {
            Ok((m, p)) => Ok((ValueView::Message(Box::new(m)), p)),
            Err(e) => Err(e),
        },
    }
}

/// `n` values of type `t`, from `pos` on.
pub open spec fn decoded_elements(
    t: TypeView,
    big: bool,
    data: Seq<u8>,
    pos: nat,
    n: nat,
) -> Read<Seq<ValueView>>
    decreases t, n + 1,
{
    if n == 0 {
        Ok((Seq::empty(), pos))
    } else {
        match decoded_elements(t, big, data, pos, (n - 1) as nat) {
            Ok((vs, p)) => match decoded(t, big, data, p) {
                Ok((v, q)) => Ok((vs.push(v), q)),
                Err(e) => Err(e),
            },
            Err(e) => Err(e),
        }
    }
}

/// The message of schema `s` at `pos`.
pub open spec fn decoded_message(s: SchemaView, big: bool, data: Seq<u8>, pos: nat) -> Read<
    MessageView,
>
    decreases s, 0nat,
{
    match decoded_fields(s.fields, big, data, pos, s.fields.len()) {
        Ok((vs, p)) => Ok((MessageView { schema: s, values: vs }, p)),
        Err(e) => Err(e),
    }
}

/// The values of the first `n` fields, from `pos` on.
pub open spec fn decoded_fields(
    fs: Seq<FieldView>,
    big: bool,
    data: Seq<u8>,
    pos: nat,
    n: nat,
) -> Read<Seq<ValueView>>
    decreases fs, n,
{
    if n == 0 || n > fs.len() {
        Ok((Seq::empty(), pos))
    } else {
        match decoded_fields(fs, big, data, pos, (n - 1) as nat) {
            Ok((vs, p)) => match decoded(fs[n - 1].field_type, big, data, p) {
                Ok((v, q)) => Ok((vs.push(v), q)),
                Err(e) => Err(e),
            },
            Err(e) => Err(e),
        }
    }
}

/// The message of schema `s` that `data` encodes, header included.
pub open spec fn cdr_message(data: Seq<u8>, s: SchemaView) -> Result<MessageView, ErrorView> {
    if data.len() < 4 {
        Err(bad_data("CDR data too short for header"@))
    } else if data[0] == 0 && data[1] <= 1 {
        match decoded_message(s, data[1] == 0, data.skip(4), 0) {
            Ok((m, _)) => Ok(m),
            Err(e) => Err(e),
        }
    } else {
        Err(
            bad_data(
                "Unsupported CDR encapsulation identifier: ["@ + decimal(data[0] as nat) + ", "@
                    + decimal(data[1] as nat) + "]"@,
            ),
        )
    }
}

fn short_data_error() -> (e: DynamicError)
    ensures
        e@ == short_data(),
{
    DynamicError::DeserializationError("unexpected end of CDR data".to_owned())
}

fn next_u8(reader: &mut Reader) -> (r: Result<u8, DynamicError>)
    requires
        old(reader).wf(),
    ensures
        match r {
            Ok(x) => {
                &&& u8_at(old(reader).data@, old(reader).pos as nat) == Ok::<
                    (u8, nat),
                    ErrorView,
                >((x, final(reader).pos as nat))
                &&& old(reader).moved_to(final(reader), final(reader).pos as nat)
            },
            Err(e) => u8_at(old(reader).data@, old(reader).pos as nat) == Err::<
                (u8, nat),
                ErrorView,
            >(e@),
        },
{
    match reader.read_u8() {
        Some(x) => Ok(x),
        None => Err(short_data_error()),
    }
}

fn next_u16(reader: &mut Reader) -> (r: Result<u16, DynamicError>)
    requires
        old(reader).wf(),
    ensures
        match r {
            Ok(x) => {
                &&& n_at(old(reader).big, old(reader).data@, old(reader).pos as nat, 2) == Ok::<
                    (nat, nat),
                    ErrorView,
                >((x as nat, final(reader).pos as nat))
                &&& old(reader).moved_to(final(reader), final(reader).pos as nat)
            },
            Err(e) => n_at(old(reader).big, old(reader).data@, old(reader).pos as nat, 2) == Err::<
                (nat, nat),
                ErrorView,
            >(e@),
        },
{
    match reader.read_u16() {
        Some(x) => Ok(x),
        None => Err(short_data_error()),
    }
}

fn next_u32(reader: &mut Reader) -> (r: Result<u32, DynamicError>)
    requires
        old(reader).wf(),
    ensures
        match r {
            Ok(x) => {
                &&& n_at(old(reader).big, old(reader).data@, old(reader).pos as nat, 4) == Ok::<
                    (nat, nat),
                    ErrorView,
                >((x as nat, final(reader).pos as nat))
                &&& old(reader).moved_to(final(reader), final(reader).pos as nat)
            },
            Err(e) => n_at(old(reader).big, old(reader).data@, old(reader).pos as nat, 4) == Err::<
                (nat, nat),
                ErrorView,
            >(e@),
        },
{
    match reader.read_u32() {
        Some(x) => Ok(x),
        None => Err(short_data_error()),
    }
}

fn next_u64(reader: &mut Reader) -> (r: Result<u64, DynamicError>)
    requires
        old(reader).wf(),
    ensures
        match r {
            Ok(x) => {
                &&& n_at(old(reader).big, old(reader).data@, old(reader).pos as nat, 8) == Ok::<
                    (nat, nat),
                    ErrorView,
                >((x as nat, final(reader).pos as nat))
                &&& old(reader).moved_to(final(reader), final(reader).pos as nat)
            },
            Err(e) => n_at(old(reader).big, old(reader).data@, old(reader).pos as nat, 8) == Err::<
                (nat, nat),
                ErrorView,
            >(e@),
        },
{
    match reader.read_u64() {
        Some(x) => Ok(x),
        None => Err(short_data_error()),
    }
}

/// `String::from_utf8`: the text that the bytes encode, if they are valid UTF-8.
#[verifier::external_body]
fn text_from_utf8(bytes: Vec<u8>) -> (r: Option<String>)
    ensures
        match r {
            Some(s) => valid_utf8(bytes@) && s@ == decode_utf8(bytes@),
            None => !valid_utf8(bytes@),
        },
{
    String::from_utf8(bytes).ok()
}

fn next_bytes(reader: &mut Reader) -> (r: Result<Vec<u8>, DynamicError>)
    requires
        old(reader).wf(),
    ensures
        match r {
            Ok(b) => {
                &&& bytes_at(old(reader).big, old(reader).data@, old(reader).pos as nat) == Ok::<
                    (Seq<u8>, nat),
                    ErrorView,
                >((b@, final(reader).pos as nat))
                &&& old(reader).moved_to(final(reader), final(reader).pos as nat)
            },
            Err(e) => bytes_at(old(reader).big, old(reader).data@, old(reader).pos as nat) == Err::<
                (Seq<u8>, nat),
                ErrorView,
            >(e@),
        },
{
    let n: u32 = next_u32(reader)?;
    match reader.read_bytes(n as usize) {
        Some(b) => Ok(b),
        None => Err(short_data_error()),
    }
}

fn next_string(reader: &mut Reader) -> (r: Result<String, DynamicError>)
    requires
        old(reader).wf(),
    ensures
        match r {
            Ok(s) => {
                &&& string_at(old(reader).big, old(reader).data@, old(reader).pos as nat) == Ok::<
                    (Seq<char>, nat),
                    ErrorView,
                >((s@, final(reader).pos as nat))
                &&& old(reader).moved_to(final(reader), final(reader).pos as nat)
            },
            Err(e) => string_at(old(reader).big, old(reader).data@, old(reader).pos as nat)
                == Err::<(Seq<char>, nat), ErrorView>(e@),
        },
{
    let mut bytes: Vec<u8> = next_bytes(reader)?;
    let ghost all = bytes@;
    if bytes.len() > 0 && bytes[bytes.len() - 1] == 0 {
        bytes.pop();
    }
    assert(bytes@ =~= without_nul(all));
    match text_from_utf8(bytes) {
        Some(s) => Ok(s),
        None => Err(DynamicError::DeserializationError("invalid UTF-8 in CDR string".to_owned())),
    }
}

proof fn units_error_stays(big: bool, data: Seq<u8>, pos: nat, n: nat, k: nat)
    requires
        n <= k,
        units_at(big, data, pos, n) is Err,
    ensures
        units_at(big, data, pos, k) == units_at(big, data, pos, n),
    decreases k - n,
{
    if n < k {
        units_error_stays(big, data, pos, n, (k - 1) as nat);
    }
}

/// Reads a wide string of at most `max_units` code units.
fn read_wstring(reader: &mut Reader, max_units: Option<usize>) -> (r: Result<String, DynamicError>)
    requires
        old(reader).wf(),
    ensures
        ({
            let max = match max_units {
                Some(m) => Some(m as nat),
                None => None,
            };
            match r {
                Ok(s) => {
                    &&& wstring_at(
                        old(reader).big,
                        old(reader).data@,
                        old(reader).pos as nat,
                        max,
                    ) == Ok::<(Seq<char>, nat), ErrorView>((s@, final(reader).pos as nat))
                    &&& old(reader).moved_to(final(reader), final(reader).pos as nat)
                },
                Err(e) => wstring_at(
                    old(reader).big,
                    old(reader).data@,
                    old(reader).pos as nat,
                    max,
                ) == Err::<(Seq<char>, nat), ErrorView>(e@),
            }
        }),
{
    let unit_count: usize = next_u32(reader)? as usize;
    match max_units {
        Some(max) => {
            if unit_count > max {
                return Err(DynamicError::BoundExceeded { max, actual: unit_count });
            }
        },
        None => {},
    }
    let byte_count: usize = match unit_count.checked_mul(4) {
        Some(n) => n,
        None => return Err(
            DynamicError::DeserializationError("wide string byte length overflow".to_owned()),
        ),
    };
    if byte_count > reader.remaining() {
        return Err(
            DynamicError::DeserializationError(
                "wide string length exceeds remaining payload".to_owned(),
            ),
        );
    }
    let ghost big = reader.big;
    let ghost data = reader.data@;
    let ghost start = reader.pos as nat;
    let mut units: Vec<u16> = Vec::new();
    assert(units@ =~= Seq::<u16>::empty());
    let mut i: usize = 0;
    while i < unit_count
        invariant
            i <= unit_count,
            reader.wf(),
            reader.big == big,
            reader.data@ == data,
            units_at(big, data, start, i as nat) == Ok::<(Seq<u16>, nat), ErrorView>(
                (units@, reader.pos as nat),
            ),
            old(reader).big == big,
            old(reader).data@ == data,
            n_at(big, data, old(reader).pos as nat, 4) == Ok::<(nat, nat), ErrorView>(
                (unit_count as nat, start),
            ),
            unit_count * 4 <= usize::MAX,
            unit_count * 4 <= data.len() - start,
            match max_units {
                Some(m) => unit_count <= m,
                None => true,
            },
        decreases unit_count - i,
    {
        match next_u32(reader) {
            Ok(value) => {
                if value > u16::MAX as u32 {
                    let text: String = join2(
                        "wide string code unit exceeds uint16: 0x",
                        &hex_text(value as u64),
                    );
                    proof {
                        units_error_stays(big, data, start, (i + 1) as nat, unit_count as nat);
                    }
                    return Err(DynamicError::DeserializationError(text));
                }
                units.push(value as u16);
            },
            Err(e) => {
                proof {
                    units_error_stays(big, data, start, (i + 1) as nat, unit_count as nat);
                }
                return Err(e);
            },
        }
        i = i + 1;
    }
    match decode_utf16(&units) {
        Some(s) => Ok(s),
        None => Err(
            DynamicError::DeserializationError(
                "invalid UTF-16 wide string: invalid utf-16: lone surrogate found".to_owned(),
            ),
        ),
    }
}

proof fn decoded_elements_error_stays(
    t: TypeView,
    big: bool,
    data: Seq<u8>,
    pos: nat,
    n: nat,
    k: nat,
)
    requires
        n <= k,
        decoded_elements(t, big, data, pos, n) is Err,
    ensures
        decoded_elements(t, big, data, pos, k) == decoded_elements(t, big, data, pos, n),
    decreases k - n,
{
    if n < k {
        decoded_elements_error_stays(t, big, data, pos, n, (k - 1) as nat);
    }
}

proof fn decoded_fields_error_stays(
    fs: Seq<FieldView>,
    big: bool,
    data: Seq<u8>,
    pos: nat,
    n: nat,
    k: nat,
)
    requires
        n <= k <= fs.len(),
        decoded_fields(fs, big, data, pos, n) is Err,
    ensures
        decoded_fields(fs, big, data, pos, k) == decoded_fields(fs, big, data, pos, n),
    decreases k - n,
{
    if n < k {
        decoded_fields_error_stays(fs, big, data, pos, n, (k - 1) as nat);
    }
}

/// Reads a value of type `field_type`.
fn deserialize_value(field_type: &FieldType, reader: &mut Reader) -> (r: Result<
    DynamicValue,
    DynamicError,
>)
    requires
        old(reader).wf(),
    ensures
        match r {
            Ok(v) => {
                &&& decoded(
                    field_type@,
                    old(reader).big,
                    old(reader).data@,
                    old(reader).pos as nat,
                ) == Ok::<(ValueView, nat), ErrorView>((v@, final(reader).pos as nat))
                &&& old(reader).moved_to(final(reader), final(reader).pos as nat)
            },
            Err(e) => decoded(
                field_type@,
                old(reader).big,
                old(reader).data@,
                old(reader).pos as nat,
            ) == Err::<(ValueView, nat), ErrorView>(e@),
        },
    decreases field_type@, 0int,
{
    match field_type {
        FieldType::Bool => {
            let x: u8 = next_u8(reader)?;
            Ok(DynamicValue::Bool(x != 0))
        },
        FieldType::Int8 => {
            let x: u8 = next_u8(reader)?;
            Ok(DynamicValue::Int8(x as i8))
        },
        FieldType::Int16 => {
            let x: u16 = next_u16(reader)?;
            Ok(DynamicValue::Int16(x as i16))
        },
        FieldType::Int32 => {
            let x: u32 = next_u32(reader)?;
            Ok(DynamicValue::Int32(x as i32))
        },
        FieldType::Int64 => {
            let x: u64 = next_u64(reader)?;
            Ok(DynamicValue::Int64(x as i64))
        },
        FieldType::Uint8 | FieldType::Char | FieldType::Byte => {
            let x: u8 = next_u8(reader)?;
            Ok(DynamicValue::Uint8(x))
        },
        FieldType::Uint16 | FieldType::WChar => {
            let x: u16 = next_u16(reader)?;
            Ok(DynamicValue::Uint16(x))
        },
        FieldType::Uint32 => {
            let x: u32 = next_u32(reader)?;
            Ok(DynamicValue::Uint32(x))
        },
        FieldType::Uint64 => {
            let x: u64 = next_u64(reader)?;
            Ok(DynamicValue::Uint64(x))
        },
        FieldType::Float32 => {
            let x: u32 = next_u32(reader)?;
            Ok(DynamicValue::Float32(x))
        },
        FieldType::Float64 => {
            let x: u64 = next_u64(reader)?;
            Ok(DynamicValue::Float64(x))
        },
        FieldType::String | FieldType::BoundedString(_) => {
            let s: String = next_string(reader)?;
            Ok(DynamicValue::String(s))
        },
        FieldType::WString => {
            let s: String = read_wstring(reader, None)?;
            Ok(DynamicValue::String(s))
        },
        FieldType::BoundedWString(max) => {
            let s: String = read_wstring(reader, Some(*max))?;
            Ok(DynamicValue::String(s))
        },
        FieldType::Array(inner, len) => {
            let values: Vec<DynamicValue> = deserialize_elements(&**inner, *len, reader)?;
            Ok(DynamicValue::Array(values))
        },
        FieldType::Sequence(inner) => {
            if is_byte_type(&**inner) {
                let bytes: Vec<u8> = next_bytes(reader)?;
                return Ok(DynamicValue::Bytes(bytes));
            }
            let len: u32 = next_u32(reader)?;
            let values: Vec<DynamicValue> = deserialize_elements(
                &**inner,
                len as usize,
                reader,
            )?;
            Ok(DynamicValue::Array(values))
        },
        FieldType::BoundedSequence(inner, _) => {
            if is_byte_type(&**inner) {
                let bytes: Vec<u8> = next_bytes(reader)?;
                return Ok(DynamicValue::Bytes(bytes));
            }
            let len: u32 = next_u32(reader)?;
            let values: Vec<DynamicValue> = deserialize_elements(
                &**inner,
                len as usize,
                reader,
            )?;
            Ok(DynamicValue::Array(values))
        },
        FieldType::Message(schema) => {
            let msg: DynamicMessage = deserialize_message(schema, reader)?;
            Ok(DynamicValue::Message(Box::new(msg)))
        },
    }
}

/// Reads `len` values of type `inner`.
fn deserialize_elements(inner: &FieldType, len: usize, reader: &mut Reader) -> (r: Result<
    Vec<DynamicValue>,
    DynamicError,
>)
    requires
        old(reader).wf(),
    ensures
        match r {
            Ok(vs) => {
                &&& decoded_elements(
                    inner@,
                    old(reader).big,
                    old(reader).data@,
                    old(reader).pos as nat,
                    len as nat,
                ) == Ok::<(Seq<ValueView>, nat), ErrorView>(
                    (values_view(vs@), final(reader).pos as nat),
                )
                &&& old(reader).moved_to(final(reader), final(reader).pos as nat)
            },
            Err(e) => decoded_elements(
                inner@,
                old(reader).big,
                old(reader).data@,
                old(reader).pos as nat,
                len as nat,
            ) == Err::<(Seq<ValueView>, nat), ErrorView>(e@),
        },
    decreases inner@, 1int,
{
    let ghost big = reader.big;
    let ghost data = reader.data@;
    let ghost start = reader.pos as nat;
    let mut values: Vec<DynamicValue> = Vec::new();
    let mut i: usize = 0;
    assert(values_view(values@) =~= Seq::<ValueView>::empty());
    while i < len
        invariant
            i <= len,
            reader.wf(),
            reader.big == big,
            reader.data@ == data,
            old(reader).big == big,
            old(reader).data@ == data,
            old(reader).pos == start,
            decoded_elements(inner@, big, data, start, i as nat) == Ok::<
                (Seq<ValueView>, nat),
                ErrorView,
            >((values_view(values@), reader.pos as nat)),
        decreases len - i,
    {
        match deserialize_value(inner, reader) {
            Ok(v) => {
                let ghost before = values@;
                values.push(v);
                assert(values_view(values@) =~= values_view(before).push(v@));
            },
            Err(e) => {
                proof {
                    decoded_elements_error_stays(
                        inner@,
                        big,
                        data,
                        start,
                        (i + 1) as nat,
                        len as nat,
                    );
                }
                return Err(e);
            },
        }
        i = i + 1;
    }
    Ok(values)
}

/// Reads a message of the given schema.
fn deserialize_message(schema: &Arc<MessageSchema>, reader: &mut Reader) -> (r: Result<
    DynamicMessage,
    DynamicError,
>)
    requires
        old(reader).wf(),
    ensures
        match r {
            Ok(m) => {
                &&& decoded_message(
                    schema@,
                    old(reader).big,
                    old(reader).data@,
                    old(reader).pos as nat,
                ) == Ok::<(MessageView, nat), ErrorView>((m@, final(reader).pos as nat))
                &&& m.schema == *schema
                &&& old(reader).moved_to(final(reader), final(reader).pos as nat)
            },
            Err(e) => decoded_message(
                schema@,
                old(reader).big,
                old(reader).data@,
                old(reader).pos as nat,
            ) == Err::<(MessageView, nat), ErrorView>(e@),
        },
    decreases schema@, 0int,
{
    let ghost big = reader.big;
    let ghost data = reader.data@;
    let ghost start = reader.pos as nat;
    let ghost fs = schema@.fields;
    let mut values: Vec<DynamicValue> = Vec::new();
    let mut i: usize = 0;
    assert(values_view(values@) =~= Seq::<ValueView>::empty());
    while i < schema.fields.len()
        invariant
            i <= schema.fields@.len(),
            reader.wf(),
            reader.big == big,
            reader.data@ == data,
            old(reader).big == big,
            old(reader).data@ == data,
            old(reader).pos == start,
            fs == schema@.fields,
            fs == fields_view(schema.fields@),
            decoded_fields(fs, big, data, start, i as nat) == Ok::<
                (Seq<ValueView>, nat),
                ErrorView,
            >((values_view(values@), reader.pos as nat)),
        decreases schema.fields@.len() - i,
    {
        assert(fs[i as int] == schema.fields@[i as int]@);
        assert(decreases_to!(schema@ => fs));
        assert(decreases_to!(fs => fs[i as int]));
        assert(decreases_to!(fs[i as int] => fs[i as int].field_type));
        match deserialize_value(&schema.fields[i].field_type, reader) {
            Ok(v) => {
                let ghost before = values@;
                values.push(v);
                assert(values_view(values@) =~= values_view(before).push(v@));
            },
            Err(e) => {
                proof {
                    decoded_fields_error_stays(fs, big, data, start, (i + 1) as nat, fs.len());
                }
                return Err(e);
            },
        }
        i = i + 1;
    }
    Ok(DynamicMessage { schema: share(schema), values })
}

/// Reads a payload, in the byte order given, as a message of the given schema.
fn deserialize_payload(payload: &[u8], big: bool, schema: &Arc<MessageSchema>) -> (r: Result<
    DynamicMessage,
    DynamicError,
>)
    ensures
        match r {
            Ok(m) => {
                &&& decoded_message(schema@, big, payload@, 0) matches Ok((v, _)) && v == m@
                &&& m.schema == *schema
            },
            Err(e) => decoded_message(schema@, big, payload@, 0) == Err::<
                (MessageView, nat),
                ErrorView,
            >(e@),
        },
{
    let mut reader = Reader { data: payload, pos: 0, big };
    deserialize_message(schema, &mut reader)
}

/// The message of the given schema that `data` encodes.
pub fn deserialize_cdr(data: &[u8], schema: &Arc<MessageSchema>) -> (r: Result<
    DynamicMessage,
    DynamicError,
>)
    ensures
        match r {
            Ok(m) => cdr_message(data@, schema@) == Ok::<MessageView, ErrorView>(m@) && m.schema
                == *schema,
            Err(e) => cdr_message(data@, schema@) == Err::<MessageView, ErrorView>(e@),
        },
{
    if data.len() < 4 {
        return Err(
            DynamicError::DeserializationError("CDR data too short for header".to_owned()),
        );
    }
    let first: u8 = data[0];
    let second: u8 = data[1];
    if first == 0 && second <= 1 {
        let payload = vstd::slice::slice_subrange(data, 4, data.len());
        assert(payload@ =~= data@.skip(4));
        deserialize_payload(payload, second == 0, schema)
    } else {
        let mut text: String = join2(
            "Unsupported CDR encapsulation identifier: [",
            &decimal_text(first as u64),
        );
        text.append(", ");
        text.append(&decimal_text(second as u64));
        text.append("]");
        Err(DynamicError::DeserializationError(text))
    }
}

/// Whether decoding gives `v` back for type `t`: bytes of a sequence stand in
/// one piece, arrays and messages have the declared number of values, messages
/// carry the declared schema, and lengths fit their prefixes.
pub open spec fn plain(t: TypeView, v: ValueView) -> bool
    decreases v, 0int,
{
    match (t, v) {
        (TypeView::Bool, ValueView::Bool(_)) => true,
        (TypeView::Int8, ValueView::Int8(_)) => true,
        (TypeView::Int16, ValueView::Int16(_)) => true,
        (TypeView::Int32, ValueView::Int32(_)) => true,
        (TypeView::Int64, ValueView::Int64(_)) => true,
        (TypeView::Uint8, ValueView::Uint8(_)) => true,
        (TypeView::Char, ValueView::Uint8(_)) => true,
        (TypeView::Byte, ValueView::Uint8(_)) => true,
        (TypeView::Uint16, ValueView::Uint16(_)) => true,
        (TypeView::WChar, ValueView::Uint16(_)) => true,
        (TypeView::Uint32, ValueView::Uint32(_)) => true,
        (TypeView::Uint64, ValueView::Uint64(_)) => true,
        (TypeView::Float32, ValueView::Float32(_)) => true,
        (TypeView::Float64, ValueView::Float64(_)) => true,
        (TypeView::String, ValueView::String(s)) => encode_utf8(s).len() < u32::MAX,
        (TypeView::BoundedString(_), ValueView::String(s)) => encode_utf8(s).len() < u32::MAX,
        (TypeView::WString, ValueView::String(_)) => true,
        (TypeView::BoundedWString(_), ValueView::String(_)) => true,
        (TypeView::Array(e, n), ValueView::Array(vs)) => vs.len() == n && plain_elements(
            *e,
            vs,
            vs.len(),
        ),
        (TypeView::Sequence(e), ValueView::Array(vs)) => !byte_type(*e) && vs.len() <= u32::MAX
            && plain_elements(*e, vs, vs.len()),
        (TypeView::BoundedSequence(e, _), ValueView::Array(vs)) => !byte_type(*e) && vs.len()
            <= u32::MAX && plain_elements(*e, vs, vs.len()),
        (TypeView::Sequence(e), ValueView::Bytes(b)) => byte_type(*e) && b.len() <= u32::MAX,
        (TypeView::Message(s), ValueView::Message(m)) => m.schema == *s && plain_message(*m),
        _ => false,
    }
}

/// Whether the first `n` elements are plain.
pub open spec fn plain_elements(t: TypeView, vs: Seq<ValueView>, n: nat) -> bool
    decreases vs, n,
{
    n == 0 || n > vs.len() || plain_elements(t, vs, (n - 1) as nat) && plain(t, vs[n - 1])
}

/// Whether each field of `m` is plain and there is a value for each.
pub open spec fn plain_message(m: MessageView) -> bool
    decreases m, 0int,
{
    m.values.len() == m.schema.fields.len() && plain_fields(
        m.schema.fields,
        m.values,
        m.values.len(),
    )
}

/// Whether the first `n` fields are plain.
pub open spec fn plain_fields(fs: Seq<FieldView>, vs: Seq<ValueView>, n: nat) -> bool
    decreases vs, n,
{
    n == 0 || n > vs.len() || plain_fields(fs, vs, (n - 1) as nat) && plain(
        fs[n - 1].field_type,
        vs[n - 1],
    )
}

proof fn prefix_chain(a: Seq<u8>, b: Seq<u8>, c: Seq<u8>)
    requires
        a.is_prefix_of(b),
        b.is_prefix_of(c),
    ensures
        a.is_prefix_of(c),
{
    assert(a =~= c.subrange(0, a.len() as int)) by {
        assert forall|i: int| 0 <= i < a.len() implies a[i] == c[i] by {
            assert(a[i] == b.subrange(0, a.len() as int)[i]);
            assert(b[i] == c.subrange(0, b.len() as int)[i]);
        }
    }
}

/// A payload is a prefix of what it grows into.
proof fn growth_keeps_payload(out: Seq<u8>, n: nat, more: Seq<u8>)
    requires
        n == 2 || n == 4 || n == 8,
    ensures
        out.is_prefix_of(padded(out, n) + more),
{
    assert(out =~= (padded(out, n) + more).subrange(0, out.len() as int));
}

proof fn string_reads_back(out: Seq<u8>, s: Seq<char>, data: Seq<u8>)
    requires
        encode_utf8(s).len() < u32::MAX,
        with_string(out, s).is_prefix_of(data),
    ensures
        out.is_prefix_of(with_string(out, s)),
        string_at(false, data, out.len()) == Ok::<(Seq<char>, nat), ErrorView>(
            (s, with_string(out, s).len()),
        ),
{
    byte_ranges();
    let b = encode_utf8(s);
    let n = b.len() + 1;
    assert(prefix_of(n) == n);
    let head = with_u32(out, n);
    let whole = with_string(out, s);
    growth_keeps_payload(out, 4, le_bytes(n, 4));
    assert(head.is_prefix_of(whole)) by {
        assert(head =~= whole.subrange(0, head.len() as int));
    }
    prefix_chain(out, head, whole);
    prefix_chain(head, whole, data);
    written_number_reads_back(out, n, 4, data);
    let start = head.len();
    assert(data.subrange(start as int, (start + n) as int) =~= b.push(0u8)) by {
        assert forall|i: int| 0 <= i < n implies data[start + i] == b.push(0u8)[i] by {
            assert(whole[start + i] == data.subrange(0, whole.len() as int)[start + i]);
        }
    }
    assert(without_nul(b.push(0u8)) =~= b);
    vstd::utf8::encode_utf8_valid_utf8(s);
    vstd::utf8::encode_utf8_decode_utf8(s);
}

proof fn units_read_back(out: Seq<u8>, units: Seq<u16>, data: Seq<u8>)
    requires
        with_units(out, units).is_prefix_of(data),
    ensures
        out.is_prefix_of(with_units(out, units)),
        with_units(out, units).len() >= out.len() + 4 * units.len(),
        units_at(false, data, out.len(), units.len()) == Ok::<(Seq<u16>, nat), ErrorView>(
            (units, with_units(out, units).len()),
        ),
    decreases units.len(),
{
    if units.len() == 0 {
        assert(units =~= Seq::<u16>::empty());
        assert(out =~= out.subrange(0, out.len() as int));
    } else {
        let before = with_units(out, units.drop_last());
        let x = units.last() as nat;
        byte_ranges();
        growth_keeps_payload(before, 4, le_bytes(x, 4));
        prefix_chain(before, with_units(out, units), data);
        units_read_back(out, units.drop_last(), data);
        prefix_chain(out, before, with_units(out, units));
        written_number_reads_back(before, x, 4, data);
        crate::dynamic::serialization::wire::le_round_trip(x, 4);
        assert(units.drop_last().push(units.last()) =~= units);
        assert(x as u16 == units.last());
    }
}

proof fn wstring_reads_back(out: Seq<u8>, s: Seq<char>, max: Option<nat>, after: Seq<u8>, data: Seq<u8>)
    requires
        with_wstring(out, s, max) == Ok::<Seq<u8>, Refusal>(after),
        after.is_prefix_of(data),
        data.len() <= usize::MAX,
    ensures
        out.is_prefix_of(after),
        wstring_at(false, data, out.len(), max) == Ok::<(Seq<char>, nat), ErrorView>(
            (s, after.len()),
        ),
{
    let units = utf16(s);
    let n = units.len();
    byte_ranges();
    let head = with_u32(out, n);
    growth_keeps_payload(out, 4, le_bytes(n, 4));
    units_read_back(head, units, data);
    prefix_chain(out, head, after);
    prefix_chain(head, after, data);
    written_number_reads_back(out, n, 4, data);
    utf16_round_trip(s);
}

/// A plain value that was encoded is decoded again.
proof fn value_reads_back(t: TypeView, v: ValueView, out: Seq<u8>, after: Seq<u8>, data: Seq<u8>)
    requires
        plain(t, v),
        encoded(t, v, out) == Ok::<Seq<u8>, Refusal>(after),
        after.is_prefix_of(data),
        data.len() <= usize::MAX,
    ensures
        out.is_prefix_of(after),
        decoded(t, false, data, out.len()) == Ok::<(ValueView, nat), ErrorView>((v, after.len())),
    decreases v, 0int,
{
    byte_ranges();
    match (t, v) {
        (TypeView::Bool, ValueView::Bool(x)) => {
            byte_reads_back(out, if x { 1u8 } else { 0u8 }, data);
        },
        (TypeView::Int8, ValueView::Int8(x)) => {
            byte_reads_back(out, x as u8, data);
            assert((x as u8) as i8 == x) by (bit_vector);
        },
        (TypeView::Int16, ValueView::Int16(x)) => {
            growth_keeps_payload(out, 2, le_bytes(x as u16 as nat, 2));
            written_number_reads_back(out, x as u16 as nat, 2, data);
            assert((x as u16) as i16 == x) by (bit_vector);
        },
        (TypeView::Int32, ValueView::Int32(x)) => {
            growth_keeps_payload(out, 4, le_bytes(x as u32 as nat, 4));
            written_number_reads_back(out, x as u32 as nat, 4, data);
            assert((x as u32) as i32 == x) by (bit_vector);
        },
        (TypeView::Int64, ValueView::Int64(x)) => {
            growth_keeps_payload(out, 8, le_bytes(x as u64 as nat, 8));
            written_number_reads_back(out, x as u64 as nat, 8, data);
            assert((x as u64) as i64 == x) by (bit_vector);
        },
        (TypeView::Uint8, ValueView::Uint8(x)) => byte_reads_back(out, x, data),
        (TypeView::Char, ValueView::Uint8(x)) => byte_reads_back(out, x, data),
        (TypeView::Byte, ValueView::Uint8(x)) => byte_reads_back(out, x, data),
        (TypeView::Uint16, ValueView::Uint16(x)) => {
            growth_keeps_payload(out, 2, le_bytes(x as nat, 2));
            written_number_reads_back(out, x as nat, 2, data);
        },
        (TypeView::WChar, ValueView::Uint16(x)) => {
            growth_keeps_payload(out, 2, le_bytes(x as nat, 2));
            written_number_reads_back(out, x as nat, 2, data);
        },
        (TypeView::Uint32, ValueView::Uint32(x)) => {
            growth_keeps_payload(out, 4, le_bytes(x as nat, 4));
            written_number_reads_back(out, x as nat, 4, data);
        },
        (TypeView::Uint64, ValueView::Uint64(x)) => {
            growth_keeps_payload(out, 8, le_bytes(x as nat, 8));
            written_number_reads_back(out, x as nat, 8, data);
        },
        (TypeView::Float32, ValueView::Float32(x)) => {
            growth_keeps_payload(out, 4, le_bytes(x as nat, 4));
            written_number_reads_back(out, x as nat, 4, data);
        },
        (TypeView::Float64, ValueView::Float64(x)) => {
            growth_keeps_payload(out, 8, le_bytes(x as nat, 8));
            written_number_reads_back(out, x as nat, 8, data);
        },
        (TypeView::String, ValueView::String(s)) => string_reads_back(out, s, data),
        (TypeView::BoundedString(_), ValueView::String(s)) => string_reads_back(out, s, data),
        (TypeView::WString, ValueView::String(s)) => wstring_reads_back(out, s, None, after, data),
        (TypeView::BoundedWString(max), ValueView::String(s)) => wstring_reads_back(
            out,
            s,
            Some(max),
            after,
            data,
        ),
        (TypeView::Array(e, _), ValueView::Array(vs)) => {
            elements_read_back(*e, vs, vs.len(), out, after, data);
        },
        (TypeView::Sequence(e), ValueView::Array(vs)) => {
            counted_elements_read_back(*e, vs, out, after, data);
        },
        (TypeView::BoundedSequence(e, _), ValueView::Array(vs)) => {
            counted_elements_read_back(*e, vs, out, after, data);
        },
        (TypeView::Sequence(e), ValueView::Bytes(b)) => {
            let n = b.len();
            let head = with_u32(out, n);
            assert(prefix_of(n) == n);
            growth_keeps_payload(out, 4, le_bytes(n, 4));
            assert(head =~= after.subrange(0, head.len() as int));
            prefix_chain(out, head, after);
            prefix_chain(head, after, data);
            written_number_reads_back(out, n, 4, data);
            assert(data.subrange(head.len() as int, (head.len() + n) as int) =~= b) by {
                assert forall|i: int| 0 <= i < n implies data[head.len() + i] == b[i] by {
                    assert(after[head.len() + i] == data.subrange(
                        0,
                        after.len() as int,
                    )[head.len() + i]);
                }
            }
        },
        (TypeView::Message(s), ValueView::Message(m)) => {
            message_reads_back(*m, out, after, data);
        },
        _ => {},
    }
}

proof fn byte_reads_back(out: Seq<u8>, x: u8, data: Seq<u8>)
    requires
        out.push(x).is_prefix_of(data),
    ensures
        out.is_prefix_of(out.push(x)),
        u8_at(data, out.len()) == Ok::<(u8, nat), ErrorView>((x, out.push(x).len())),
{
    assert(out =~= out.push(x).subrange(0, out.len() as int));
    assert(data.subrange(0, out.push(x).len() as int)[out.len() as int] == x);
}

proof fn counted_elements_read_back(
    t: TypeView,
    vs: Seq<ValueView>,
    out: Seq<u8>,
    after: Seq<u8>,
    data: Seq<u8>,
)
    requires
        vs.len() <= u32::MAX,
        plain_elements(t, vs, vs.len()),
        encoded_elements(t, vs, vs.len(), with_u32(out, prefix_of(vs.len()))) == Ok::<
            Seq<u8>,
            Refusal,
        >(after),
        after.is_prefix_of(data),
        data.len() <= usize::MAX,
    ensures
        out.is_prefix_of(after),
        n_at(false, data, out.len(), 4) == Ok::<(nat, nat), ErrorView>(
            (vs.len(), with_u32(out, vs.len()).len()),
        ),
        decoded_elements(t, false, data, with_u32(out, vs.len()).len(), vs.len()) == Ok::<
            (Seq<ValueView>, nat),
            ErrorView,
        >((vs, after.len())),
    decreases vs, vs.len() + 1,
{
    byte_ranges();
    let n = vs.len();
    let head = with_u32(out, n);
    assert(prefix_of(n) == n);
    growth_keeps_payload(out, 4, le_bytes(n, 4));
    elements_read_back(t, vs, n, head, after, data);
    prefix_chain(out, head, after);
    prefix_chain(head, after, data);
    written_number_reads_back(out, n, 4, data);
    assert(vs.take(n as int) =~= vs);
}

proof fn elements_read_back(
    t: TypeView,
    vs: Seq<ValueView>,
    n: nat,
    out: Seq<u8>,
    after: Seq<u8>,
    data: Seq<u8>,
)
    requires
        n <= vs.len(),
        plain_elements(t, vs, n),
        encoded_elements(t, vs, n, out) == Ok::<Seq<u8>, Refusal>(after),
        after.is_prefix_of(data),
        data.len() <= usize::MAX,
    ensures
        out.is_prefix_of(after),
        decoded_elements(t, false, data, out.len(), n) == Ok::<(Seq<ValueView>, nat), ErrorView>(
            (vs.take(n as int), after.len()),
        ),
        n == vs.len() ==> vs.take(n as int) == vs,
    decreases vs, n,
{
    if n == 0 {
        assert(out =~= out.subrange(0, out.len() as int));
        assert(vs.take(0) =~= Seq::<ValueView>::empty());
    } else {
        let before = encoded_elements(t, vs, (n - 1) as nat, out)->Ok_0;
        value_reads_back(t, vs[n - 1], before, after, data);
        prefix_chain(before, after, data);
        elements_read_back(t, vs, (n - 1) as nat, out, before, data);
        prefix_chain(out, before, after);
        assert(vs.take(n - 1).push(vs[n - 1]) =~= vs.take(n as int));
    }
    if n == vs.len() {
        assert(vs.take(n as int) =~= vs);
    }
}

proof fn message_reads_back(m: MessageView, out: Seq<u8>, after: Seq<u8>, data: Seq<u8>)
    requires
        plain_message(m),
        encoded_message(m, out) == Ok::<Seq<u8>, Refusal>(after),
        after.is_prefix_of(data),
        data.len() <= usize::MAX,
    ensures
        out.is_prefix_of(after),
        decoded_message(m.schema, false, data, out.len()) == Ok::<(MessageView, nat), ErrorView>(
            (m, after.len()),
        ),
    decreases m, 0int,
{
    fields_read_back(m.schema.fields, m.values, m.values.len(), out, after, data);
    assert(m.values.take(m.values.len() as int) =~= m.values);
}

proof fn fields_read_back(
    fs: Seq<FieldView>,
    vs: Seq<ValueView>,
    n: nat,
    out: Seq<u8>,
    after: Seq<u8>,
    data: Seq<u8>,
)
    requires
        n <= vs.len(),
        vs.len() == fs.len(),
        plain_fields(fs, vs, n),
        encoded_fields(fs, vs, n, out) == Ok::<Seq<u8>, Refusal>(after),
        after.is_prefix_of(data),
        data.len() <= usize::MAX,
    ensures
        out.is_prefix_of(after),
        decoded_fields(fs, false, data, out.len(), n) == Ok::<(Seq<ValueView>, nat), ErrorView>(
            (vs.take(n as int), after.len()),
        ),
    decreases vs, n,
{
    if n == 0 {
        assert(out =~= out.subrange(0, out.len() as int));
        assert(vs.take(0) =~= Seq::<ValueView>::empty());
    } else {
        let before = encoded_fields(fs, vs, (n - 1) as nat, out)->Ok_0;
        value_reads_back(fs[n - 1].field_type, vs[n - 1], before, after, data);
        prefix_chain(before, after, data);
        fields_read_back(fs, vs, (n - 1) as nat, out, before, data);
        prefix_chain(out, before, after);
        assert(vs.take(n - 1).push(vs[n - 1]) =~= vs.take(n as int));
    }
}

/// A plain message that was encoded is decoded again, whatever bytes follow it.
pub proof fn encoded_messages_decode(m: MessageView, bytes: Seq<u8>, more: Seq<u8>)
    requires
        plain_message(m),
        cdr_bytes(m) == Ok::<Seq<u8>, Refusal>(bytes),
        bytes.len() + more.len() <= usize::MAX,
    ensures
        cdr_message(bytes + more, m.schema) == Ok::<MessageView, ErrorView>(m),
{
    let payload = encoded_message(m, Seq::empty())->Ok_0;
    let data = (bytes + more).skip(4);
    assert(data =~= payload + more);
    assert(payload =~= data.subrange(0, payload.len() as int));
    message_reads_back(m, Seq::empty(), payload, data);
}

/// Whether no sequence with a bound holds its bytes in one piece, which is
/// accepted as a value but has no encoding.
pub open spec fn encodable(t: TypeView, v: ValueView) -> bool
    decreases v, 0int,
{
    match (t, v) {
        (TypeView::BoundedSequence(_, _), ValueView::Bytes(_)) => false,
        (TypeView::Array(e, _), ValueView::Array(vs)) => encodable_elements(*e, vs, vs.len()),
        (TypeView::Sequence(e), ValueView::Array(vs)) => encodable_elements(*e, vs, vs.len()),
        (TypeView::BoundedSequence(e, _), ValueView::Array(vs)) => encodable_elements(
            *e,
            vs,
            vs.len(),
        ),
        (TypeView::Message(_), ValueView::Message(m)) => encodable_message(*m),
        _ => true,
    }
}

pub open spec fn encodable_elements(t: TypeView, vs: Seq<ValueView>, n: nat) -> bool
    decreases vs, n,
{
    n == 0 || n > vs.len() || encodable_elements(t, vs, (n - 1) as nat) && encodable(t, vs[n - 1])
}

pub open spec fn encodable_message(m: MessageView) -> bool
    decreases m, 0int,
{
    encodable_fields(m.schema.fields, m.values, m.values.len())
}

pub open spec fn encodable_fields(fs: Seq<FieldView>, vs: Seq<ValueView>, n: nat) -> bool
    decreases vs, n,
{
    n == 0 || n > vs.len() || encodable_fields(fs, vs, (n - 1) as nat) && encodable(
        fs[n - 1].field_type,
        vs[n - 1],
    )
}

proof fn accepted_values_encode(t: TypeView, v: ValueView, path: Seq<char>, out: Seq<u8>)
    requires
        violation(t, v, path) is None,
        encodable(t, v),
    ensures
        encoded(t, v, out) is Ok,
    decreases v, 0int,
{
    match (t, v) {
        (TypeView::Array(e, _), ValueView::Array(vs)) => {
            accepted_elements_encode(*e, vs, path, vs.len(), out);
        },
        (TypeView::Sequence(e), ValueView::Array(vs)) => {
            accepted_elements_encode(*e, vs, path, vs.len(), with_u32(out, prefix_of(vs.len())));
        },
        (TypeView::BoundedSequence(e, _), ValueView::Array(vs)) => {
            accepted_elements_encode(*e, vs, path, vs.len(), with_u32(out, prefix_of(vs.len())));
        },
        (TypeView::Message(s), ValueView::Message(m)) => {
            schema_equality_keeps_acceptance(*s, *m, path);
            accepted_message_encodes(*m, path, out);
        },
        _ => {},
    }
}

proof fn elements_accepted(t: TypeView, vs: Seq<ValueView>, path: Seq<char>, i: nat, j: nat)
    requires
        elements_violation(t, vs, path, i) is None,
        i <= j < vs.len(),
    ensures
        violation(t, vs[j as int], element_path(path, j)) is None,
    decreases j - i,
{
    if i < j {
        elements_accepted(t, vs, path, i + 1, j);
    }
}

proof fn accepted_elements_encode(
    t: TypeView,
    vs: Seq<ValueView>,
    path: Seq<char>,
    n: nat,
    out: Seq<u8>,
)
    requires
        n <= vs.len(),
        elements_violation(t, vs, path, 0) is None,
        encodable_elements(t, vs, n),
    ensures
        encoded_elements(t, vs, n, out) is Ok,
    decreases vs, n,
{
    if n > 0 {
        accepted_elements_encode(t, vs, path, (n - 1) as nat, out);
        elements_accepted(t, vs, path, 0, (n - 1) as nat);
        accepted_values_encode(
            t,
            vs[n - 1],
            element_path(path, (n - 1) as nat),
            encoded_elements(t, vs, (n - 1) as nat, out)->Ok_0,
        );
    }
}

proof fn accepted_message_encodes(m: MessageView, path: Seq<char>, out: Seq<u8>)
    requires
        message_violation(m.schema, m, path) is None,
        encodable_message(m),
    ensures
        encoded_message(m, out) is Ok,
    decreases m, 0int,
{
    accepted_fields_encode(m.schema.fields, m.values, path, m.values.len(), out);
}

proof fn accepted_fields_encode(
    fs: Seq<FieldView>,
    vs: Seq<ValueView>,
    path: Seq<char>,
    n: nat,
    out: Seq<u8>,
)
    requires
        n <= vs.len(),
        fields_violation(fs, vs, path, 0) is None,
        encodable_fields(fs, vs, n),
    ensures
        encoded_fields(fs, vs, n, out) is Ok,
    decreases vs, n,
{
    if n > 0 {
        accepted_fields_encode(fs, vs, path, (n - 1) as nat, out);
        fields_accepted_one_by_one(fs, vs, path, 0);
        assert(violation(
            fs[n - 1].field_type,
            vs[n - 1],
            joined(path, fs[n - 1].name),
        ) is None);
        accepted_values_encode(
            fs[n - 1].field_type,
            vs[n - 1],
            joined(path, fs[n - 1].name),
            encoded_fields(fs, vs, (n - 1) as nat, out)->Ok_0,
        );
    }
}

/// A message that passes validation can be encoded.
pub proof fn accepted_messages_encode(m: MessageView)
    requires
        message_violation(m.schema, m, "$"@) is None,
        encodable_message(m),
    ensures
        cdr_bytes(m) is Ok,
{
    accepted_message_encodes(m, "$"@, Seq::empty());
}

} // verus!
