//! Which values are accepted, and where fields are found.

use crate::dynamic::course::{
    check_elements, check_value, Course, Question,
};
use crate::dynamic::error::ErrorView;
use crate::dynamic::message::{
    field_index, path_parts, read_path, store_violation, stored, value_at, write_ends,
    write_refused, write_violation,
};
use crate::dynamic::schema::{FieldView, MessageView, SchemaView, TypeView, ValueView};
use crate::dynamic::serialization::cdr::encoded;
use crate::dynamic::serialization::layout::{byte_values, single_bytes};
use crate::dynamic::validate::{
    element_path, elements_violation, fields_accepted_one_by_one, fields_equal, joined,
    message_violation, schemas_equal, type_label_text, types_equal, violation,
};
use crate::dynamic::wide::utf16;
use crate::text::{decimal, nothing_to_split, split, split_is_not_empty, split_joined};
use vstd::prelude::*;
use vstd::utf8::encode_utf8;

verus! {

/// Whether `t` is a truth value or a number.
pub open spec fn is_number(t: TypeView) -> bool {
    ||| t is Bool
    ||| t is Int8
    ||| t is Int16
    ||| t is Int32
    ||| t is Int64
    ||| t is Uint8
    ||| t is Char
    ||| t is WChar
    ||| t is Byte
    ||| t is Uint16
    ||| t is Uint32
    ||| t is Uint64
    ||| t is Float32
    ||| t is Float64
}

/// A value is accepted as a number of a type just where it can be written as one;
/// what is not accepted is reported with its place and the name of the type.
pub proof fn numbers_are_accepted_where_they_can_be_written(
    t: TypeView,
    v: ValueView,
    path: Seq<char>,
    out: Seq<u8>,
)
    requires
        is_number(t),
    ensures
        violation(t, v, path) is None <==> encoded(t, v, out) is Ok,
        violation(t, v, path) matches Some(e) ==> e == (ErrorView::TypeMismatch {
            path,
            expected: type_label_text(t),
        }),
{
}

/// A string is accepted where none of its bytes is zero and they can be counted in
/// four bytes with the one that ends them; a bounded one where besides they are no
/// more than the bound.
pub proof fn strings_are_accepted_by_their_bytes(s: Seq<char>, max: nat, path: Seq<char>)
    ensures
        ({
            let b = encode_utf8(s);
            let sound = (forall|k: int| 0 <= k < b.len() ==> #[trigger] b[k] != 0) && b.len() + 1
                <= 0xffff_ffff;
            &&& violation(TypeView::String, ValueView::String(s), path) is None <==> sound
            &&& violation(TypeView::BoundedString(max), ValueView::String(s), path) is None <==> (
            sound && b.len() <= max)
            &&& sound && b.len() > max ==> violation(
                TypeView::BoundedString(max),
                ValueView::String(s),
                path,
            ) == Some(ErrorView::FieldBoundExceeded { path, max, actual: b.len() })
            &&& !sound ==> {
                &&& violation(TypeView::String, ValueView::String(s), path) matches Some(e)
                    && e is InvalidString && e->InvalidString_path == path
                &&& violation(TypeView::BoundedString(max), ValueView::String(s), path)
                    == violation(TypeView::String, ValueView::String(s), path)
            }
        }),
{
    let b = encode_utf8(s);
    if forall|k: int| 0 <= k < b.len() ==> #[trigger] b[k] != 0 {
        assert(!b.contains(0u8));
    } else {
        let k = choose|k: int| 0 <= k < b.len() && #[trigger] b[k] == 0;
        assert(b.contains(b[k]));
    }
}

/// A wide string is accepted where none of its code units is zero and they can be
/// counted in four bytes; a bounded one where besides they are no more than the
/// bound.
pub proof fn wide_strings_are_accepted_by_their_units(s: Seq<char>, max: nat, path: Seq<char>)
    ensures
        ({
            let u = utf16(s);
            let sound = (forall|k: int| 0 <= k < u.len() ==> #[trigger] u[k] != 0) && u.len()
                <= 0xffff_ffff;
            &&& violation(TypeView::WString, ValueView::String(s), path) is None <==> sound
            &&& violation(TypeView::BoundedWString(max), ValueView::String(s), path) is None <==> (
            sound && u.len() <= max)
            &&& sound && u.len() > max ==> violation(
                TypeView::BoundedWString(max),
                ValueView::String(s),
                path,
            ) == Some(ErrorView::BoundExceeded { max, actual: u.len() })
            &&& !sound ==> {
                &&& violation(TypeView::WString, ValueView::String(s), path) matches Some(e)
                    && e is InvalidString && e->InvalidString_path == path
                &&& violation(TypeView::BoundedWString(max), ValueView::String(s), path)
                    == violation(TypeView::WString, ValueView::String(s), path)
            }
        }),
{
    let u = utf16(s);
    if forall|k: int| 0 <= k < u.len() ==> #[trigger] u[k] != 0 {
        assert(!u.contains(0u16));
    } else {
        let k = choose|k: int| 0 <= k < u.len() && #[trigger] u[k] == 0;
        assert(u.contains(u[k]));
    }
}

/// The place of element `k` of what stands at `path`.
pub open spec fn place_of(path: Seq<char>, k: nat) -> Seq<char> {
    path + "["@ + decimal(k) + "]"@
}

/// Whether each of `vs` is accepted as a value of type `e`.
pub open spec fn each_accepted(e: TypeView, vs: Seq<ValueView>, path: Seq<char>) -> bool {
    forall|k: nat| k < vs.len() ==> violation(e, vs[k as int], #[trigger] place_of(path, k)) is None
}

/// An array is accepted where it has as many elements as its type says and each is
/// accepted; a sequence where its elements can be counted in four bytes and each is
/// accepted; a bounded one where besides they are no more than the bound.
pub proof fn arrays_are_accepted_by_their_elements(
    e: TypeView,
    n: nat,
    vs: Seq<ValueView>,
    path: Seq<char>,
)
    ensures
        violation(TypeView::Array(Box::new(e), n), ValueView::Array(vs), path) is None <==> (
        vs.len() == n && each_accepted(e, vs, path)),
        vs.len() != n ==> violation(TypeView::Array(Box::new(e), n), ValueView::Array(vs), path)
            == Some(ErrorView::WrongArrayLength { path, expected: n, actual: vs.len() }),
        violation(TypeView::Sequence(Box::new(e)), ValueView::Array(vs), path) is None <==> (
        vs.len() <= 0xffff_ffff && each_accepted(e, vs, path)),
        vs.len() > 0xffff_ffff ==> (violation(
            TypeView::Sequence(Box::new(e)),
            ValueView::Array(vs),
            path,
        ) matches Some(why) && why is SerializationError),
        violation(TypeView::BoundedSequence(Box::new(e), n), ValueView::Array(vs), path) is None
            <==> (vs.len() <= n && vs.len() <= 0xffff_ffff && each_accepted(e, vs, path)),
        n < vs.len() <= 0xffff_ffff ==> violation(
            TypeView::BoundedSequence(Box::new(e), n),
            ValueView::Array(vs),
            path,
        ) == Some(ErrorView::FieldBoundExceeded { path, max: n, actual: vs.len() }),
{
    elements_accepted_one_by_one(e, vs, path, 0);
    assert(elements_violation(e, vs, path, 0) is None <==> each_accepted(e, vs, path)) by {
        if each_accepted(e, vs, path) {
            assert forall|k: int| 0 <= k < vs.len() implies violation(
                e,
                #[trigger] vs[k],
                element_path(path, k as nat),
            ) is None by {
                assert(violation(e, vs[k], place_of(path, k as nat)) is None);
            }
        }
        if elements_violation(e, vs, path, 0) is None {
            assert forall|k: nat| k < vs.len() implies violation(
                e,
                vs[k as int],
                #[trigger] place_of(path, k),
            ) is None by {
                assert(violation(e, vs[k as int], element_path(path, k)) is None);
            }
        }
    }
}

proof fn elements_accepted_one_by_one(
    e: TypeView,
    vs: Seq<ValueView>,
    path: Seq<char>,
    i: nat,
)
    ensures
        elements_violation(e, vs, path, i) is None <==> forall|k: int|
            i <= k < vs.len() ==> violation(e, #[trigger] vs[k], element_path(path, k as nat)) is None,
    decreases vs.len() - i,
{
    if i < vs.len() {
        elements_accepted_one_by_one(e, vs, path, i + 1);
        if violation(e, vs[i as int], element_path(path, i)) is None && elements_violation(
            e,
            vs,
            path,
            i + 1,
        ) is None {
            assert forall|k: int| i <= k < vs.len() implies violation(
                e,
                #[trigger] vs[k],
                element_path(path, k as nat),
            ) is None by {
                if k > i {
                    assert(i + 1 <= k);
                }
            }
        }
    }
}

/// What is reported of an array is what its first element that is not accepted
/// deserves.
pub proof fn the_first_wrong_element_is_reported(
    e: TypeView,
    vs: Seq<ValueView>,
    path: Seq<char>,
    k: nat,
)
    requires
        k < vs.len(),
        violation(e, vs[k as int], place_of(path, k)) is Some,
        forall|j: nat| j < k ==> violation(e, vs[j as int], #[trigger] place_of(path, j)) is None,
    ensures
        violation(TypeView::Array(Box::new(e), vs.len()), ValueView::Array(vs), path) == violation(
            e,
            vs[k as int],
            place_of(path, k),
        ),
{
    first_error(e, vs, path, k, 0);
}

proof fn first_error(e: TypeView, vs: Seq<ValueView>, path: Seq<char>, k: nat, i: nat)
    requires
        i <= k < vs.len(),
        violation(e, vs[k as int], place_of(path, k)) is Some,
        forall|j: nat| j < k ==> violation(e, vs[j as int], #[trigger] place_of(path, j)) is None,
    ensures
        elements_violation(e, vs, path, i) == violation(e, vs[k as int], place_of(path, k)),
    decreases k - i,
{
    if i < k {
        assert(violation(e, vs[i as int], place_of(path, i)) is None);
        first_error(e, vs, path, k, i + 1);
    }
}

/// A string of bytes is accepted as a sequence where the array of these bytes is,
/// and as no sequence of anything but bytes.
pub proof fn byte_strings_are_accepted_as_arrays_of_bytes(
    e: TypeView,
    max: nat,
    b: Seq<u8>,
    path: Seq<char>,
)
    ensures
        single_bytes(e) ==> {
            &&& violation(TypeView::Sequence(Box::new(e)), ValueView::Bytes(b), path) is None
                <==> violation(
                TypeView::Sequence(Box::new(e)),
                ValueView::Array(byte_values(b)),
                path,
            ) is None
            &&& violation(TypeView::BoundedSequence(Box::new(e), max), ValueView::Bytes(b), path)
                is None <==> violation(
                TypeView::BoundedSequence(Box::new(e), max),
                ValueView::Array(byte_values(b)),
                path,
            ) is None
        },
        !single_bytes(e) ==> {
            &&& violation(TypeView::Sequence(Box::new(e)), ValueView::Bytes(b), path) is Some
            &&& violation(TypeView::BoundedSequence(Box::new(e), max), ValueView::Bytes(b), path)
                is Some
        },
{
    if single_bytes(e) {
        arrays_are_accepted_by_their_elements(e, max, byte_values(b), path);
        assert(each_accepted(e, byte_values(b), path));
    }
}

/// A message is accepted where it has the schema asked for and as many values as
/// that has fields, and each value is accepted under the name of its field.
pub proof fn messages_are_accepted_by_their_fields(s: SchemaView, m: MessageView, path: Seq<char>)
    ensures
        violation(TypeView::Message(Box::new(s)), ValueView::Message(Box::new(m)), path) is None
            <==> {
            &&& schemas_equal(s, m.schema)
            &&& s.fields.len() == m.values.len()
            &&& forall|k: int|
                0 <= k < m.values.len() ==> violation(
                    s.fields[k].field_type,
                    #[trigger] m.values[k],
                    joined(path, s.fields[k].name),
                ) is None
        },
        s.fields.len() != m.values.len() ==> message_violation(s, m, path) == Some(
            ErrorView::WrongArrayLength {
                path,
                expected: s.fields.len(),
                actual: m.values.len(),
            },
        ),
        joined(seq![], path) == path,
        path.len() > 0 && s.fields.len() > 0 ==> joined(path, s.fields[0].name) == path + "."@
            + s.fields[0].name,
{
    fields_accepted_one_by_one(s.fields, m.values, path, 0);
}

/// Two schemas are the same where they have the same type name and as many fields,
/// of the same names and types in the same order. Default values, the hash and the
/// parts of the name do not count.
pub proof fn schemas_are_the_same_by_name_and_fields(a: SchemaView, b: SchemaView)
    ensures
        schemas_equal(a, b) <==> {
            &&& a.full_name == b.full_name
            &&& a.fields.len() == b.fields.len()
            &&& forall|k: int|
                0 <= k < a.fields.len() ==> (#[trigger] a.fields[k]).name == b.fields[k].name
                    && types_equal(a.fields[k].field_type, b.fields[k].field_type)
        },
{
    if a.fields.len() == b.fields.len() {
        fields_the_same(a.fields, b.fields, 0);
    }
}

proof fn fields_the_same(a: Seq<FieldView>, b: Seq<FieldView>, i: nat)
    requires
        a.len() == b.len(),
    ensures
        fields_equal(a, b, i) <==> forall|k: int|
            i <= k < a.len() ==> (#[trigger] a[k]).name == b[k].name && types_equal(
                a[k].field_type,
                b[k].field_type,
            ),
    decreases a.len() - i,
{
    if i < a.len() {
        fields_the_same(a, b, i + 1);
        if fields_equal(a, b, i) {
            assert forall|k: int| i <= k < a.len() implies (#[trigger] a[k]).name == b[k].name
                && types_equal(a[k].field_type, b[k].field_type) by {
                if k > i {
                    assert(i + 1 <= k);
                }
            }
        }
    }
}

/// Types are the same only where they are shown alike; arrays and sequences where
/// also their sizes and bounds and the types of their elements are the same, and
/// messages where their schemas are.
pub proof fn types_are_the_same_by_kind_and_parts(a: TypeView, b: TypeView, n: nat, m: nat)
    ensures
        types_equal(a, b) ==> type_label_text(a) == type_label_text(b),
        is_number(a) || a is String || a is WString || a is BoundedString || a is BoundedWString
            ==> (types_equal(a, b) <==> a == b),
        types_equal(TypeView::Array(Box::new(a), n), TypeView::Array(Box::new(b), m)) <==> (n == m
            && types_equal(a, b)),
        types_equal(
            TypeView::BoundedSequence(Box::new(a), n),
            TypeView::BoundedSequence(Box::new(b), m),
        ) <==> (n == m && types_equal(a, b)),
        types_equal(TypeView::Sequence(Box::new(a)), TypeView::Sequence(Box::new(b)))
            <==> types_equal(a, b),
        !types_equal(TypeView::Sequence(Box::new(a)), TypeView::BoundedSequence(Box::new(b), m)),
        !types_equal(TypeView::Array(Box::new(a), n), TypeView::Sequence(Box::new(b))),
        !types_equal(TypeView::Array(Box::new(a), n), TypeView::BoundedSequence(Box::new(b), m)),
{
    match (a, b) {
        (TypeView::Message(x), TypeView::Message(y)) => {
            assert(types_equal(a, b) == schemas_equal(*x, *y));
            schemas_are_the_same_by_name_and_fields(*x, *y);
        },
        _ => {},
    }
}

/// A truth value inside `n` arrays of one element each.
pub open spec fn boxed_type(n: nat) -> TypeView
    decreases n,
{
    if n == 0 {
        TypeView::Bool
    } else {
        TypeView::Array(Box::new(boxed_type((n - 1) as nat)), 1)
    }
}

/// A value of type [`boxed_type`].
pub open spec fn boxed_value(n: nat) -> ValueView
    decreases n,
{
    if n == 0 {
        ValueView::Bool(false)
    } else {
        ValueView::Array(seq![boxed_value((n - 1) as nat)])
    }
}

/// A value may be nested 128 levels deep, and no deeper.
pub proof fn nesting_ends_at_128_levels(n: nat, left: nat, path: Seq<char>)
    requires
        left > n,
    ensures
        check_value(boxed_type(n), boxed_value(n), path, 0, left, seq![]).result == (if n <= 128 {
            None
        } else {
            Some(ErrorView::ResourceLimitExceeded("nesting exceeds 128 levels"@))
        }),
{
    nested_check(n, 0, left, path);
}

proof fn nested_check(n: nat, depth: nat, left: nat, path: Seq<char>)
    requires
        left > n,
    ensures
        ({
            let c = check_value(boxed_type(n), boxed_value(n), path, depth, left, seq![]);
            &&& c.fits
            &&& c.rest == Seq::<Question>::empty()
            &&& c.result == (if depth + n <= 128 {
                None
            } else {
                Some(ErrorView::ResourceLimitExceeded("nesting exceeds 128 levels"@))
            })
        }),
    decreases n,
{
    if n > 0 && depth <= 128 {
        let m = (n - 1) as nat;
        let vs = seq![boxed_value(m)];
        nested_check(m, depth + 1, (left - 1) as nat, element_path(path, 0));
        let first = check_value(
            boxed_type(m),
            boxed_value(m),
            element_path(path, 0),
            depth + 1,
            (left - 1) as nat,
            seq![],
        );
        assert(check_elements(boxed_type(m), vs, path, 1, depth + 1, first.left, first.rest)
            == Course { result: None::<ErrorView>, left: first.left, rest: first.rest, fits: true });
        assert(check_elements(
            boxed_type(m),
            vs,
            path,
            0,
            depth + 1,
            (left - 1) as nat,
            seq![],
        ).result == first.result);
    }
}

/// An array and each of its elements count as one value; a check may visit as many
/// as it was given, and fails at the next.
pub proof fn values_are_counted_one_by_one(n: nat, vs: Seq<ValueView>, left: nat, path: Seq<char>)
    requires
        vs.len() == n,
        forall|k: int| 0 <= k < n ==> #[trigger] vs[k] is Bool,
    ensures
        ({
            let c = check_value(
                TypeView::Array(Box::new(TypeView::Bool), n),
                ValueView::Array(vs),
                path,
                0,
                left,
                seq![],
            );
            if n + 1 <= left {
                c.result is None && c.left == left - n - 1
            } else {
                c.result == Some(
                    ErrorView::ResourceLimitExceeded("message contains more than 1000000 values"@),
                )
            }
        }),
{
    if left > 0 {
        elements_counted(vs, 0, (left - 1) as nat, path);
    }
}

proof fn elements_counted(vs: Seq<ValueView>, i: nat, left: nat, path: Seq<char>)
    requires
        i <= vs.len(),
        forall|k: int| 0 <= k < vs.len() ==> #[trigger] vs[k] is Bool,
    ensures
        ({
            let c = check_elements(TypeView::Bool, vs, path, i, 1, left, seq![]);
            if vs.len() - i <= left {
                c.result is None && c.left == left - (vs.len() - i)
            } else {
                c.result == Some(
                    ErrorView::ResourceLimitExceeded("message contains more than 1000000 values"@),
                )
            }
        }),
    decreases vs.len() - i,
{
    if i < vs.len() {
        assert(vs[i as int] is Bool);
        let first = check_value(TypeView::Bool, vs[i as int], element_path(path, i), 1, left, seq![]);
        if left > 0 {
            assert(first == Course {
                result: None::<ErrorView>,
                left: (left - 1) as nat,
                rest: Seq::<Question>::empty(),
                fits: true,
            });
            elements_counted(vs, i + 1, (left - 1) as nat, path);
        }
    }
}

/// A name finds the first field that has it, and no field where none has.
pub proof fn names_find_the_first_field(fields: Seq<FieldView>, name: Seq<char>)
    ensures
        ({
            let i = field_index(fields, name);
            &&& i <= fields.len()
            &&& i < fields.len() ==> fields[i as int].name == name
            &&& forall|k: int| 0 <= k < i ==> (#[trigger] fields[k]).name != name
        }),
    decreases fields.len(),
{
    if fields.len() > 0 && fields[0].name != name {
        let rest = fields.skip(1);
        names_find_the_first_field(rest, name);
        assert forall|k: int| 0 <= k < field_index(fields, name) implies (#[trigger] fields[k]).name
            != name by {
            if k > 0 {
                assert(rest[k - 1] == fields[k]);
            }
        }
    }
}

/// A field is read by its name, and a field of a nested message by the name of the
/// field that holds the message, a dot and the rest of the path.
pub proof fn paths_lead_through_messages(
    m: MessageView,
    name: Seq<char>,
    rest: Seq<char>,
    i: int,
)
    requires
        m.schema.fields.len() == m.values.len(),
        !name.contains('.'),
        split(rest, '.').len() <= 128,
        0 <= i < m.values.len(),
        m.schema.fields[i].name == name,
        forall|k: int| 0 <= k < i ==> (#[trigger] m.schema.fields[k]).name != name,
    ensures
        read_path(m, name) == Ok::<ValueView, ErrorView>(m.values[i]),
        read_path(m, name + "."@ + rest) == (match m.values[i] {
            ValueView::Message(inner) => read_path(*inner, rest),
            _ => Err(ErrorView::NotAMessage(name)),
        }),
{
    reveal_strlit(".");
    nothing_to_split(name, '.');
    names_find_the_first_field(m.schema.fields, name);
    let at = field_index(m.schema.fields, name) as int;
    assert(at == i) by {
        if at < i {
            assert(m.schema.fields[at].name != name);
        }
        if i < at {
            assert(m.schema.fields[i].name != name);
        }
    }
    let whole = name + "."@ + rest;
    assert(whole =~= name.push('.') + rest);
    split_joined(name, '.', rest);
    assert(path_parts(whole).skip(1) =~= path_parts(rest));
    assert(path_parts(whole)[0] == name);
    split_is_not_empty(rest, '.');
}

/// A name that no field has is reported, and so is a message whose values are not
/// one for each field.
pub proof fn unknown_fields_are_reported(m: MessageView, name: Seq<char>)
    requires
        !name.contains('.'),
    ensures
        m.schema.fields.len() == m.values.len() && (forall|k: int|
            0 <= k < m.schema.fields.len() ==> (#[trigger] m.schema.fields[k]).name != name)
            ==> read_path(m, name) == Err::<ValueView, ErrorView>(ErrorView::FieldNotFound(name)),
        m.schema.fields.len() != m.values.len() ==> read_path(m, name) == Err::<
            ValueView,
            ErrorView,
        >(
            ErrorView::WrongArrayLength {
                path: "$"@,
                expected: m.schema.fields.len(),
                actual: m.values.len(),
            },
        ),
{
    nothing_to_split(name, '.');
    names_find_the_first_field(m.schema.fields, name);
}

/// How many dots there are in `path`.
pub open spec fn dots(path: Seq<char>) -> nat
    decreases path.len(),
{
    if path.len() == 0 {
        0
    } else {
        dots(path.drop_last()) + (if path.last() == '.' {
            1nat
        } else {
            0nat
        })
    }
}

proof fn dots_part_a_path(path: Seq<char>)
    ensures
        split(path, '.').len() == dots(path) + 1,
    decreases path.len(),
{
    if path.len() > 0 {
        dots_part_a_path(path.drop_last());
    }
}

proof fn reading_knows_no_limit(m: MessageView, parts: Seq<Seq<char>>)
    ensures
        value_at(m, parts) matches Err(e) ==> !(e is ResourceLimitExceeded),
    decreases parts.len(),
{
    if parts.len() > 1 {
        let i = field_index(m.schema.fields, parts[0]) as int;
        if let ValueView::Message(inner) = m.values[i] {
            reading_knows_no_limit(*inner, parts.skip(1));
        }
    }
}

/// A path leads down 128 levels at most: one with more dots is refused, whether a
/// value is read or written there, and no other is refused for its length.
pub proof fn paths_lead_down_128_levels(
    m: MessageView,
    path: Seq<char>,
    v: ValueView,
    e: ErrorView,
)
    ensures
        (read_path(m, path) matches Err(x) && x is ResourceLimitExceeded) <==> dots(path) > 128,
        dots(path) > 128 ==> write_violation(m, path, v) == Some(
            ErrorView::ResourceLimitExceeded("field path exceeds 128 nested levels"@),
        ),
        dots(path) > 128 && write_refused(m, path, v, e) ==> e
            == ErrorView::ResourceLimitExceeded("field path exceeds 128 nested levels"@),
        dots(path) > 128 ==> (write_ends(m, path, v, Some(e)) <==> e
            == ErrorView::ResourceLimitExceeded("field path exceeds 128 nested levels"@)),
        dots(path) > 128 ==> !write_ends(m, path, v, None),
        dots(path) <= 128 && m.schema.fields.len() == m.values.len() && (forall|k: int|
            0 <= k < m.schema.fields.len() ==> (#[trigger] m.schema.fields[k]).name != split(
                path,
                '.',
            )[0]) ==> {
            &&& write_violation(m, path, v) == Some(ErrorView::FieldNotFound(split(path, '.')[0]))
            &&& read_path(m, path) == Err::<ValueView, ErrorView>(
                ErrorView::FieldNotFound(split(path, '.')[0]),
            )
            &&& write_refused(m, path, v, e) ==> e == ErrorView::FieldNotFound(
                split(path, '.')[0],
            )
            &&& write_ends(m, path, v, Some(e)) ==> e == ErrorView::FieldNotFound(
                split(path, '.')[0],
            )
        },
{
    dots_part_a_path(path);
    reading_knows_no_limit(m, split(path, '.'));
    names_find_the_first_field(m.schema.fields, split(path, '.')[0]);
}

/// A value is stored at a field where the type of the field accepts it, and a value
/// is stored below a field where the field holds a message of the schema it should,
/// just as it would be stored in that message; the paths in the reports tell where.
pub proof fn values_are_stored_where_they_are_accepted(
    m: MessageView,
    name: Seq<char>,
    rest: Seq<char>,
    i: int,
    v: ValueView,
)
    requires
        m.schema.fields.len() == m.values.len(),
        name.len() > 0,
        !name.contains('.'),
        dots(rest) < 128,
        0 <= i < m.values.len(),
        m.schema.fields[i].name == name,
        forall|k: int| 0 <= k < i ==> (#[trigger] m.schema.fields[k]).name != name,
    ensures
        write_violation(m, name, v) == violation(m.schema.fields[i].field_type, v, name),
        stored(m, path_parts(name), v).values == m.values.update(i, v),
        stored(m, path_parts(name), v).schema == m.schema,
        write_violation(m, name + "."@ + rest, v) is None <==> (match (
            m.schema.fields[i].field_type,
            m.values[i],
        ) {
            (TypeView::Message(s), ValueView::Message(inner)) => schemas_equal(*s, inner.schema)
                && store_violation(*inner, path_parts(rest), v, name) is None,
            _ => false,
        }),
        m.values[i] matches ValueView::Message(inner) ==> {
            let after = stored(m, path_parts(name + "."@ + rest), v);
            &&& after.schema == m.schema
            &&& after.values == m.values.update(
                i,
                ValueView::Message(Box::new(stored(*inner, path_parts(rest), v))),
            )
        },
{
    reveal_strlit(".");
    nothing_to_split(name, '.');
    names_find_the_first_field(m.schema.fields, name);
    let at = field_index(m.schema.fields, name) as int;
    assert(at == i) by {
        if at < i {
            assert(m.schema.fields[at].name != name);
        }
        if i < at {
            assert(m.schema.fields[i].name != name);
        }
    }
    let whole = name + "."@ + rest;
    assert(whole =~= name.push('.') + rest);
    split_joined(name, '.', rest);
    split_is_not_empty(rest, '.');
    dots_part_a_path(rest);
    assert(path_parts(whole).skip(1) =~= path_parts(rest));
    assert(path_parts(whole)[0] == name);
    assert(path_parts(name)[0] == name);
    assert(joined(Seq::empty(), name) == name);
}

} // verus!
