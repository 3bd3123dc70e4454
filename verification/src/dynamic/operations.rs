//! What the operations on dynamic messages do, one by one and together.

use crate::dynamic::error::{DynamicError, ErrorView};
use crate::dynamic::loader::{primitive_type, split_msg_type};
use crate::dynamic::loading::{
    names_itself, primitive_names_name_their_types, types_are_asked_for_in_two_ways,
};
use crate::dynamic::message::{
    options_view, path_parts, stored_value_is_read_back, DynamicMessageBuilder,
};
use crate::dynamic::registry::SchemaRegistry;
use crate::dynamic::schema::{
    fields_view, DynamicMessage, DynamicValue, FieldType, MessageSchema, MessageSchemaBuilder,
    MessageView, SchemaView, TypeView, ValueView,
};
use crate::dynamic::serialization::cdr::{
    cdr_bytes, deserialize_cdr, encoded_messages_decode, plain_message, serialize_cdr,
};
use crate::dynamic::serialization::layout::{
    arrays_of_numbers_take_their_size, ascending, four_bytes, messages_are_their_fields,
    the_header_decides_the_byte_order, the_header_says_ascending, with_field,
};
use crate::dynamic::type_info::{
    canonical_names_are_mangled, dds_names_round_trip, dds_type_name_from_schema, plain_segment,
    ros_type_name_from_dds,
};
use crate::dynamic::validate::{type_label_text, validate_value, violation};
use crate::dynamic::value::{default_for_type, default_view, defaults_view, field_default};
use crate::text::split;
use std::sync::Arc;
use vstd::prelude::*;

verus! {

/// A primitive type name is loaded as the type that is shown by that name.
pub proof fn primitive_types_are_loaded_by_name(base: &str, r: Option<FieldType>)
    requires
        call_ensures(primitive_type, (base,), r),
    ensures
        names_itself(base@) ==> (r matches Some(t) && type_label_text(t@) == base@),
        base@ == "byte"@ ==> (r matches Some(t) && t@ is Int8),
        base@ == "char"@ ==> (r matches Some(t) && t@ is Uint8),
        base@ == "int32"@ ==> (r matches Some(t) && t@ is Int32),
        base@ == "float64"@ ==> (r matches Some(t) && t@ is Float64),
{
    primitive_names_name_their_types(base@);
    if base@ == "int32"@ {
        int32_is_shown_alone(r.unwrap()@);
    }
    if base@ == "float64"@ {
        float64_is_shown_alone(r.unwrap()@);
    }
    if base@ == "byte"@ {
        int8_is_shown_alone(r.unwrap()@);
    }
    if base@ == "char"@ {
        uint8_is_shown_alone(r.unwrap()@);
    }
}

proof fn labels_are_spelled()
    ensures
        "bool"@ == seq!['b', 'o', 'o', 'l'],
        "int8"@ == seq!['i', 'n', 't', '8'],
        "int16"@ == seq!['i', 'n', 't', '1', '6'],
        "int32"@ == seq!['i', 'n', 't', '3', '2'],
        "int64"@ == seq!['i', 'n', 't', '6', '4'],
        "uint8"@ == seq!['u', 'i', 'n', 't', '8'],
        "char"@ == seq!['c', 'h', 'a', 'r'],
        "wchar"@ == seq!['w', 'c', 'h', 'a', 'r'],
        "byte"@ == seq!['b', 'y', 't', 'e'],
        "uint16"@ == seq!['u', 'i', 'n', 't', '1', '6'],
        "uint32"@ == seq!['u', 'i', 'n', 't', '3', '2'],
        "uint64"@ == seq!['u', 'i', 'n', 't', '6', '4'],
        "float32"@ == seq!['f', 'l', 'o', 'a', 't', '3', '2'],
        "float64"@ == seq!['f', 'l', 'o', 'a', 't', '6', '4'],
        "string"@.len() == 6 && "string"@[0] == 's',
        "wstring"@.len() == 7 && "wstring"@[0] == 'w',
        "bounded string"@.len() == 14,
        "bounded wstring"@.len() == 15,
        "message "@.len() == 8,
        "fixed array"@.len() == 11,
        "sequence"@.len() == 8,
        "bounded sequence"@.len() == 16,
{
    reveal_strlit("bool");
    reveal_strlit("int8");
    reveal_strlit("int16");
    reveal_strlit("int32");
    reveal_strlit("int64");
    reveal_strlit("uint8");
    reveal_strlit("char");
    reveal_strlit("wchar");
    reveal_strlit("byte");
    reveal_strlit("uint16");
    reveal_strlit("uint32");
    reveal_strlit("uint64");
    reveal_strlit("float32");
    reveal_strlit("float64");
    reveal_strlit("string");
    reveal_strlit("wstring");
    reveal_strlit("bounded string");
    reveal_strlit("bounded wstring");
    reveal_strlit("message ");
    reveal_strlit("fixed array");
    reveal_strlit("sequence");
    reveal_strlit("bounded sequence");
}

proof fn int32_is_shown_alone(t: TypeView)
    requires
        type_label_text(t) == "int32"@,
    ensures
        t is Int32,
{
    labels_are_spelled();
    let s = type_label_text(t);
    assert(s.len() == 5 && s[0] == 'i' && s[3] == '3');
}

proof fn float64_is_shown_alone(t: TypeView)
    requires
        type_label_text(t) == "float64"@,
    ensures
        t is Float64,
{
    labels_are_spelled();
    let s = type_label_text(t);
    assert(s.len() == 7 && s[0] == 'f' && s[5] == '6');
}

proof fn int8_is_shown_alone(t: TypeView)
    requires
        type_label_text(t) == "int8"@,
    ensures
        t is Int8,
{
    labels_are_spelled();
    let s = type_label_text(t);
    assert(s.len() == 4 && s[0] == 'i');
}

proof fn uint8_is_shown_alone(t: TypeView)
    requires
        type_label_text(t) == "uint8"@,
    ensures
        t is Uint8,
{
    labels_are_spelled();
    let s = type_label_text(t);
    assert(s.len() == 5 && s[0] == 'u');
}

/// The bytes of a message whose only field is a fixed-size array of numbers of four
/// bytes are a header of four bytes and four bytes for each number, which write it.
pub proof fn a_message_of_an_array_is_a_header_and_its_numbers(
    msg: &DynamicMessage,
    r: Result<Vec<u8>, DynamicError>,
    e: TypeView,
    n: nat,
    vs: Seq<ValueView>,
)
    requires
        call_ensures(serialize_cdr, (msg,), r),
        msg@.schema.fields.len() == 1,
        msg@.schema.fields[0].field_type == TypeView::Array(Box::new(e), n),
        msg@.values == seq![ValueView::Array(vs)],
        forall|k: int| 0 <= k < vs.len() ==> four_bytes(e, #[trigger] vs[k]) is Some,
    ensures
        r matches Ok(bytes) && {
            &&& bytes@.len() == 4 + 4 * vs.len()
            &&& bytes@[0] == 0 && bytes@[1] == 1 && bytes@[2] == 0 && bytes@[3] == 0
            &&& forall|k: int|
                #![trigger vs[k]]
                0 <= k < vs.len() ==> four_bytes(e, vs[k]) == Some(ascending(bytes@, 4 + 4 * k, 4))
        },
{
    let m = msg@;
    let empty = MessageView {
        schema: SchemaView { fields: Seq::empty(), ..m.schema },
        values: Seq::empty(),
    };
    let f = m.schema.fields[0];
    let v = ValueView::Array(vs);
    messages_are_their_fields(m.schema, empty, f, v, Seq::empty());
    assert(with_field(empty, f, v).schema.fields =~= m.schema.fields);
    assert(with_field(empty, f, v).values =~= m.values);
    assert(with_field(empty, f, v) == m);
    arrays_of_numbers_take_their_size(e, n, vs, Seq::empty());
    the_header_says_ascending(m.schema, m);
    let bytes = cdr_bytes(m)->Ok_0;
    assert forall|k: int| 0 <= k < vs.len() implies four_bytes(e, #[trigger] vs[k]) == Some(
        ascending(bytes, 4 + 4 * k, 4),
    ) by {
        let at = 4 * k;
        assert(bytes[4 + at] == bytes[4 + (at + 0)]);
        assert(bytes[4 + at + 1] == bytes[4 + (at + 1)]);
        assert(bytes[4 + at + 2] == bytes[4 + (at + 2)]);
        assert(bytes[4 + at + 3] == bytes[4 + (at + 3)]);
    }
}

/// A message that was written is read back.
pub proof fn messages_are_read_back(
    msg: &DynamicMessage,
    bytes: Vec<u8>,
    data: &[u8],
    r: Result<DynamicMessage, DynamicError>,
)
    requires
        call_ensures(serialize_cdr, (msg,), Ok(bytes)),
        call_ensures(deserialize_cdr, (data, &msg.schema), r),
        data@ == bytes@,
        bytes@.len() <= usize::MAX,
        plain_message(msg@),
    ensures
        r matches Ok(back) && back@ == msg@ && back.schema == msg.schema,
{
    encoded_messages_decode(msg@, bytes@, Seq::empty());
    assert(bytes@ + Seq::<u8>::empty() =~= bytes@);
}

/// What is too short or has an unknown header is not read.
pub proof fn unknown_headers_are_refused(
    data: &[u8],
    schema: &Arc<MessageSchema>,
    r: Result<DynamicMessage, DynamicError>,
)
    requires
        call_ensures(deserialize_cdr, (data, schema), r),
        data@.len() < 4 || data@[0] != 0 || data@[1] > 1,
    ensures
        r matches Err(e) && e@ is DeserializationError,
{
    the_header_decides_the_byte_order(data@, schema@);
}

/// What is set at a path is got from there, and the schema stays; what could not be
/// set leaves the message as it was.
pub proof fn what_is_set_is_got(
    m: &mut DynamicMessage,
    path: &str,
    x: i32,
    done: Result<(), DynamicError>,
    after: &DynamicMessage,
    got: Result<i32, DynamicError>,
)
    requires
        call_ensures(DynamicMessage::set::<i32>, (m, path, x), done),
        *after == *final(m),
        call_ensures(DynamicMessage::get::<i32>, (after, path), got),
    ensures
        done is Ok ==> got == Ok::<i32, DynamicError>(x),
        final(m).schema == old(m).schema,
        done is Err ==> final(m)@ == old(m)@,
{
    if done is Ok {
        stored_value_is_read_back(
            old(m)@,
            path_parts(path@),
            ValueView::Int32(x),
            Seq::empty(),
        );
    }
}

/// The same of texts.
pub proof fn texts_that_are_set_are_got(
    m: &mut DynamicMessage,
    path: &str,
    x: String,
    done: Result<(), DynamicError>,
    after: &DynamicMessage,
    got: Result<String, DynamicError>,
)
    requires
        call_ensures(DynamicMessage::set::<String>, (m, path, x), done),
        *after == *final(m),
        call_ensures(DynamicMessage::get::<String>, (after, path), got),
    ensures
        done is Ok ==> (got matches Ok(s) && s@ == x@),
        done is Err ==> final(m)@ == old(m)@,
{
    if done is Ok {
        stored_value_is_read_back(
            old(m)@,
            path_parts(path@),
            ValueView::String(x@),
            Seq::empty(),
        );
    }
}

/// What is set by the index of a field is got by its index, and the other fields
/// stay.
pub proof fn what_is_set_by_index_is_got(
    m: &mut DynamicMessage,
    index: usize,
    x: u64,
    done: Result<(), DynamicError>,
    after: &DynamicMessage,
    got: Result<u64, DynamicError>,
    other: int,
)
    requires
        call_ensures(DynamicMessage::set_by_index::<u64>, (m, index, x), done),
        *after == *final(m),
        call_ensures(DynamicMessage::get_by_index::<u64>, (after, index), got),
        0 <= other < old(m)@.values.len(),
    ensures
        done is Ok ==> got == Ok::<u64, DynamicError>(x),
        other != index || done is Err ==> final(m)@.values[other] == old(m)@.values[other],
        done is Ok ==> index < old(m)@.values.len(),
        index >= old(m)@.values.len() && old(m)@.schema.fields.len() == old(m)@.values.len() ==> (
        done matches Err(e) && e@ == ErrorView::IndexOutOfBounds(index as nat)),
{
    assert(final(m)@.schema == old(m)@.schema);
}

/// A new message holds the default of each field, and one that is built holds what
/// was set and the defaults elsewhere.
pub proof fn messages_begin_with_defaults(
    schema: &Arc<MessageSchema>,
    m: DynamicMessage,
    b: DynamicMessageBuilder,
    built: DynamicMessage,
    k: int,
)
    requires
        0 <= k < schema@.fields.len(),
        b.wf(),
        b.schema == *schema,
    ensures
        call_ensures(DynamicMessage::new, (schema,), m) ==> {
            &&& m.schema == *schema
            &&& m@.values.len() == schema@.fields.len()
            &&& m@.values[k] == (match schema@.fields[k].default_value {
                Some(v) => v,
                None => default_view(schema@.fields[k].field_type),
            })
        },
        call_ensures(DynamicMessageBuilder::build, (b,), built) ==> {
            &&& built.schema == *schema
            &&& built@.values.len() == schema@.fields.len()
            &&& b.values@[k] matches Some(v) ==> built@.values[k] == v@
            &&& b.values@[k] is None ==> built@.values[k] == (
            match schema@.fields[k].default_value {
                Some(v) => v,
                None => default_view(schema@.fields[k].field_type),
            })
        },
{
    let fs = schema@.fields;
    assert(field_default(fs[k]) == match fs[k].default_value {
        Some(v) => v,
        None => default_view(fs[k].field_type),
    });
    assert(defaults_view(fs)[k] == field_default(
        fs[k],
    ));
    assert(defaults_view(fs).len() == fs.len());
    assert(schema.fields@.len() == fs.len());
    assert(options_view(b.values@)[k] == match b.values@[k] {
        Some(v) => Some(v@),
        None => None,
    });
}

/// A schema that is built has the fields in the order in which they were declared,
/// and the parts of its name.
pub proof fn schemas_are_built_field_by_field(
    b: MessageSchemaBuilder,
    name: &str,
    t: FieldType,
    c: MessageSchemaBuilder,
    r: Result<Arc<MessageSchema>, DynamicError>,
    k: int,
)
    requires
        call_ensures(MessageSchemaBuilder::field, (b, name, t), c),
        call_ensures(MessageSchemaBuilder::build, (c,), r),
    ensures
        r is Ok <==> split(b.full_name@, '/').len() == 3,
        r matches Ok(s) ==> {
            let n = b.fields@.len() as int;
            &&& s@.full_name == b.full_name@
            &&& s@.package == split(b.full_name@, '/')[0]
            &&& s@.name == split(b.full_name@, '/')[2]
            &&& s@.fields.len() == n + 1
            &&& s@.fields[n].name == name@
            &&& s@.fields[n].field_type == t@
            &&& s@.fields[n].default_value is None
            &&& 0 <= k < n ==> s@.fields[k] == b.fields@[k]@
        },
        r matches Err(e) ==> e@ == ErrorView::InvalidTypeName(b.full_name@),
{
    let before = fields_view(b.fields@);
    let after = fields_view(c.fields@);
    assert(before.len() == b.fields@.len());
    if 0 <= k < b.fields@.len() {
        assert(after[k] == before[k]);
        assert(before[k] == b.fields@[k]@);
    }
}

/// A schema that is registered is found under its name, and the others stay.
pub proof fn registered_schemas_are_found(
    registry: &mut SchemaRegistry,
    schema: Arc<MessageSchema>,
    r: Arc<MessageSchema>,
    after: &SchemaRegistry,
    name: &str,
    found: Option<Arc<MessageSchema>>,
)
    requires
        call_ensures(SchemaRegistry::register, (registry, schema), r),
        old(registry).wf(),
        *after == *final(registry),
        call_ensures(SchemaRegistry::get, (after, name), found),
    ensures
        r == schema,
        name@ == schema@.full_name ==> found == Some(schema),
        name@ != schema@.full_name ==> found == old(registry).entry(name@),
        found is Some <==> name@ == schema@.full_name || old(registry)@.contains_key(name@),
{
}

/// The name of a type in the graph and its canonical name lead to each other.
pub proof fn type_names_lead_to_each_other(
    schema: &MessageSchema,
    dds: String,
    given: &str,
    back: String,
    package: Seq<char>,
    kind: Seq<char>,
    name: Seq<char>,
)
    requires
        call_ensures(dds_type_name_from_schema, (schema,), dds),
        given@ == dds@,
        call_ensures(ros_type_name_from_dds, (given,), back),
        schema@.full_name == package + seq!['/'] + kind + seq!['/'] + name,
        plain_segment(package) && plain_segment(kind) && plain_segment(name),
        package.len() > 0 && kind.len() > 0 && name.len() > 0,
    ensures
        dds@ == package + "::"@ + kind + "::dds_::"@ + name + "_"@,
        back@ == schema@.full_name,
{
    canonical_names_are_mangled(package, kind, name, seq![]);
    dds_names_round_trip(package, kind, name);
}

/// A type is split into its package and its name.
pub proof fn types_are_split(
    id: &str,
    r: Option<(String, String)>,
    package: Seq<char>,
    name: Seq<char>,
)
    requires
        call_ensures(split_msg_type, (id,), r),
        !package.contains('/'),
        !name.contains('/'),
        id@ == package + "/msg/"@ + name || id@ == package + "/"@ + name,
    ensures
        r matches Some((p, n)) && p@ == package && n@ == name,
{
    types_are_asked_for_in_two_ways(package, name);
}

/// A value that is checked and accepted deserves no error, and the default of a type
/// is made for that type.
pub proof fn accepted_values_deserve_no_error(
    t: &FieldType,
    v: &DynamicValue,
    path: &str,
    r: Result<(), DynamicError>,
    d: DynamicValue,
)
    ensures
        call_ensures(validate_value, (t, v, path), r) && r is Ok ==> violation(t@, v@, path@) is None,
        call_ensures(validate_value, (t, v, path), r) && violation(t@, v@, path@) is Some
            ==> r is Err,
        call_ensures(default_for_type, (t,), d) ==> d@ == default_view(t@),
{
}

} // verus!
