//! What holds of the schemas that are loaded from `.msg` files.

use crate::dynamic::error::ErrorView;
use crate::dynamic::loader::{
    arrayed, base_type_of, bounded_string_prefix, converted, file_index, load_outcome,
    nested_outcome, path_entries, places, primitive, schema_of, split_type,
    ArrayType, KnownFile, LoadView, MsgFile, ParsedField, ParsedMessage, SearchEntry,
};
use crate::dynamic::schema::{SchemaView, TypeView, ValueView};
use crate::dynamic::serialization::cdr::encoded;
use crate::dynamic::serialization::layout::{
    bytes_are_written_as_they_are, numbers_are_aligned_and_ascending,
};
use crate::dynamic::validate::type_label_text;
use crate::text::{
    all_digits, decimal, decimals_are_read_back, digits_value, nothing_to_split, split,
    split_joined, trimmed,
};
use vstd::prelude::*;

verus! {

/// Whether `name` is a name under which a type is both declared and shown.
pub open spec fn names_itself(name: Seq<char>) -> bool {
    ||| name == "bool"@
    ||| name == "int8"@
    ||| name == "int16"@
    ||| name == "int32"@
    ||| name == "int64"@
    ||| name == "uint8"@
    ||| name == "uint16"@
    ||| name == "uint32"@
    ||| name == "uint64"@
    ||| name == "float32"@
    ||| name == "float64"@
    ||| name == "string"@
}

proof fn names_are_spelled()
    ensures
        "bool"@ == seq!['b', 'o', 'o', 'l'],
        "int8"@ == seq!['i', 'n', 't', '8'],
        "byte"@ == seq!['b', 'y', 't', 'e'],
        "int16"@ == seq!['i', 'n', 't', '1', '6'],
        "int32"@ == seq!['i', 'n', 't', '3', '2'],
        "int64"@ == seq!['i', 'n', 't', '6', '4'],
        "uint8"@ == seq!['u', 'i', 'n', 't', '8'],
        "char"@ == seq!['c', 'h', 'a', 'r'],
        "uint16"@ == seq!['u', 'i', 'n', 't', '1', '6'],
        "uint32"@ == seq!['u', 'i', 'n', 't', '3', '2'],
        "uint64"@ == seq!['u', 'i', 'n', 't', '6', '4'],
        "float32"@ == seq!['f', 'l', 'o', 'a', 't', '3', '2'],
        "float64"@ == seq!['f', 'l', 'o', 'a', 't', '6', '4'],
        "string"@ == seq!['s', 't', 'r', 'i', 'n', 'g'],
{
    reveal_strlit("bool");
    reveal_strlit("int8");
    reveal_strlit("byte");
    reveal_strlit("int16");
    reveal_strlit("int32");
    reveal_strlit("int64");
    reveal_strlit("uint8");
    reveal_strlit("char");
    reveal_strlit("uint16");
    reveal_strlit("uint32");
    reveal_strlit("uint64");
    reveal_strlit("float32");
    reveal_strlit("float64");
    reveal_strlit("string");
}

/// Whether `a` and `b` differ at a place or in length.
spec fn apart(a: Seq<char>, b: Seq<char>) -> bool {
    ||| a.len() != b.len()
    ||| a.len() > 0 && a[0] != b[0]
    ||| a.len() > 3 && a[3] != b[3]
    ||| a.len() > 4 && a[4] != b[4]
    ||| a.len() > 5 && a[5] != b[5]
}

/// A primitive type name is loaded as the type that is shown by that name, `byte`
/// as `int8` and `char` as `uint8`; no other name is but that of a bounded string.
pub proof fn primitive_names_name_their_types(name: Seq<char>)
    ensures
        names_itself(name) ==> (primitive(name) matches Some(t) && type_label_text(t) == name),
        name == "byte"@ ==> (primitive(name) matches Some(t) && type_label_text(t) == "int8"@),
        name == "char"@ ==> (primitive(name) matches Some(t) && type_label_text(t) == "uint8"@),
        primitive(name) is Some ==> {
            ||| names_itself(name)
            ||| name == "byte"@
            ||| name == "char"@
            ||| name.len() > 8 && name.take(8) == "string<="@
        },
{
    names_are_spelled();
    reveal_strlit("string<=");
    assert("string<="@ =~= bounded_string_prefix());
    if names_itself(name) || name == "byte"@ || name == "char"@ {
        assert(apart(name, "bool"@) || name == "bool"@);
        assert(apart(name, "int8"@) || name == "int8"@);
        assert(apart(name, "byte"@) || name == "byte"@);
        assert(apart(name, "int16"@) || name == "int16"@);
        assert(apart(name, "int32"@) || name == "int32"@);
        assert(apart(name, "int64"@) || name == "int64"@);
        assert(apart(name, "uint8"@) || name == "uint8"@);
        assert(apart(name, "char"@) || name == "char"@);
        assert(apart(name, "uint16"@) || name == "uint16"@);
        assert(apart(name, "uint32"@) || name == "uint32"@);
        assert(apart(name, "uint64"@) || name == "uint64"@);
        assert(apart(name, "float32"@) || name == "float32"@);
        assert(apart(name, "float64"@) || name == "float64"@);
        assert(apart(name, "string"@) || name == "string"@);
    }
}

/// Different primitive type names are loaded as different types.
pub proof fn different_names_give_different_types(a: Seq<char>, b: Seq<char>)
    requires
        names_itself(a),
        names_itself(b),
        primitive(a) == primitive(b),
    ensures
        a == b,
{
    primitive_names_name_their_types(a);
    primitive_names_name_their_types(b);
}

/// A value of the type that a name like `int32`, `uint8` or `float64` is loaded as
/// takes as many bits as the name says.
pub proof fn names_say_how_many_bits(kind: Seq<char>, digits: Seq<char>, v: ValueView)
    requires
        kind == "int"@ || kind == "uint"@ || kind == "float"@,
        all_digits(digits),
        names_itself(kind + digits),
    ensures
        primitive(kind + digits) matches Some(t) && (encoded(t, v, Seq::empty()) matches Ok(b)
            ==> 8 * b.len() == digits_value(digits)),
{
    let name = kind + digits;
    names_are_spelled();
    reveal_strlit("int");
    reveal_strlit("uint");
    reveal_strlit("float");
    primitive_names_name_their_types(name);
    reveal_with_fuel(digits_value, 4);
    assert(digits =~= name.skip(kind.len() as int));
    assert(name[0] == kind[0]);
    let t = primitive(name).unwrap();
    let out = Seq::<u8>::empty();
    if digits.len() == 2 {
        assert(digits.drop_last().drop_last().len() == 0);
    }
    match v {
        ValueView::Int8(x) => bytes_are_written_as_they_are(out, x, 0, false),
        ValueView::Uint8(x) => bytes_are_written_as_they_are(out, 0, x, false),
        ValueView::Int16(x) => numbers_are_aligned_and_ascending(out, x, 0, 0, 0, 0, 0),
        ValueView::Uint16(x) => numbers_are_aligned_and_ascending(out, 0, x, 0, 0, 0, 0),
        ValueView::Int32(x) => numbers_are_aligned_and_ascending(out, 0, 0, x, 0, 0, 0),
        ValueView::Uint32(x) => numbers_are_aligned_and_ascending(out, 0, 0, 0, x, 0, 0),
        ValueView::Float32(x) => numbers_are_aligned_and_ascending(out, 0, 0, 0, x, 0, 0),
        ValueView::Int64(x) => numbers_are_aligned_and_ascending(out, 0, 0, 0, 0, x, 0),
        ValueView::Uint64(x) => numbers_are_aligned_and_ascending(out, 0, 0, 0, 0, 0, x),
        ValueView::Float64(x) => numbers_are_aligned_and_ascending(out, 0, 0, 0, 0, 0, x),
        _ => {},
    }
}

/// `string<=` and a number in decimal is a string of at most that many bytes.
pub proof fn bounds_of_strings_are_read(n: nat)
    requires
        n <= usize::MAX,
    ensures
        primitive("string<="@ + decimal(n)) == Some(TypeView::BoundedString(n)),
{
    let name = "string<="@ + decimal(n);
    reveal_strlit("string<=");
    names_are_spelled();
    decimals_are_read_back(n);
    assert(name.skip(8) =~= decimal(n));
    assert(name.take(8) =~= bounded_string_prefix());
    assert(name.len() > 8);
    assert('0' <= decimal(n)[0] <= '9');
}

/// A single value, a fixed number of values, a bounded and an unbounded sequence
/// are told apart, and hold values of the type declared.
pub proof fn declared_arrays_keep_their_kind(t: TypeView, n: usize)
    ensures
        arrayed(t, ArrayType::Single) == t,
        arrayed(t, ArrayType::Fixed(n)) matches TypeView::Array(e, m) && *e == t && m == n,
        arrayed(t, ArrayType::Bounded(n)) matches TypeView::BoundedSequence(e, m) && *e == t && m
            == n,
        arrayed(t, ArrayType::Unbounded) matches TypeView::Sequence(e) && *e == t,
        type_label_text(arrayed(t, ArrayType::Fixed(n))) == "fixed array"@,
        type_label_text(arrayed(t, ArrayType::Bounded(n))) == "bounded sequence"@,
        type_label_text(arrayed(t, ArrayType::Unbounded)) == "sequence"@,
{
}

/// A field of a message type has the schema that was found for it; one whose
/// package is not known is an error that names the type, and one whose schema was
/// not found is an error that names the package too.
pub proof fn message_fields_have_the_schema_found(f: ParsedField, s: SchemaView)
    requires
        primitive(f.field_type.base_type@) is None,
    ensures
        f.field_type.package is Some ==> base_type_of(f, Some(s)) == Ok::<TypeView, ErrorView>(
            TypeView::Message(Box::new(s)),
        ),
        f.field_type.package matches Some(p) ==> (base_type_of(f, None) matches Err(e)
            && e == ErrorView::SchemaNotFound(p@ + "/msg/"@ + f.field_type.base_type@)),
        f.field_type.package is None ==> base_type_of(f, Some(s)) == Err::<TypeView, ErrorView>(
            ErrorView::InvalidTypeName(f.field_type.base_type@),
        ),
        f.field_type.package is None ==> base_type_of(f, None) == Err::<TypeView, ErrorView>(
            ErrorView::InvalidTypeName(f.field_type.base_type@),
        ),
{
}

/// A field of a primitive type has it whatever else is known.
pub proof fn primitive_fields_need_no_schema(f: ParsedField, r: Option<SchemaView>)
    ensures
        primitive(f.field_type.base_type@) matches Some(t) ==> base_type_of(f, r) == Ok::<
            TypeView,
            ErrorView,
        >(t),
{
}

/// A schema that is loaded has the fields of its file, in their order and under
/// their names, each as it would be alone, without default values; its name is
/// made of the package and the name in the file.
pub proof fn schemas_hold_the_declared_fields(
    msg: ParsedMessage,
    resolved: Seq<Option<SchemaView>>,
    i: int,
)
    requires
        resolved.len() == msg.fields@.len(),
    ensures
        match schema_of(msg, resolved) {
            Ok(s) => {
                &&& s.package == msg.package@
                &&& s.name == msg.name@
                &&& s.full_name == msg.package@ + "/msg/"@ + msg.name@
                &&& s.type_hash is None
                &&& s.fields.len() == msg.fields@.len()
                &&& 0 <= i < msg.fields@.len() ==> {
                    &&& s.fields[i].name == msg.fields@[i].name@
                    &&& s.fields[i].default_value is None
                    &&& base_type_of(msg.fields@[i], resolved[i]) matches Ok(t)
                        && s.fields[i].field_type == arrayed(t, msg.fields@[i].field_type.array)
                }
            },
            Err(e) => exists|k: int|
                0 <= k < msg.fields@.len() && #[trigger] base_type_of(msg.fields@[k], resolved[k])
                    == Err::<TypeView, ErrorView>(e),
        },
{
    fields_hold(msg.fields@, resolved, msg.fields@.len(), i);
}

proof fn fields_hold(
    fields: Seq<ParsedField>,
    resolved: Seq<Option<SchemaView>>,
    n: nat,
    i: int,
)
    requires
        n <= fields.len(),
    ensures
        match converted(fields, resolved, n) {
            Ok(fs) => fs.len() == n && (0 <= i < n ==> {
                &&& fs[i].name == fields[i].name@
                &&& fs[i].default_value is None
                &&& base_type_of(fields[i], resolved[i]) matches Ok(t) && fs[i].field_type
                    == arrayed(t, fields[i].field_type.array)
            }),
            Err(e) => exists|k: int|
                0 <= k < n && #[trigger] base_type_of(fields[k], resolved[k]) == Err::<
                    TypeView,
                    ErrorView,
                >(e),
        },
    decreases n,
{
    if n > 0 {
        let m = (n - 1) as nat;
        fields_hold(fields, resolved, m, i);
        match converted(fields, resolved, m) {
            Ok(before) => {
                if let Err(e) = base_type_of(fields[m as int], resolved[m as int]) {
                    assert(base_type_of(fields[m as int], resolved[m as int]) == Err::<
                        TypeView,
                        ErrorView,
                    >(e));
                }
            },
            Err(e) => {
                let k = choose|k: int|
                    0 <= k < m && #[trigger] base_type_of(fields[k], resolved[k]) == Err::<
                        TypeView,
                        ErrorView,
                    >(e);
                assert(base_type_of(fields[k], resolved[k]) == Err::<TypeView, ErrorView>(e));
            },
        }
    }
}

/// A type is asked for by package and name, with `msg` between them or without.
pub proof fn types_are_asked_for_in_two_ways(package: Seq<char>, name: Seq<char>)
    requires
        !package.contains('/'),
        !name.contains('/'),
    ensures
        split_type(package + "/msg/"@ + name) == Some((package, name)),
        split_type(package + "/"@ + name) == Some((package, name)),
        split_type(name) is None,
{
    reveal_strlit("msg");
    reveal_strlit("/msg/");
    reveal_strlit("/");
    nothing_to_split(package, '/');
    nothing_to_split("msg"@, '/');
    nothing_to_split(name, '/');
    let front = package.push('/') + "msg"@;
    assert(package + "/msg/"@ + name =~= front.push('/') + name);
    split_joined(front, '/', name);
    split_joined(package, '/', "msg"@);
    assert(package + "/"@ + name =~= package.push('/') + name);
    split_joined(package, '/', name);
    assert(split(front.push('/') + name, '/') =~= seq![package, "msg"@, name]);
    assert(split(package.push('/') + name, '/') =~= seq![package, name]);
}

/// A type that is registered is found as it is, and nothing changes; for one that
/// is not, its file is asked for where it was not looked for yet, and a file that is
/// missing or broken leaves nothing behind.
pub proof fn loading_goes_by_registry_and_files(
    files: Seq<KnownFile>,
    registry: Map<Seq<char>, SchemaView>,
    busy: Seq<bool>,
    package: Seq<char>,
    name: Seq<char>,
    i: int,
)
    requires
        !package.contains('/'),
        !name.contains('/'),
        busy.len() == files.len(),
    ensures
        ({
            let type_id = package + "/msg/"@ + name;
            let (step, after) = load_outcome(files, registry, busy, type_id);
            &&& registry.contains_key(type_id) ==> step == LoadView::Loaded(registry[type_id])
                && after == registry
            &&& !registry.contains_key(type_id) && (forall|k: int|
                0 <= k < files.len() ==> !((#[trigger] files[k]).package@ == package
                    && files[k].name@ == name)) ==> step == (LoadView::NeedFile { package, name })
                && after == registry
            &&& !registry.contains_key(type_id) && 0 <= i < files.len() && files[i].package@
                == package && files[i].name@ == name && (forall|k: int|
                0 <= k < i ==> !((#[trigger] files[k]).package@ == package && files[k].name@
                    == name)) && (busy[i] || files[i].file !is Parsed) ==> step
                == LoadView::NotFound && after == registry
        }),
{
    types_are_asked_for_in_two_ways(package, name);
    first_file(files, package, name, i);
}

proof fn first_file(files: Seq<KnownFile>, package: Seq<char>, name: Seq<char>, i: int)
    ensures
        (forall|k: int|
            0 <= k < files.len() ==> !((#[trigger] files[k]).package@ == package && files[k].name@
                == name)) ==> file_index(files, package, name) == files.len(),
        0 <= i < files.len() && files[i].package@ == package && files[i].name@ == name && (forall|
            k: int,
        |
            0 <= k < i ==> !((#[trigger] files[k]).package@ == package && files[k].name@ == name))
            ==> file_index(files, package, name) == i,
    decreases files.len(),
{
    if files.len() > 0 {
        let rest = files.skip(1);
        first_file(rest, package, name, i - 1);
        assert(files[0] == files[0]);
        if forall|k: int|
            0 <= k < files.len() ==> !((#[trigger] files[k]).package@ == package && files[k].name@
                == name) {
            assert forall|k: int| 0 <= k < rest.len() implies !((#[trigger] rest[k]).package@
                == package && rest[k].name@ == name) by {
                assert(rest[k] == files[k + 1]);
            }
        }
        if 0 < i < files.len() && forall|k: int|
            0 <= k < i ==> !((#[trigger] files[k]).package@ == package && files[k].name@ == name) {
            assert(rest[i - 1] == files[i]);
            assert forall|k: int| 0 <= k < i - 1 implies !((#[trigger] rest[k]).package@
                == package && rest[k].name@ == name) by {
                assert(rest[k] == files[k + 1]);
            }
        }
    }
}

/// A schema that was not registered is, once it is loaded, and a second load of it
/// finds the same and changes nothing.
pub proof fn loaded_schemas_stay(
    files: Seq<KnownFile>,
    registry: Map<Seq<char>, SchemaView>,
    busy: Seq<bool>,
    type_id: Seq<char>,
)
    requires
        !registry.contains_key(type_id),
    ensures
        load_outcome(files, registry, busy, type_id).0 matches LoadView::Loaded(s) ==> {
            let after = load_outcome(files, registry, busy, type_id).1;
            &&& after.contains_key(s.full_name)
            &&& after[s.full_name] == s
            &&& load_outcome(files, after, busy, s.full_name) == (LoadView::Loaded(s), after)
        },
{
    if let Some((package, name)) = split_type(type_id) {
        let i = file_index(files, package, name) as int;
        if i < files.len() && i < busy.len() && !busy[i] {
            if let MsgFile::Parsed(msg) = files[i].file {
                nested_errors_load_nothing(
                    files,
                    registry,
                    busy.update(i, true),
                    msg.fields@,
                    msg.fields@.len(),
                );
            }
        }
    }
}

proof fn nested_errors_load_nothing(
    files: Seq<KnownFile>,
    registry: Map<Seq<char>, SchemaView>,
    busy: Seq<bool>,
    fields: Seq<ParsedField>,
    n: nat,
)
    ensures
        nested_outcome(files, registry, busy, fields, n).0 matches Err(step) ==> step !is Loaded,
    decreases n,
{
    if 0 < n <= fields.len() {
        nested_errors_load_nothing(files, registry, busy, fields, (n - 1) as nat);
    }
}

/// The parts of a search path are its entries, in their order, without white space
/// around them; parts without anything else are none.
pub proof fn search_paths_are_read_in_order(parts: Seq<Seq<char>>, part: Seq<char>)
    ensures
        path_entries(Seq::empty(), 0).len() == 0,
        trimmed(part).len() > 0 ==> path_entries(parts.push(part), parts.len() + 1)
            == path_entries(parts, parts.len()).push(trimmed(part)),
        trimmed(part).len() == 0 ==> path_entries(parts.push(part), parts.len() + 1)
            == path_entries(parts, parts.len()),
{
    let more = parts.push(part);
    entries_of_longer(parts, part, parts.len());
    assert(more[parts.len() as int] == part);
    assert(((parts.len() + 1) - 1) as nat == parts.len());
}

proof fn entries_of_longer(parts: Seq<Seq<char>>, part: Seq<char>, n: nat)
    requires
        n <= parts.len(),
    ensures
        path_entries(parts.push(part), n) == path_entries(parts, n),
    decreases n,
{
    if n > 0 {
        entries_of_longer(parts, part, (n - 1) as nat);
    }
}

/// The file of a message type is looked for in the entries in their order, in each
/// below the package and, where the entry is the directory of the package, in the
/// entry itself.
pub proof fn files_are_looked_for_in_order(
    entries: Seq<SearchEntry>,
    e: SearchEntry,
    package: Seq<char>,
    name: Seq<char>,
)
    ensures
        places(Seq::empty(), package, name, 0).len() == 0,
        ({
            let before = places(entries, package, name, entries.len());
            let after = places(entries.push(e), package, name, entries.len() + 1);
            let below = seq![e.path@, package, "msg"@, name + ".msg"@];
            if e.base_name matches Some(b) && b@ == package {
                after == before.push(below).push(seq![e.path@, "msg"@, name + ".msg"@])
            } else {
                after == before.push(below)
            }
        }),
{
    places_of_longer(entries, e, package, name, entries.len());
    assert(entries.push(e)[entries.len() as int] == e);
    assert(((entries.len() + 1) - 1) as nat == entries.len());
}

proof fn places_of_longer(
    entries: Seq<SearchEntry>,
    e: SearchEntry,
    package: Seq<char>,
    name: Seq<char>,
    n: nat,
)
    requires
        n <= entries.len(),
    ensures
        places(entries.push(e), package, name, n) == places(entries, package, name, n),
    decreases n,
{
    if n > 0 {
        places_of_longer(entries, e, package, name, (n - 1) as nat);
    }
}

} // verus!
