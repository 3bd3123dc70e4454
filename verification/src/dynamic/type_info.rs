//! Type names and type hashes as they appear in the ROS graph.

use crate::dynamic::schema::MessageSchema;
use crate::text::{chars_of, hex_char, join3, split, split_joined, split_text, text_of, texts};
use vstd::prelude::*;

verus! {

/// The canonical name `pkg/kind/Name`, taken apart.
pub open spec fn canonical_parts(name: Seq<char>) -> Option<(Seq<char>, Seq<char>, Seq<char>)> {
    let parts = split(name, '/');
    if parts.len() == 3 && parts[0].len() > 0 && parts[1].len() > 0 && parts[2].len() > 0 {
        Some((parts[0], parts[1], parts[2]))
    } else {
        None
    }
}

/// The DDS name of a type.
pub open spec fn dds_name(package: Seq<char>, kind: Seq<char>, name: Seq<char>) -> Seq<char> {
    package + "::"@ + kind + "::dds_::"@ + name + "_"@
}

/// The DDS name of a canonical type name; any other name has nothing to mangle.
pub open spec fn dds_type_name(name: Seq<char>) -> Seq<char> {
    match canonical_parts(name) {
        Some((p, k, n)) => dds_name(p, k, n),
        None => name,
    }
}

/// The DDS name of the type of a schema.
pub fn dds_type_name_from_schema(schema: &MessageSchema) -> (r: String)
    ensures
        r@ == dds_type_name(schema@.full_name),
{
    let parts: Vec<String> = split_text(&schema.full_name, '/');
    assert(texts(parts@).len() == parts@.len());
    if parts.len() == 3 {
        assert(texts(parts@)[0] == parts@[0]@);
        assert(texts(parts@)[1] == parts@[1]@);
        assert(texts(parts@)[2] == parts@[2]@);
        if parts[0].as_str().unicode_len() > 0 && parts[1].as_str().unicode_len() > 0
            && parts[2].as_str().unicode_len() > 0 {
            let mut r: String = join3(&parts[0], "::", &parts[1]);
            r.append("::dds_::");
            r.append(&parts[2]);
            r.append("_");
            return r;
        }
    }
    schema.full_name.clone()
}

/// The text with each pair of colons, from the left, made a slash.
pub open spec fn colons_to_slashes(s: Seq<char>) -> Seq<char>
    decreases s.len(),
{
    if s.len() == 0 {
        Seq::empty()
    } else if s.len() >= 2 && s[0] == ':' && s[1] == ':' {
        seq!['/'] + colons_to_slashes(s.skip(2))
    } else {
        seq![s[0]] + colons_to_slashes(s.skip(1))
    }
}

/// The pieces with a slash between each two.
pub open spec fn slashed(parts: Seq<Seq<char>>) -> Seq<char>
    decreases parts.len(),
{
    if parts.len() == 0 {
        Seq::empty()
    } else if parts.len() == 1 {
        parts[0]
    } else {
        slashed(parts.drop_last()).push('/') + parts.last()
    }
}

/// The text without one underscore at its end.
pub open spec fn without_underscore(s: Seq<char>) -> Seq<char> {
    if s.len() > 0 && s.last() == '_' {
        s.drop_last()
    } else {
        s
    }
}

/// The canonical name of a type in the graph. A name without the `dds_` segment
/// keeps all its segments.
pub open spec fn ros_type_name(dds: Seq<char>) -> Seq<char> {
    let parts = split(colons_to_slashes(dds), '/');
    let n = parts.len() as int;
    if n >= 2 && parts[n - 2] == "dds_"@ {
        slashed(parts.take(n - 2).push(without_underscore(parts[n - 1])))
    } else {
        colons_to_slashes(dds)
    }
}

fn slashes_for_colons(s: &str) -> (r: String)
    ensures
        r@ == colons_to_slashes(s@),
{
    let chars: Vec<char> = chars_of(s);
    let mut r: String = String::new();
    let mut i: usize = 0;
    assert(chars@.skip(0) =~= chars@);
    assert(r@ + colons_to_slashes(chars@) =~= colons_to_slashes(chars@));
    while i < chars.len()
        invariant
            i <= chars@.len(),
            chars@ == s@,
            r@ + colons_to_slashes(chars@.skip(i as int)) == colons_to_slashes(s@),
        decreases chars@.len() - i,
    {
        let ghost rest = chars@.skip(i as int);
        let ghost before = r@;
        assert(rest[0] == chars@[i as int]);
        if i + 1 < chars.len() && chars[i] == ':' && chars[i + 1] == ':' {
            assert(rest[1] == chars@[i + 1]);
            r.push('/');
            assert(rest.skip(2) =~= chars@.skip(i + 2));
            assert(before + (seq!['/'] + colons_to_slashes(rest.skip(2))) =~= r@
                + colons_to_slashes(rest.skip(2)));
            i = i + 2;
        } else {
            if i + 1 < chars.len() {
                assert(rest[1] == chars@[i + 1]);
            }
            r.push(chars[i]);
            assert(rest.skip(1) =~= chars@.skip(i + 1));
            assert(before + (seq![rest[0]] + colons_to_slashes(rest.skip(1))) =~= r@
                + colons_to_slashes(rest.skip(1)));
            i = i + 1;
        }
    }
    assert(r@ + colons_to_slashes(chars@.skip(i as int)) =~= r@);
    r
}

fn drop_underscore(s: &str) -> (r: String)
    ensures
        r@ == without_underscore(s@),
{
    let chars: Vec<char> = chars_of(s);
    let n: usize = chars.len();
    let to: usize = if n > 0 && chars[n - 1] == '_' { n - 1 } else { n };
    let r: String = text_of(&chars, 0, to);
    assert(r@ =~= without_underscore(s@));
    r
}

/// The canonical name of a type, such as `std_msgs/msg/String`, from its name in
/// the graph, such as `std_msgs::msg::dds_::String_`.
pub fn ros_type_name_from_dds(dds: &str) -> (r: String)
    ensures
        r@ == ros_type_name(dds@),
{
    let plain: String = slashes_for_colons(dds);
    let parts: Vec<String> = split_text(&plain, '/');
    let ghost all = texts(parts@);
    assert(all.len() == parts@.len());
    let n: usize = parts.len();
    if n < 2 {
        return plain;
    }
    assert(all[n - 2] == parts@[n - 2]@);
    assert(all[n - 1] == parts@[n - 1]@);
    if !crate::text::same_text(&parts[n - 2], "dds_") {
        return plain;
    }
    let last: String = drop_underscore(&parts[n - 1]);
    let mut r: String = String::new();
    let mut i: usize = 0;
    assert(r@ =~= slashed(all.take(0)));
    while i < n - 2
        invariant
            i <= n - 2,
            n == parts@.len(),
            all == texts(parts@),
            r@ == slashed(all.take(i as int)),
        decreases n - i,
    {
        let ghost before = r@;
        assert(all.take(i + 1).drop_last() =~= all.take(i as int));
        assert(all[i as int] == parts@[i as int]@);
        if i > 0 {
            r.push('/');
        }
        r.append(&parts[i]);
        assert(r@ =~= slashed(all.take(i + 1)));
        i = i + 1;
    }
    let ghost whole = all.take(n - 2).push(last@);
    assert(whole.drop_last() =~= all.take(n - 2));
    if n > 2 {
        r.push('/');
    }
    r.append(&last);
    assert(r@ =~= slashed(whole));
    r
}

/// Whether `s` holds neither a colon nor a slash.
pub open spec fn plain_segment(s: Seq<char>) -> bool {
    forall|i: int| 0 <= i < s.len() ==> #[trigger] s[i] != ':' && s[i] != '/'
}

proof fn plain_segment_stays(s: Seq<char>, rest: Seq<char>)
    requires
        plain_segment(s),
        rest.len() == 0 || rest[0] != ':' || rest.len() >= 2 && rest[1] == ':',
    ensures
        colons_to_slashes(s + rest) == s + colons_to_slashes(rest),
    decreases s.len(),
{
    if s.len() == 0 {
        assert(s + rest =~= rest);
        assert(s + colons_to_slashes(rest) =~= colons_to_slashes(rest));
    } else {
        let whole = s + rest;
        assert(whole[0] == s[0]);
        assert(whole.skip(1) =~= s.skip(1) + rest);
        assert forall|i: int| 0 <= i < s.skip(1).len() implies #[trigger] s.skip(1)[i] != ':'
            && s.skip(1)[i] != '/' by {
            assert(s.skip(1)[i] == s[i + 1]);
        }
        plain_segment_stays(s.skip(1), rest);
        assert(colons_to_slashes(whole) == seq![s[0]] + colons_to_slashes(whole.skip(1)));
        assert(seq![s[0]] + (s.skip(1) + colons_to_slashes(rest)) =~= s + colons_to_slashes(rest));
    }
}

proof fn plain_segment_is_one_piece(s: Seq<char>)
    requires
        plain_segment(s),
    ensures
        split(s, '/') == seq![s],
    decreases s.len(),
{
    if s.len() == 0 {
        assert(s =~= Seq::<char>::empty());
    } else {
        assert(plain_segment(s.drop_last()));
        plain_segment_is_one_piece(s.drop_last());
        assert(split(s.drop_last(), '/').last() == s.drop_last());
        assert(s.drop_last().push(s.last()) =~= s);
        assert(split(s, '/') =~= seq![s]);
    }
}

/// A canonical name comes back from its DDS name.
pub proof fn dds_names_round_trip(package: Seq<char>, kind: Seq<char>, name: Seq<char>)
    requires
        plain_segment(package),
        plain_segment(kind),
        plain_segment(name),
        package.len() > 0,
        kind.len() > 0,
        name.len() > 0,
    ensures
        ({
            let canonical = package + seq!['/'] + kind + seq!['/'] + name;
            ros_type_name(dds_type_name(canonical)) == canonical
        }),
{
    reveal_strlit("::");
    reveal_strlit("::dds_::");
    reveal_strlit("dds_");
    reveal_strlit("_");
    let canonical = package + seq!['/'] + kind + seq!['/'] + name;
    plain_segment_is_one_piece(package);
    plain_segment_is_one_piece(kind);
    plain_segment_is_one_piece(name);
    let head = package + seq!['/'] + kind;
    split_joined(package, '/', kind);
    assert(package.push('/') + kind =~= head);
    split_joined(head, '/', name);
    assert(head.push('/') + name =~= canonical);
    assert(split(canonical, '/') =~= seq![package, kind, name]);
    let dds = dds_name(package, kind, name);
    let last = name + "_"@;
    assert(plain_segment("dds_"@));
    assert(plain_segment(last));
    let colons = seq![':', ':'];
    let r3 = colons + last;
    let r2 = colons + ("dds_"@ + r3);
    let r1 = colons + (kind + r2);
    assert(dds =~= package + r1);
    plain_segment_stays(package, r1);
    assert(r1.skip(2) =~= kind + r2);
    plain_segment_stays(kind, r2);
    assert(r2.skip(2) =~= "dds_"@ + r3);
    plain_segment_stays("dds_"@, r3);
    assert(r3.skip(2) =~= last);
    assert(last + Seq::<char>::empty() =~= last);
    plain_segment_stays(last, Seq::empty());
    assert(colons_to_slashes(Seq::<char>::empty()) =~= Seq::<char>::empty());
    let tail = seq!['/'] + ("dds_"@ + (seq!['/'] + last));
    assert(colons_to_slashes(r3) =~= seq!['/'] + last);
    assert(colons_to_slashes(r2) =~= tail);
    let slashes = colons_to_slashes(dds);
    assert(slashes =~= head + tail);
    let upto = head.push('/') + "dds_"@;
    plain_segment_is_one_piece("dds_"@);
    plain_segment_is_one_piece(last);
    split_joined(head, '/', "dds_"@);
    split_joined(upto, '/', last);
    assert(slashes =~= upto.push('/') + last);
    let parts = split(slashes, '/');
    assert(parts =~= seq![package, kind, "dds_"@, last]);
    assert(without_underscore(last) =~= name);
    let kept = parts.take(2).push(name);
    assert(kept =~= seq![package, kind, name]);
    assert(kept.drop_last() =~= seq![package, kind]);
    assert(kept.drop_last().drop_last() =~= seq![package]);
    assert(slashed(seq![package]) == package);
    assert(slashed(kept.drop_last()) == package.push('/') + kind);
    assert(slashed(kept) =~= canonical);
}

/// A type hash: a version and a digest.
#[derive(Debug, Clone, Copy, PartialEq, Eq)]
pub struct TypeHash {
    pub version: u8,
    pub value: [u8; 32],
}

/// The name of a type and its hash.
#[derive(Debug)]
pub struct TypeInfo {
    pub name: String,
    pub hash: TypeHash,
}

/// The value of a hexadecimal digit.
pub open spec fn hex_value(c: char) -> Option<u8> {
    if '0' <= c <= '9' {
        Some((c as u32 - '0' as u32) as u8)
    } else if 'a' <= c <= 'f' {
        Some((c as u32 - 'a' as u32 + 10) as u8)
    } else if 'A' <= c <= 'F' {
        Some((c as u32 - 'A' as u32 + 10) as u8)
    } else {
        None
    }
}

/// The text before the digits of a hash of version one.
pub open spec fn rihs_prefix() -> Seq<char> {
    seq!['R', 'I', 'H', 'S', '0', '1', '_']
}

/// Whether `s` writes a hash: the prefix and 64 hexadecimal digits.
pub open spec fn rihs(s: Seq<char>) -> bool {
    &&& s.len() == 71
    &&& s.take(7) == rihs_prefix()
    &&& forall|i: int| 7 <= i < 71 ==> hex_value(#[trigger] s[i]) is Some
}

/// Whether `h` is the hash that `s` writes, or the zero hash where it writes
/// none.
pub open spec fn hash_of(s: Seq<char>, h: TypeHash) -> bool {
    if rihs(s) {
        &&& h.version == 1
        &&& forall|i: int|
            0 <= i < 32 ==> #[trigger] h.value@[i] == hex_value(s[7 + 2 * i]).unwrap() * 16
                + hex_value(s[8 + 2 * i]).unwrap()
    } else {
        is_zero_hash(h)
    }
}

/// Whether `h` is the hash that stands for an unknown one.
pub open spec fn is_zero_hash(h: TypeHash) -> bool {
    h.version == 0 && forall|i: int| 0 <= i < 32 ==> #[trigger] h.value@[i] == 0
}

fn hex_digit(c: char) -> (r: Option<u8>)
    ensures
        r == hex_value(c),
        r matches Some(d) ==> d < 16,
{
    if '0' <= c && c <= '9' {
        Some((c as u32 - '0' as u32) as u8)
    } else if 'a' <= c && c <= 'f' {
        Some((c as u32 - 'a' as u32 + 10) as u8)
    } else if 'A' <= c && c <= 'F' {
        Some((c as u32 - 'A' as u32 + 10) as u8)
    } else {
        None
    }
}

impl TypeHash {
    /// The hash that stands for an unknown one.
    pub fn zero() -> (r: Self)
        ensures
            is_zero_hash(r),
    {
        TypeHash { version: 0, value: [0u8; 32] }
    }

    /// The hash that `s` writes.
    pub fn from_rihs_string(s: &str) -> (r: Option<Self>)
        ensures
            match r {
                Some(h) => rihs(s@) && hash_of(s@, h),
                None => !rihs(s@),
            },
    {
        let chars: Vec<char> = chars_of(s);
        if chars.len() != 71 {
            return None;
        }
        let head: String = text_of(&chars, 0, 7);
        assert(head@ =~= s@.take(7));
        proof {
            reveal_strlit("RIHS01_");
            assert("RIHS01_"@ =~= rihs_prefix());
        }
        if !crate::text::same_text(&head, "RIHS01_") {
            return None;
        }
        let mut value: [u8; 32] = [0u8; 32];
        let mut i: usize = 0;
        while i < 32
            invariant
                i <= 32,
                chars@ == s@,
                s@.len() == 71,
                value@.len() == 32,
                forall|j: int| 7 <= j < 7 + 2 * i ==> hex_value(#[trigger] s@[j]) is Some,
                forall|j: int|
                    0 <= j < i ==> #[trigger] value@[j] == hex_value(s@[7 + 2 * j]).unwrap() * 16
                        + hex_value(s@[8 + 2 * j]).unwrap(),
            decreases 32 - i,
        {
            let high: Option<u8> = hex_digit(chars[7 + 2 * i]);
            let low: Option<u8> = hex_digit(chars[8 + 2 * i]);
            match (high, low) {
                (Some(h), Some(l)) => {
                    value[i] = h * 16 + l;
                },
                _ => {
                    assert(hex_value(s@[7 + 2 * i]) is None || hex_value(s@[8 + 2 * i]) is None);
                    return None;
                },
            }
            i = i + 1;
        }
        Some(TypeHash { version: 1, value })
    }
}

/// The hash of a schema, from the hash string computed for it, if that could be
/// done.
pub fn schema_hash(computed: Option<&str>) -> (r: TypeHash)
    ensures
        match computed {
            Some(s) => hash_of(s@, r),
            None => is_zero_hash(r),
        },
{
    match computed {
        Some(s) => match TypeHash::from_rihs_string(s) {
            Some(h) => h,
            None => TypeHash::zero(),
        },
        None => TypeHash::zero(),
    }
}

/// The type information of a schema with the hash computed for it.
pub fn schema_type_info(schema: &MessageSchema, computed: Option<&str>) -> (r: TypeInfo)
    ensures
        r.name@ == dds_type_name(schema@.full_name),
        match computed {
            Some(s) => hash_of(s@, r.hash),
            None => is_zero_hash(r.hash),
        },
{
    TypeInfo { name: dds_type_name_from_schema(schema), hash: schema_hash(computed) }
}

/// The type information of a schema with the hash that a publisher reported.
pub fn schema_type_info_with_hash(schema: &MessageSchema, discovered_hash: &str) -> (r: TypeInfo)
    ensures
        r.name@ == dds_type_name(schema@.full_name),
        hash_of(discovered_hash@, r.hash),
{
    schema_type_info(schema, Some(discovered_hash))
}

/// A canonical name is mangled to its package, its kind, `dds_` and its name with
/// an underscore behind it, with pairs of colons between; a name that is not made
/// of three parts stays as it is.
pub proof fn canonical_names_are_mangled(
    package: Seq<char>,
    kind: Seq<char>,
    name: Seq<char>,
    other: Seq<char>,
)
    requires
        plain_segment(package),
        plain_segment(kind),
        plain_segment(name),
        package.len() > 0,
        kind.len() > 0,
        name.len() > 0,
    ensures
        dds_type_name(package + seq!['/'] + kind + seq!['/'] + name) == package + "::"@ + kind
            + "::dds_::"@ + name + "_"@,
        split(other, '/').len() != 3 ==> dds_type_name(other) == other,
{
    let canonical = package + seq!['/'] + kind + seq!['/'] + name;
    plain_segment_is_one_piece(package);
    plain_segment_is_one_piece(kind);
    plain_segment_is_one_piece(name);
    let head = package + seq!['/'] + kind;
    split_joined(package, '/', kind);
    assert(package.push('/') + kind =~= head);
    split_joined(head, '/', name);
    assert(head.push('/') + name =~= canonical);
    assert(split(canonical, '/') =~= seq![package, kind, name]);
}

/// The text of a hash: the prefix and two hexadecimal digits for each byte.
pub open spec fn hash_text(value: Seq<u8>) -> Seq<char> {
    "RIHS01_"@ + Seq::new(
        2 * value.len(),
        |i: int|
            if i % 2 == 0 {
                hex_char((value[i / 2] / 16) as nat)
            } else {
                hex_char((value[i / 2] % 16) as nat)
            },
    )
}

/// A hash comes back from its text.
pub proof fn hashes_are_read_back(value: Seq<u8>, h: TypeHash)
    requires
        value.len() == 32,
    ensures
        rihs(hash_text(value)),
        hash_of(hash_text(value), h) <==> h.version == 1 && h.value@ == value,
{
    let s = hash_text(value);
    reveal_strlit("RIHS01_");
    assert(s.take(7) =~= rihs_prefix());
    assert forall|d: nat| d < 16 implies hex_value(#[trigger] hex_char(d)) == Some(
        d as u8,
    ) by {
    }
    assert forall|i: int| 7 <= i < 71 implies hex_value(#[trigger] s[i]) is Some by {
        let b = value[(i - 7) / 2];
        if (i - 7) % 2 == 0 {
            assert(s[i] == hex_char((b / 16) as nat));
        } else {
            assert(s[i] == hex_char((b % 16) as nat));
        }
    }
    assert forall|i: int| 0 <= i < 32 implies #[trigger] value[i] == hex_value(
        s[7 + 2 * i],
    ).unwrap() * 16 + hex_value(s[8 + 2 * i]).unwrap() by {
        let b = value[i];
        assert((7 + 2 * i - 7) / 2 == i && (7 + 2 * i - 7) % 2 == 0);
        assert((8 + 2 * i - 7) / 2 == i && (8 + 2 * i - 7) % 2 == 1);
        assert(s[7 + 2 * i] == hex_char((b / 16) as nat));
        assert(s[8 + 2 * i] == hex_char((b % 16) as nat));
    }
    if hash_of(s, h) {
        assert(h.value@ =~= value);
    }
}

/// A text that is too short or too long, does not begin with the prefix, or holds
/// anything but hexadecimal digits behind it, is no hash.
pub proof fn other_texts_are_no_hashes(s: Seq<char>, i: int)
    ensures
        s.len() != 71 ==> !rihs(s),
        s.len() == 71 && s.take(7) != "RIHS01_"@ ==> !rihs(s),
        s.len() == 71 && 7 <= i < 71 && !('0' <= s[i] <= '9' || 'a' <= s[i] <= 'f' || 'A' <= s[i]
            <= 'F') ==> !rihs(s),
{
    reveal_strlit("RIHS01_");
    assert("RIHS01_"@ =~= rihs_prefix());
}

proof fn same_digit(c: char, d: char)
    requires
        d == c || 'a' <= c <= 'f' && d as int + 32 == c as int,
    ensures
        hex_value(d) == hex_value(c),
{
}

/// A hash may be written with capital letters: it is the same hash.
pub proof fn capitals_do_not_change_a_hash(s: Seq<char>, t: Seq<char>, h: TypeHash)
    requires
        s.len() == t.len(),
        forall|i: int| 0 <= i < 7 && i < s.len() ==> #[trigger] t[i] == s[i],
        forall|i: int|
            7 <= i < s.len() ==> {
                ||| #[trigger] t[i] == s[i]
                ||| 'a' <= s[i] <= 'f' && t[i] as int + 32 == s[i] as int
            },
    ensures
        rihs(s) <==> rihs(t),
        hash_of(s, h) <==> hash_of(t, h),
{
    assert forall|i: int| 7 <= i < s.len() implies hex_value(#[trigger] t[i]) == hex_value(s[i]) by {
        same_digit(s[i], t[i]);
    }
    if s.len() >= 7 {
        assert(s.take(7) =~= t.take(7));
    }
    assert(rihs(s) <==> rihs(t)) by {
        if rihs(s) {
            assert forall|i: int| 7 <= i < 71 implies hex_value(#[trigger] t[i]) is Some by {
                assert(hex_value(s[i]) is Some);
            }
        }
        if rihs(t) {
            assert forall|i: int| 7 <= i < 71 implies hex_value(#[trigger] s[i]) is Some by {
                assert(hex_value(t[i]) is Some);
            }
        }
    }
    if rihs(s) {
        assert forall|i: int| 0 <= i < 32 implies hex_value(s[7 + 2 * i]).unwrap() * 16 + hex_value(
            s[8 + 2 * i],
        ).unwrap() == hex_value(t[7 + 2 * i]).unwrap() * 16 + hex_value(t[8 + 2 * i]).unwrap()
            && #[trigger] h.value@[i] == h.value@[i] by {
            assert(hex_value(t[7 + 2 * i]) == hex_value(s[7 + 2 * i]));
            assert(hex_value(t[8 + 2 * i]) == hex_value(s[8 + 2 * i]));
        }
    }
}

/// The text of a hash is read as that hash, and no other text is read as any.
pub proof fn hashes_are_read_from_their_text(text: &str, value: Seq<u8>, r: Option<TypeHash>)
    requires
        value.len() == 32,
        text@ == hash_text(value),
        call_ensures(TypeHash::from_rihs_string, (text,), r),
    ensures
        r matches Some(h) && h.version == 1 && h.value@ == value,
{
    hashes_are_read_back(value, r->0);
}

} // verus!
