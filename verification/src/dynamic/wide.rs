//! Wide strings: text as UTF-16 code units.

use vstd::prelude::*;

verus! {

/// The first code unit of a pair that stands for one character.
pub open spec fn is_high(u: u16) -> bool {
    0xD800 <= u <= 0xDBFF
}

/// The second code unit of a pair that stands for one character.
pub open spec fn is_low(u: u16) -> bool {
    0xDC00 <= u <= 0xDFFF
}

/// The code units that stand for the character of number `c`.
pub open spec fn char_units(c: u32) -> Seq<u16> {
    if c < 0x10000 {
        seq![c as u16]
    } else {
        seq![
            (0xD800 + (c - 0x10000) / 0x400) as u16,
            (0xDC00 + (c - 0x10000) % 0x400) as u16,
        ]
    }
}

/// The code units of a text.
pub open spec fn utf16(s: Seq<char>) -> Seq<u16>
    decreases s.len(),
{
    if s.len() == 0 {
        Seq::empty()
    } else {
        char_units(s[0] as u32) + utf16(s.skip(1))
    }
}

/// The character that a pair of code units stands for.
pub open spec fn pair_char(high: u16, low: u16) -> char {
    (0x10000 + (high - 0xD800) * 0x400 + (low - 0xDC00)) as char
}

/// The text that code units stand for, if every pair among them is complete.
pub open spec fn text_of_utf16(units: Seq<u16>) -> Option<Seq<char>>
    decreases units.len(),
{
    if units.len() == 0 {
        Some(Seq::empty())
    } else if !is_high(units[0]) && !is_low(units[0]) {
        match text_of_utf16(units.skip(1)) {
            Some(rest) => Some(seq![units[0] as char] + rest),
            None => None,
        }
    } else if is_high(units[0]) && units.len() >= 2 && is_low(units[1]) {
        match text_of_utf16(units.skip(2)) {
            Some(rest) => Some(seq![pair_char(units[0], units[1])] + rest),
            None => None,
        }
    } else {
        None
    }
}

/// A text comes back from its code units.
pub proof fn utf16_round_trip(s: Seq<char>)
    ensures
        text_of_utf16(utf16(s)) == Some(s),
    decreases s.len(),
{
    if s.len() == 0 {
        assert(s =~= Seq::<char>::empty());
    } else {
        let c = s[0] as u32;
        let units = utf16(s);
        vstd::utf8::char_is_scalar(s[0]);
        vstd::utf8::char_u32_cast(s[0], c);
        utf16_round_trip(s.skip(1));
        assert(seq![s[0]] + s.skip(1) =~= s);
        if c < 0x10000 {
            assert(units.skip(1) =~= utf16(s.skip(1)));
            assert(units[0] == c as u16);
            assert(units[0] as char == s[0]);
        } else {
            assert(units.skip(2) =~= utf16(s.skip(1)));
            let h = (c - 0x10000) / 0x400;
            let l = (c - 0x10000) % 0x400;
            assert(units[0] == (0xD800 + h) as u16);
            assert(units[1] == (0xDC00 + l) as u16);
            assert(pair_char(units[0], units[1]) == s[0]);
        }
    }
}

/// The code units of a text are those of its parts, one after the other.
pub proof fn code_units_follow_each_other(a: Seq<char>, b: Seq<char>)
    ensures
        utf16(a + b) == utf16(a) + utf16(b),
    decreases a.len(),
{
    if a.len() == 0 {
        assert(a + b =~= b);
        assert(utf16(a) + utf16(b) =~= utf16(b));
    } else {
        code_units_follow_each_other(a.skip(1), b);
        assert((a + b).skip(1) =~= a.skip(1) + b);
        assert((a + b)[0] == a[0]);
        assert(utf16(a + b) =~= utf16(a) + utf16(b));
    }
}

/// A character below 0x10000 is one code unit, its number; any other is two, of
/// which the first holds the upper ten bits of what its number is beyond 0x10000
/// and the second the lower ten bits.
pub proof fn a_character_is_one_or_two_units(c: char)
    ensures
        ({
            let n = c as u32;
            let units = utf16(seq![c]);
            if n < 0x10000 {
                units.len() == 1 && units[0] == n
            } else {
                &&& units.len() == 2
                &&& 0xD800 <= units[0] < 0xDC00
                &&& 0xDC00 <= units[1] < 0xE000
                &&& n == 0x10000 + 0x400 * (units[0] - 0xD800) + (units[1] - 0xDC00)
            }
        }),
{
    let n = c as u32;
    vstd::utf8::char_is_scalar(c);
    vstd::utf8::char_u32_cast(c, n);
    assert(seq![c].skip(1) =~= Seq::<char>::empty());
    assert(utf16(Seq::<char>::empty()) =~= Seq::<u16>::empty());
    assert(utf16(seq![c]) =~= char_units(n));
}

/// Code units are read as a text just where they are the code units of one.
pub proof fn code_units_come_back(units: Seq<u16>)
    ensures
        text_of_utf16(units) matches Some(s) ==> utf16(s) == units,
        text_of_utf16(units) is None ==> forall|s: Seq<char>| #[trigger] utf16(s) != units,
{
    if text_of_utf16(units) is Some {
        units_of_text(units);
    } else {
        assert forall|s: Seq<char>| #[trigger] utf16(s) != units by {
            utf16_round_trip(s);
        }
    }
}

proof fn units_of_text(units: Seq<u16>)
    requires
        text_of_utf16(units) is Some,
    ensures
        utf16(text_of_utf16(units).unwrap()) == units,
    decreases units.len(),
{
    let s = text_of_utf16(units).unwrap();
    if units.len() == 0 {
        assert(utf16(s) =~= units);
    } else if !is_high(units[0]) && !is_low(units[0]) {
        let rest = text_of_utf16(units.skip(1)).unwrap();
        units_of_text(units.skip(1));
        let c = units[0] as char;
        code_units_follow_each_other(seq![c], rest);
        a_character_is_one_or_two_units(c);
        vstd::utf8::char_u32_cast(c, units[0] as u32);
        assert(c as u32 == units[0]);
        assert(utf16(s) =~= units);
    } else {
        let rest = text_of_utf16(units.skip(2)).unwrap();
        units_of_text(units.skip(2));
        let c = pair_char(units[0], units[1]);
        let n = (0x10000 + (units[0] - 0xD800) * 0x400 + (units[1] - 0xDC00)) as u32;
        code_units_follow_each_other(seq![c], rest);
        a_character_is_one_or_two_units(c);
        vstd::utf8::char_u32_cast(c, n);
        assert(c as u32 == n);
        assert(utf16(s) =~= units);
    }
}

/// `char::from_u32` gives the character of number `i`, unless `i` is a
/// surrogate or too large.
pub assume_specification[ char::from_u32 ](i: u32) -> (r: Option<char>)
    ensures
        r == (if i <= 0xD7FF || 0xE000 <= i <= 0x10FFFF {
            Some(i as char)
        } else {
            None
        }),
;

/// The code units of `s`.
pub fn encode_utf16(s: &str) -> (units: Vec<u16>)
    ensures
        units@ == utf16(s@),
{
    let mut units: Vec<u16> = Vec::new();
    assert(s@.skip(0) =~= s@);
    for c in it: s.chars()
        invariant
            it.seq() == s@,
            units@ + utf16(s@.skip(it.index() as int)) == utf16(s@),
    {
        let n: u32 = c as u32;
        let ghost before = units@;
        let ghost rest = s@.skip(it.index() as int);
        assert(rest[0] == c);
        assert(rest.skip(1) =~= s@.skip(it.index() + 1));
        if n < 0x10000 {
            units.push(n as u16);
            assert(units@ =~= before + char_units(n));
        } else {
            units.push((0xD800 + (n - 0x10000) / 0x400) as u16);
            units.push((0xDC00 + (n - 0x10000) % 0x400) as u16);
            assert(units@ =~= before + char_units(n));
        }
        assert(before + (char_units(n) + utf16(rest.skip(1)))
            =~= units@ + utf16(rest.skip(1)));
    }
    assert(utf16(s@.skip(s@.len() as int)) =~= Seq::<u16>::empty());
    assert(units@ =~= utf16(s@));
    units
}

/// The text that `units` stand for.
pub fn decode_utf16(units: &Vec<u16>) -> (r: Option<String>)
    ensures
        match r {
            Some(s) => text_of_utf16(units@) == Some(s@),
            None => text_of_utf16(units@) is None,
        },
{
    let mut out: String = String::new();
    let mut i: usize = 0;
    assert(units@.skip(0) =~= units@);
    assert(text_of_utf16(units@) matches Some(t) ==> out@ + t =~= t);
    while i < units.len()
        invariant
            i <= units@.len(),
            match text_of_utf16(units@.skip(i as int)) {
                Some(rest) => text_of_utf16(units@) == Some(out@ + rest),
                None => text_of_utf16(units@) is None,
            },
        decreases units@.len() - i,
    {
        let u: u16 = units[i];
        let ghost rest = units@.skip(i as int);
        let ghost before = out@;
        assert(rest[0] == u);
        if u < 0xD800 || u > 0xDFFF {
            let c = match char::from_u32(u as u32) {
                Some(c) => c,
                None => return None,
            };
            out.push(c);
            assert(rest.skip(1) =~= units@.skip(i + 1));
            assert(text_of_utf16(rest.skip(1)) matches Some(t) ==> before + (seq![c] + t) =~= out@
                + t);
            i = i + 1;
        } else if u <= 0xDBFF && i + 1 < units.len() && 0xDC00 <= units[i + 1] && units[i + 1]
            <= 0xDFFF {
            let low: u16 = units[i + 1];
            assert(rest[1] == low);
            let n: u32 = 0x10000 + (u as u32 - 0xD800) * 0x400 + (low as u32 - 0xDC00);
            let c = match char::from_u32(n) {
                Some(c) => c,
                None => return None,
            };
            out.push(c);
            assert(rest.skip(2) =~= units@.skip(i + 2));
            assert(text_of_utf16(rest.skip(2)) matches Some(t) ==> before + (seq![c] + t) =~= out@
                + t);
            i = i + 2;
        } else {
            return None;
        }
    }
    assert(text_of_utf16(units@.skip(i as int)) == Some(Seq::<char>::empty()));
    assert(out@ + Seq::<char>::empty() =~= out@);
    Some(out)
}

} // verus!
