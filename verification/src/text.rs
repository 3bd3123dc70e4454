//! Text helpers: the decimal notation, splitting, and joining of strings.
//!
//! Strings are modelled by their sequence of characters.

use vstd::prelude::*;

verus! {

/// `String::push` appends the character to the end of the string.
pub assume_specification[ std::string::String::push ](s: &mut std::string::String, c: char)
    ensures
        final(s)@ == old(s)@.push(c),
;

/// The characters of `s`, in order.
pub fn chars_of(s: &str) -> (r: Vec<char>)
    ensures
        r@ == s@,
{
    let mut r: Vec<char> = Vec::new();
    for c in it: s.chars()
        invariant
            it.seq() == s@,
            r@ == s@.take(it.index() as int),
    {
        r.push(c);
        assert(s@.take(it.index() as int).push(c) =~= s@.take(it.index() + 1));
    }
    assert(s@.take(s@.len() as int) =~= s@);
    r
}

/// The string made of the characters of `chars` from `from` up to `to`.
pub fn text_of(chars: &Vec<char>, from: usize, to: usize) -> (r: String)
    requires
        from <= to <= chars@.len(),
    ensures
        r@ == chars@.subrange(from as int, to as int),
{
    let mut r: String = String::new();
    let mut i: usize = from;
    assert(r@ =~= chars@.subrange(from as int, from as int));
    while i < to
        invariant
            from <= i <= to <= chars@.len(),
            r@ == chars@.subrange(from as int, i as int),
        decreases to - i,
    {
        r.push(chars[i]);
        assert(chars@.subrange(from as int, i as int).push(chars@[i as int])
            =~= chars@.subrange(from as int, i + 1));
        i = i + 1;
    }
    r
}

/// Which characters are white space to `char::is_whitespace`.
pub uninterp spec fn is_white(c: char) -> bool;

/// `char::is_whitespace` of std, by a name: which characters have the Unicode
/// property of that name is not spelled out.
#[verifier::external_body]
fn white_space(c: char) -> (r: bool)
    ensures
        r == is_white(c),
{
    c.is_whitespace()
}

/// The text without white space at either end.
pub open spec fn trimmed(s: Seq<char>) -> Seq<char>
    decreases s.len(),
{
    if s.len() > 0 && is_white(s[0]) {
        trimmed(s.skip(1))
    } else if s.len() > 0 && is_white(s.last()) {
        trimmed(s.drop_last())
    } else {
        s
    }
}

/// The text without white space at either end.
pub fn trim_text(s: &str) -> (r: String)
    ensures
        r@ == trimmed(s@),
{
    let chars: Vec<char> = chars_of(s);
    let mut from: usize = 0;
    let mut to: usize = chars.len();
    assert(chars@.subrange(0, to as int) =~= chars@);
    while from < to && white_space(chars[from])
        invariant
            from <= to == chars@.len(),
            trimmed(chars@.subrange(from as int, to as int)) == trimmed(s@),
        ensures
            from <= to == chars@.len(),
            trimmed(chars@.subrange(from as int, to as int)) == trimmed(s@),
            from < to ==> !is_white(chars@[from as int]),
        decreases to - from,
    {
        assert(chars@.subrange(from as int, to as int).skip(1) =~= chars@.subrange(
            from + 1,
            to as int,
        ));
        from = from + 1;
    }
    while from < to && white_space(chars[to - 1])
        invariant
            from <= to <= chars@.len(),
            trimmed(chars@.subrange(from as int, to as int)) == trimmed(s@),
            from < to ==> !is_white(chars@[from as int]),
        ensures
            from <= to <= chars@.len(),
            trimmed(chars@.subrange(from as int, to as int)) == chars@.subrange(
                from as int,
                to as int,
            ),
            trimmed(chars@.subrange(from as int, to as int)) == trimmed(s@),
        decreases to - from,
    {
        assert(chars@.subrange(from as int, to as int).drop_last() =~= chars@.subrange(
            from as int,
            to - 1,
        ));
        to = to - 1;
    }
    text_of(&chars, from, to)
}

/// `a` followed by `b`.
pub fn join2(a: &str, b: &str) -> (r: String)
    ensures
        r@ == a@ + b@,
{
    let mut r: String = a.to_owned();
    r.append(b);
    r
}

/// `a` followed by `b` and `c`.
pub fn join3(a: &str, b: &str, c: &str) -> (r: String)
    ensures
        r@ == a@ + b@ + c@,
{
    let mut r: String = join2(a, b);
    r.append(c);
    r
}

/// Whether the two strings hold the same characters.
pub fn same_text(a: &str, b: &str) -> (r: bool)
    ensures
        r == (a@ == b@),
{
    a.to_owned() == b.to_owned()
}

/// The character that stands for the decimal digit `d`.
pub open spec fn digit_char(d: nat) -> char {
    if d == 0 { '0' } else if d == 1 { '1' } else if d == 2 { '2' } else if d == 3 { '3' }
    else if d == 4 { '4' } else if d == 5 { '5' } else if d == 6 { '6' } else if d == 7 { '7' }
    else if d == 8 { '8' } else { '9' }
}

/// The decimal notation of `n`, without leading zeros.
pub open spec fn decimal(n: nat) -> Seq<char>
    decreases n,
{
    if n < 10 {
        seq![digit_char(n)]
    } else {
        decimal(n / 10).push(digit_char(n % 10))
    }
}

fn digit_of(d: u64) -> (c: char)
    requires
        d < 10,
    ensures
        c == digit_char(d as nat),
{
    if d == 0 { '0' } else if d == 1 { '1' } else if d == 2 { '2' } else if d == 3 { '3' }
    else if d == 4 { '4' } else if d == 5 { '5' } else if d == 6 { '6' } else if d == 7 { '7' }
    else if d == 8 { '8' } else { '9' }
}

/// The decimal notation of `n`.
pub fn decimal_text(n: u64) -> (r: String)
    ensures
        r@ == decimal(n as nat),
    decreases n,
{
    if n < 10 {
        let mut r: String = String::new();
        r.push(digit_of(n));
        assert(r@ =~= seq![digit_char(n as nat)]);
        r
    } else {
        let mut r: String = decimal_text(n / 10);
        r.push(digit_of(n % 10));
        r
    }
}

/// The character that stands for the hexadecimal digit `d`.
pub open spec fn hex_char(d: nat) -> char {
    if d < 10 { digit_char(d) }
    else if d == 10 { 'a' } else if d == 11 { 'b' } else if d == 12 { 'c' }
    else if d == 13 { 'd' } else if d == 14 { 'e' } else { 'f' }
}

/// The hexadecimal notation of `n`, in lower case and without leading zeros.
pub open spec fn hex(n: nat) -> Seq<char>
    decreases n,
{
    if n < 16 {
        seq![hex_char(n)]
    } else {
        hex(n / 16).push(hex_char(n % 16))
    }
}

fn hex_digit_of(d: u64) -> (c: char)
    requires
        d < 16,
    ensures
        c == hex_char(d as nat),
{
    if d < 10 { digit_of(d) }
    else if d == 10 { 'a' } else if d == 11 { 'b' } else if d == 12 { 'c' }
    else if d == 13 { 'd' } else if d == 14 { 'e' } else { 'f' }
}

/// The hexadecimal notation of `n`.
pub fn hex_text(n: u64) -> (r: String)
    ensures
        r@ == hex(n as nat),
    decreases n,
{
    if n < 16 {
        let mut r: String = String::new();
        r.push(hex_digit_of(n));
        assert(r@ =~= seq![hex_char(n as nat)]);
        r
    } else {
        let mut r: String = hex_text(n / 16);
        r.push(hex_digit_of(n % 16));
        r
    }
}

/// The pieces of `s` between the occurrences of `sep`; there is always one
/// piece more than there are separators.
pub open spec fn split(s: Seq<char>, sep: char) -> Seq<Seq<char>>
    decreases s.len(),
{
    if s.len() == 0 {
        seq![Seq::<char>::empty()]
    } else {
        let before = split(s.drop_last(), sep);
        if s.last() == sep {
            before.push(Seq::<char>::empty())
        } else {
            before.drop_last().push(before.last().push(s.last()))
        }
    }
}

pub proof fn split_is_not_empty(s: Seq<char>, sep: char)
    ensures
        split(s, sep).len() >= 1,
    decreases s.len(),
{
    if s.len() > 0 {
        split_is_not_empty(s.drop_last(), sep);
    }
}

/// The pieces, joined with `sep` between them.
pub open spec fn rejoined(parts: Seq<Seq<char>>, sep: char) -> Seq<char>
    decreases parts.len(),
{
    if parts.len() == 0 {
        Seq::empty()
    } else if parts.len() == 1 {
        parts[0]
    } else {
        rejoined(parts.drop_last(), sep).push(sep) + parts.last()
    }
}

/// What was split is had again by joining the pieces.
pub proof fn split_pieces_rejoin(s: Seq<char>, sep: char)
    ensures
        rejoined(split(s, sep), sep) == s,
    decreases s.len(),
{
    let parts = split(s, sep);
    if s.len() == 0 {
        assert(parts[0] =~= s);
    } else {
        let before = split(s.drop_last(), sep);
        split_is_not_empty(s.drop_last(), sep);
        split_pieces_rejoin(s.drop_last(), sep);
        let rest = s.drop_last();
        assert(s =~= rest.push(s.last()));
        if s.last() == sep {
            assert(parts.drop_last() =~= before);
            assert(rejoined(parts, sep) =~= rejoined(before, sep).push(sep));
        } else if before.len() > 1 {
            assert(parts.drop_last() =~= before.drop_last());
            let first = rejoined(before.drop_last(), sep).push(sep);
            assert(rejoined(before, sep) == first + before.last());
            assert(parts.last() == before.last().push(s.last()));
            assert(rejoined(parts, sep) == first + parts.last());
            assert(first + parts.last() =~= (first + before.last()).push(s.last()));
        } else {
            assert(parts.len() == 1);
            assert(parts[0] == before[0].push(s.last()));
        }
    }
}

/// No piece holds the separator.
pub proof fn pieces_hold_no_separator(s: Seq<char>, sep: char)
    ensures
        forall|i: int|
            0 <= i < split(s, sep).len() ==> !(#[trigger] split(s, sep)[i]).contains(sep),
    decreases s.len(),
{
    if s.len() > 0 {
        let before = split(s.drop_last(), sep);
        let parts = split(s, sep);
        split_is_not_empty(s.drop_last(), sep);
        pieces_hold_no_separator(s.drop_last(), sep);
        assert forall|i: int| 0 <= i < parts.len() implies !(#[trigger] parts[i]).contains(
            sep,
        ) by {
            if i < parts.len() - 1 {
                assert(parts[i] == before[i]);
            } else if s.last() != sep {
                let last = before[before.len() - 1];
                assert(!last.contains(sep));
                assert forall|j: int| 0 <= j < parts[i].len() implies parts[i][j] != sep by {
                    if j < last.len() {
                        assert(parts[i][j] == last[j]);
                    }
                }
            }
        }
    }
}

/// A text without the separator is one piece.
pub proof fn nothing_to_split(s: Seq<char>, sep: char)
    requires
        !s.contains(sep),
    ensures
        split(s, sep) == seq![s],
    decreases s.len(),
{
    if s.len() == 0 {
        assert(s =~= Seq::<char>::empty());
    } else {
        let rest = s.drop_last();
        assert forall|i: int| 0 <= i < rest.len() implies rest[i] != sep by {
            assert(s[i] != sep);
        }
        nothing_to_split(rest, sep);
        assert(s.last() != sep);
        assert(rest.push(s.last()) =~= s);
        assert(split(s, sep) =~= seq![s]);
    }
}

/// The characters of each string.
pub open spec fn texts(parts: Seq<String>) -> Seq<Seq<char>> {
    Seq::new(parts.len(), |i: int| parts[i]@)
}

/// Splits `s` at every occurrence of `sep`.
pub fn split_text(s: &str, sep: char) -> (parts: Vec<String>)
    ensures
        texts(parts@) == split(s@, sep),
        parts@.len() >= 1,
{
    let chars: Vec<char> = chars_of(s);
    let mut parts: Vec<String> = Vec::new();
    let mut current: String = String::new();
    let mut i: usize = 0;
    assert(texts(parts@).push(current@) =~= split(chars@.take(0), sep)) by {
        assert(current@ =~= Seq::<char>::empty());
    }
    while i < chars.len()
        invariant
            i <= chars@.len(),
            texts(parts@).push(current@) == split(chars@.take(i as int), sep),
        decreases chars@.len() - i,
    {
        let c = chars[i];
        let ghost before = texts(parts@).push(current@);
        assert(chars@.take(i + 1).drop_last() =~= chars@.take(i as int));
        assert(chars@.take(i + 1).last() == c);
        if c == sep {
            let ghost old_parts = parts@;
            parts.push(current);
            assert(texts(parts@) =~= before);
            current = String::new();
            assert(current@ =~= Seq::<char>::empty());
        } else {
            current.push(c);
            assert(before.drop_last() =~= texts(parts@));
        }
        i = i + 1;
    }
    assert(chars@.take(i as int) =~= s@);
    let ghost before = texts(parts@).push(current@);
    parts.push(current);
    assert(texts(parts@) =~= before);
    parts
}

/// Splitting at a separator splits on both sides of it.
pub proof fn split_joined(a: Seq<char>, sep: char, b: Seq<char>)
    ensures
        split(a.push(sep) + b, sep) == split(a, sep) + split(b, sep),
    decreases b.len(),
{
    let whole = a.push(sep) + b;
    split_is_not_empty(b, sep);
    if b.len() == 0 {
        assert(whole =~= a.push(sep));
        assert(whole.drop_last() =~= a);
        assert(split(whole, sep) =~= split(a, sep) + split(b, sep));
    } else {
        assert(whole.drop_last() =~= a.push(sep) + b.drop_last());
        split_joined(a, sep, b.drop_last());
        split_is_not_empty(b.drop_last(), sep);
        let before = split(b.drop_last(), sep);
        let both = split(a, sep) + before;
        assert(whole.last() == b.last());
        assert(both.last() == before.last());
        assert(both.drop_last() =~= split(a, sep) + before.drop_last());
        assert(split(whole, sep) =~= split(a, sep) + split(b, sep));
    }
}

/// `s` without a leading `c`.
pub open spec fn without_prefix(s: Seq<char>, c: char) -> Seq<char> {
    if s.len() > 0 && s[0] == c {
        s.skip(1)
    } else {
        s
    }
}

/// `s` without a trailing `c`.
pub open spec fn without_suffix(s: Seq<char>, c: char) -> Seq<char> {
    if s.len() > 0 && s.last() == c {
        s.drop_last()
    } else {
        s
    }
}

/// Whether `s` begins with `c`.
pub fn begins_with(s: &str, c: char) -> (r: bool)
    ensures
        r == (s@.len() > 0 && s@[0] == c),
{
    s.unicode_len() > 0 && s.get_char(0) == c
}

/// Whether `s` ends with `c`.
pub fn finishes_with(s: &str, c: char) -> (r: bool)
    ensures
        r == (s@.len() > 0 && s@.last() == c),
{
    let n: usize = s.unicode_len();
    n > 0 && s.get_char(n - 1) == c
}

/// `s` without a leading `c`.
pub fn trim_prefix(s: &str, c: char) -> (r: String)
    ensures
        r@ == without_prefix(s@, c),
{
    let chars: Vec<char> = chars_of(s);
    let from: usize = if chars.len() > 0 && chars[0] == c { 1 } else { 0 };
    let r: String = text_of(&chars, from, chars.len());
    assert(r@ =~= without_prefix(s@, c));
    r
}

/// `s` without a trailing `c`.
pub fn trim_suffix(s: &str, c: char) -> (r: String)
    ensures
        r@ == without_suffix(s@, c),
{
    let chars: Vec<char> = chars_of(s);
    let n: usize = chars.len();
    let to: usize = if n > 0 && chars[n - 1] == c { n - 1 } else { n };
    let r: String = text_of(&chars, 0, to);
    assert(r@ =~= without_suffix(s@, c));
    r
}

/// The number that the decimal digits of `s` write, most significant first.
pub open spec fn digits_value(s: Seq<char>) -> nat
    decreases s.len(),
{
    if s.len() == 0 {
        0
    } else {
        digits_value(s.drop_last()) * 10 + (s.last() as nat - '0' as nat) as nat
    }
}

/// Whether every character of `s` is a decimal digit.
pub open spec fn all_digits(s: Seq<char>) -> bool {
    forall|i: int| 0 <= i < s.len() ==> '0' <= #[trigger] s[i] <= '9'
}

/// A number comes back from its decimal notation, which has no zero in front of
/// another digit.
pub proof fn decimals_are_read_back(n: nat)
    ensures
        all_digits(decimal(n)),
        decimal(n).len() > 0,
        digits_value(decimal(n)) == n,
        n > 0 ==> decimal(n)[0] != '0',
        n == 0 ==> decimal(n) == seq!['0'],
    decreases n,
{
    let s = decimal(n);
    if n < 10 {
        assert(s.drop_last() =~= Seq::<char>::empty());
        assert(digits_value(s.drop_last()) == 0);
        assert(s.last() as nat - '0' as nat == n);
    } else {
        decimals_are_read_back(n / 10);
        assert(s.drop_last() =~= decimal(n / 10));
        assert(s.last() as nat - '0' as nat == n % 10);
        assert(s[0] == decimal(n / 10)[0]);
        assert forall|i: int| 0 <= i < s.len() implies '0' <= #[trigger] s[i] <= '9' by {
            if i < s.len() - 1 {
                assert(s[i] == decimal(n / 10)[i]);
            }
        }
    }
}

/// Behind the hexadecimal notation of a number stands one digit more for sixteen
/// times the number and less than sixteen more.
pub proof fn hexadecimals_grow_by_a_digit(n: nat, d: nat)
    requires
        d < 16,
    ensures
        hex(d).len() == 1,
        hex(d)[0] as int == if d < 10 {
            '0' as int + d
        } else {
            'a' as int + d - 10
        },
        n > 0 ==> hex(16 * n + d) == hex(n) + hex(d),
{
    if n > 0 {
        assert((16 * n + d) / 16 == n && (16 * n + d) % 16 == d);
        assert(hex(16 * n + d) =~= hex(n) + hex(d));
    }
}

/// Whether the text from `from` up to `to` is all that is left of `s` without
/// white space before and behind it.
pub open spec fn left_of(s: Seq<char>, from: int, to: int) -> bool {
    &&& 0 <= from <= to <= s.len()
    &&& forall|i: int| 0 <= i < from ==> is_white(#[trigger] s[i])
    &&& forall|i: int| to <= i < s.len() ==> is_white(#[trigger] s[i])
    &&& from < to ==> !is_white(s[from]) && !is_white(s[to - 1])
}

/// What is trimmed from a text is white space, and what is left neither begins nor
/// ends with it.
pub proof fn only_white_space_is_trimmed(s: Seq<char>) -> (r: (int, int))
    ensures
        left_of(s, r.0, r.1),
        trimmed(s) == s.subrange(r.0, r.1),
    decreases s.len(),
{
    if s.len() > 0 && is_white(s[0]) {
        let t = s.skip(1);
        let (from, to) = only_white_space_is_trimmed(t);
        assert(s.subrange(from + 1, to + 1) =~= t.subrange(from, to));
        assert forall|i: int| 0 <= i < from + 1 implies is_white(#[trigger] s[i]) by {
            if i > 0 {
                assert(t[i - 1] == s[i]);
            }
        }
        assert forall|i: int| to + 1 <= i < s.len() implies is_white(#[trigger] s[i]) by {
            assert(t[i - 1] == s[i]);
        }
        (from + 1, to + 1)
    } else if s.len() > 0 && is_white(s.last()) {
        let t = s.drop_last();
        let (from, to) = only_white_space_is_trimmed(t);
        assert(s.subrange(from, to) =~= t.subrange(from, to));
        assert forall|i: int| 0 <= i < from implies is_white(#[trigger] s[i]) by {
            assert(t[i] == s[i]);
        }
        assert forall|i: int| to <= i < s.len() implies is_white(#[trigger] s[i]) by {
            if i < t.len() {
                assert(t[i] == s[i]);
            }
        }
        (from, to)
    } else {
        assert(s.subrange(0, s.len() as int) =~= s);
        (0, s.len() as int)
    }
}

} // verus!
