//! Character-level helpers: hexadecimal and decimal rendering, searching,
//! comparing and slicing strings by character position.
use vstd::prelude::*;
use vstd::string::*;

verus! {

/// The lower-case hexadecimal digits, in order.
pub open spec fn hex_digits() -> Seq<char> {
    seq!['0', '1', '2', '3', '4', '5', '6', '7', '8', '9', 'a', 'b', 'c', 'd', 'e', 'f']
}

/// The lower-case hexadecimal digit for `n`, where `0 <= n < 16`.
pub open spec fn hex_digit(n: int) -> char {
    hex_digits()[n]
}

/// The decimal digits, in order.
pub open spec fn dec_digits() -> Seq<char> {
    seq!['0', '1', '2', '3', '4', '5', '6', '7', '8', '9']
}

/// Two lower-case hex digits for one byte (`{:02x}`).
pub open spec fn hex_byte(b: u8) -> Seq<char> {
    seq![hex_digit((b / 16) as int), hex_digit((b % 16) as int)]
}

/// The bytes of `s` as lower-case hex, two digits per byte, no separator.
pub open spec fn hex_of(s: Seq<u8>) -> Seq<char>
    decreases s.len(),
{
    if s.len() == 0 {
        seq![]
    } else {
        hex_of(s.drop_last()) + hex_byte(s.last())
    }
}

/// The bytes of `s` as lower-case hex pairs joined by `sep`.
pub open spec fn hex_joined(s: Seq<u8>, sep: char) -> Seq<char>
    decreases s.len(),
{
    if s.len() == 0 {
        seq![]
    } else if s.len() == 1 {
        hex_byte(s[0])
    } else {
        hex_joined(s.drop_last(), sep) + seq![sep] + hex_byte(s.last())
    }
}

/// Joined hex takes two digits per byte and one separator between bytes.
pub proof fn lemma_hex_joined_len(s: Seq<u8>, sep: char)
    requires
        s.len() > 0,
    ensures
        hex_joined(s, sep).len() == 3 * s.len() - 1,
    decreases s.len(),
{
    if s.len() > 1 {
        lemma_hex_joined_len(s.drop_last(), sep);
    }
}

/// A 16-bit value as exactly four lower-case hex digits (`{:04x}`).
pub open spec fn hex_u16(v: u16) -> Seq<char> {
    seq![
        hex_digit((v / 4096) as int),
        hex_digit(((v / 256) % 16) as int),
        hex_digit(((v / 16) % 16) as int),
        hex_digit((v % 16) as int),
    ]
}

/// The decimal rendering of `n` without leading zeros (`{}`).
pub open spec fn decimal(n: nat) -> Seq<char>
    decreases n,
{
    if n < 10 {
        seq![dec_digits()[n as int]]
    } else {
        decimal(n / 10) + seq![dec_digits()[(n % 10) as int]]
    }
}

/// `p` occurs in `s` starting at character position `i`.
pub open spec fn occurs_at(s: Seq<char>, p: Seq<char>, i: int) -> bool {
    0 <= i && i + p.len() <= s.len() && s.subrange(i, i + p.len()) == p
}

/// `p` occurs somewhere in `s` (`str::contains`).
pub open spec fn contains_seq(s: Seq<char>, p: Seq<char>) -> bool {
    exists|i: int| occurs_at(s, p, i)
}

/// The first position at or after `from` where `p` occurs in `s`, if any.
pub open spec fn first_occurrence_from(s: Seq<char>, p: Seq<char>, from: int) -> Option<int>
    decreases s.len() + 1 - from,
{
    if from < 0 || from + p.len() > s.len() {
        None
    } else if occurs_at(s, p, from) {
        Some(from)
    } else {
        first_occurrence_from(s, p, from + 1)
    }
}

/// The first position where `p` occurs in `s` (`str::find`), if any.
pub open spec fn first_occurrence(s: Seq<char>, p: Seq<char>) -> Option<int> {
    first_occurrence_from(s, p, 0)
}

/// `p` is a prefix of `s`.
pub open spec fn starts_with_seq(s: Seq<char>, p: Seq<char>) -> bool {
    p.len() <= s.len() && s.take(p.len() as int) == p
}

/// `p` is a suffix of `s`.
pub open spec fn ends_with_seq(s: Seq<char>, p: Seq<char>) -> bool {
    p.len() <= s.len() && s.skip(s.len() - p.len()) == p
}

/// Number of bytes of the UTF-8 encoding of `c`.
pub open spec fn utf8_width(c: char) -> nat {
    vstd::utf8::encode_scalar(c as u32).len()
}

/// Number of bytes of the UTF-8 encoding of `s`.
pub open spec fn utf8_len(s: Seq<char>) -> nat {
    vstd::utf8::encode_utf8(s).len()
}

/// A proof that the first occurrence found from `from` is the first at or after it.
pub proof fn lemma_first_occurrence_from(s: Seq<char>, p: Seq<char>, from: int)
    requires
        0 <= from,
    ensures
        first_occurrence_from(s, p, from) matches Some(i) ==> from <= i && occurs_at(s, p, i)
            && forall|j: int| from <= j < i ==> !occurs_at(s, p, j),
        first_occurrence_from(s, p, from) is None ==> forall|j: int|
            from <= j ==> !occurs_at(s, p, j),
    decreases s.len() + 1 - from,
{
    if from + p.len() > s.len() {
    } else if occurs_at(s, p, from) {
    } else {
        lemma_first_occurrence_from(s, p, from + 1);
    }
}

/// Appends `t` to `s`.
pub fn push_str(s: &mut String, t: &str)
    ensures
        final(s)@ == old(s)@ + t@,
{
    s.append(t);
}

/// A new `String` holding the characters of `t`.
pub fn owned(t: &str) -> (r: String)
    ensures
        r@ == t@,
{
    t.to_string()
}

/// The characters of a string slice, one by one.
pub fn chars_of(s: &str) -> (r: Vec<char>)
    ensures
        r@ == s@,
{
    let mut r: Vec<char> = Vec::new();
    for c in it: s.chars()
        invariant
            r@ == it.seq().take(it.index() as int),
            it.seq() == s@,
    {
        r.push(c);
    }
    r
}

/// Appends the lower-case hex digit for `d` to `s`.
pub fn push_hex_digit(s: &mut String, d: u8)
    requires
        d < 16,
    ensures
        final(s)@ == old(s)@.push(hex_digit(d as int)),
{
    let digits = "0123456789abcdef";
    proof {
        reveal_strlit("0123456789abcdef");
    }
    assert(digits@ =~= hex_digits());
    let one = digits.substring_ascii(d as usize, d as usize + 1);
    assert(one@ =~= seq![hex_digit(d as int)]);
    s.append(one);
}

/// Appends the decimal digit `d` to `s`.
pub fn push_dec_digit(s: &mut String, d: u64)
    requires
        d < 10,
    ensures
        final(s)@ == old(s)@.push(dec_digits()[d as int]),
{
    let digits = "0123456789";
    proof {
        reveal_strlit("0123456789");
    }
    assert(digits@ =~= dec_digits());
    let one = digits.substring_ascii(d as usize, d as usize + 1);
    assert(one@ =~= seq![dec_digits()[d as int]]);
    s.append(one);
}

/// Appends two lower-case hex digits for `b` to `s`.
pub fn push_hex_byte(s: &mut String, b: u8)
    ensures
        final(s)@ == old(s)@ + hex_byte(b),
{
    push_hex_digit(s, b / 16);
    push_hex_digit(s, b % 16);
    assert(s@ =~= old(s)@ + hex_byte(b));
}

/// Appends the decimal rendering of `n` to `s`.
pub fn push_decimal(s: &mut String, n: u64)
    ensures
        final(s)@ == old(s)@ + decimal(n as nat),
    decreases n,
{
    if n >= 10 {
        push_decimal(s, n / 10);
    }
    push_dec_digit(s, n % 10);
    assert(s@ =~= old(s)@ + decimal(n as nat));
}

/// Appends `0x` and four hex digits of `v` to `s` (`0x{:04x}`).
pub fn push_hex_u16(s: &mut String, v: u16)
    ensures
        final(s)@ == old(s)@ + "0x"@ + hex_u16(v),
{
    push_str(s, "0x");
    push_hex_digit(s, (v / 4096) as u8);
    push_hex_digit(s, ((v / 256) % 16) as u8);
    push_hex_digit(s, ((v / 16) % 16) as u8);
    push_hex_digit(s, (v % 16) as u8);
    assert(s@ =~= old(s)@ + "0x"@ + hex_u16(v));
}

/// The bytes of `data` as lower-case hex, two digits each.
pub fn bytes_to_hex(data: &[u8]) -> (r: String)
    ensures
        r@ == hex_of(data@),
{
    let mut s = String::new();
    let mut i: usize = 0;
    while i < data.len()
        invariant
            i <= data@.len(),
            s@ == hex_of(data@.take(i as int)),
        decreases data@.len() - i,
    {
        let ghost before = s@;
        push_hex_byte(&mut s, data[i]);
        assert(data@.take(i + 1).drop_last() =~= data@.take(i as int));
        i = i + 1;
    }
    assert(data@.take(i as int) =~= data@);
    s
}

/// The bytes of `data` as lower-case hex pairs joined by `:`.
pub fn bytes_to_hex_colon(data: &[u8]) -> (r: String)
    ensures
        r@ == hex_joined(data@, ':'),
{
    let mut s = String::new();
    let mut i: usize = 0;
    while i < data.len()
        invariant
            i <= data@.len(),
            s@ == hex_joined(data@.take(i as int), ':'),
        decreases data@.len() - i,
    {
        if i > 0 {
            push_str(&mut s, ":");
            proof {
                reveal_strlit(":");
            }
        }
        push_hex_byte(&mut s, data[i]);
        assert(data@.take(i + 1).drop_last() =~= data@.take(i as int));
        proof {
            if i == 0 {
                assert(data@.take(1) =~= seq![data@[0]]);
            }
        }
        assert(s@ =~= hex_joined(data@.take(i + 1), ':'));
        i = i + 1;
    }
    assert(data@.take(i as int) =~= data@);
    s
}

/// Whether `p` occurs in `s` at character position `i`.
pub fn occurs_at_exec(s: &Vec<char>, p: &Vec<char>, i: usize) -> (r: bool)
    ensures
        r == occurs_at(s@, p@, i as int),
{
    if i > s.len() || p.len() > s.len() - i {
        return false;
    }
    let mut k: usize = 0;
    while k < p.len()
        invariant
            i + p@.len() <= s@.len(),
            i + p.len() <= s.len(),
            k <= p@.len(),
            forall|j: int| 0 <= j < k ==> s@[i + j] == p@[j],
        decreases p@.len() - k,
    {
        if s[i + k] != p[k] {
            assert(s@.subrange(i as int, i + p@.len())[k as int] != p@[k as int]);
            return false;
        }
        k = k + 1;
    }
    assert(s@.subrange(i as int, i + p@.len()) =~= p@);
    true
}

/// The first character position at or after `from` where `p` occurs in `s`.
pub fn find_from(s: &Vec<char>, p: &Vec<char>, from: usize) -> (r: Option<usize>)
    ensures
        r matches Some(i) ==> first_occurrence_from(s@, p@, from as int) == Some(i as int),
        r is None ==> first_occurrence_from(s@, p@, from as int) is None,
{
    proof {
        lemma_first_occurrence_from(s@, p@, from as int);
    }
    if from > s.len() || p.len() > s.len() - from {
        return None;
    }
    let mut i: usize = from;
    while i <= s.len() && p.len() <= s.len() - i
        invariant
            from <= i,
            i <= s@.len(),
            forall|j: int| from <= j < i ==> !occurs_at(s@, p@, j),
            first_occurrence_from(s@, p@, from as int) == first_occurrence_from(s@, p@, i as int),
        decreases s@.len() - i,
    {
        assert(p@.len() == 0 ==> s@.subrange(i as int, i as int) =~= p@);
        if occurs_at_exec(s, p, i) {
            return Some(i);
        }
        i = i + 1;
    }
    None
}

/// Whether `p` occurs in `s` (`str::contains`).
pub fn str_contains(s: &str, p: &str) -> (r: bool)
    ensures
        r == contains_seq(s@, p@),
{
    let sv = chars_of(s);
    let pv = chars_of(p);
    let found = find_from(&sv, &pv, 0);
    proof {
        lemma_first_occurrence_from(s@, p@, 0);
    }
    found.is_some()
}

/// The first character position where `p` occurs in `s` (`str::find`, by character).
pub fn str_find(s: &str, p: &str) -> (r: Option<usize>)
    ensures
        r matches Some(i) ==> first_occurrence(s@, p@) == Some(i as int),
        r is None ==> first_occurrence(s@, p@) is None,
{
    let sv = chars_of(s);
    let pv = chars_of(p);
    find_from(&sv, &pv, 0)
}

/// Whether `s` and `t` hold the same characters.
pub fn str_eq(s: &str, t: &str) -> (r: bool)
    ensures
        r == (s@ == t@),
{
    let sv = chars_of(s);
    let tv = chars_of(t);
    if sv.len() != tv.len() {
        return false;
    }
    let r = occurs_at_exec(&sv, &tv, 0);
    assert(sv@.subrange(0, tv@.len() as int) =~= sv@);
    r
}

/// Whether `s` begins with `p`.
pub fn str_starts_with(s: &str, p: &str) -> (r: bool)
    ensures
        r == starts_with_seq(s@, p@),
{
    let sv = chars_of(s);
    let pv = chars_of(p);
    let r = occurs_at_exec(&sv, &pv, 0);
    assert(sv@.subrange(0, pv@.len() as int) =~= sv@.take(pv@.len() as int));
    r
}

/// Whether `s` ends with `p`.
pub fn str_ends_with(s: &str, p: &str) -> (r: bool)
    ensures
        r == ends_with_seq(s@, p@),
{
    let sv = chars_of(s);
    let pv = chars_of(p);
    if pv.len() > sv.len() {
        return false;
    }
    let r = occurs_at_exec(&sv, &pv, sv.len() - pv.len());
    assert(sv@.subrange(sv@.len() - pv@.len(), sv@.len() as int) =~= sv@.skip(
        sv@.len() - pv@.len(),
    ));
    r
}

/// Number of characters of `s`.
pub fn char_count(s: &str) -> (r: usize)
    ensures
        r == s@.len(),
{
    s.unicode_len()
}

} // verus!
