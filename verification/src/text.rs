//! Text as sequences of characters: character classes, ASCII case mapping,
//! decimal numerals, and the way from a string to its characters and back.
//!
//! Every string in this crate is viewed as a `Seq<char>`, and a file as a
//! `Seq<Seq<char>>`, one entry per line.

use vstd::prelude::*;

verus! {

/// The five characters that count as ASCII whitespace: space, tab, line feed,
/// form feed and carriage return.
pub open spec fn is_space(c: char) -> bool {
    c == ' ' || c == '\t' || c == '\n' || c == '\x0C' || c == '\r'
}

/// The upper-case form of an ASCII letter; any other character is itself.
pub open spec fn upper_char(c: char) -> char {
    if 'a' <= c && c <= 'z' {
        ((c as u8) - 32) as char
    } else {
        c
    }
}

/// The lower-case form of an ASCII letter; any other character is itself.
pub open spec fn lower_char(c: char) -> char {
    if 'A' <= c && c <= 'Z' {
        ((c as u8) + 32) as char
    } else {
        c
    }
}

/// A text with every ASCII letter in upper case.
pub open spec fn to_upper(s: Seq<char>) -> Seq<char> {
    Seq::new(s.len(), |i: int| upper_char(s[i]))
}

/// A text with every ASCII letter in lower case.
pub open spec fn to_lower(s: Seq<char>) -> Seq<char> {
    Seq::new(s.len(), |i: int| lower_char(s[i]))
}

/// The character that writes the digit `d`, for `d` below ten.
pub open spec fn digit_char(d: nat) -> char {
    (48 + d) as char
}

/// The decimal numeral of `n`, most significant digit first, without leading
/// zeros (the numeral of zero is `"0"`).
pub open spec fn decimal(n: nat) -> Seq<char>
    decreases n,
{
    if n < 10 {
        seq![digit_char(n)]
    } else {
        decimal(n / 10).push(digit_char(n % 10))
    }
}

/// The texts of a list of strings, in order.
pub open spec fn texts(lines: Seq<String>) -> Seq<Seq<char>> {
    Seq::new(lines.len(), |i: int| lines[i]@)
}

/// Line numbers as natural numbers.
pub open spec fn as_nats(v: Seq<usize>) -> Seq<nat> {
    Seq::new(v.len(), |k: int| v[k] as nat)
}

/// `String::push` of the standard library appends one character to the end of
/// the string and leaves what was there before untouched. This is taken from
/// its documentation and is not proved here.
pub assume_specification[ String::push ](s: &mut String, c: char)
    ensures
        final(s)@ == old(s)@.push(c),
;

/// Whether the character is ASCII whitespace.
pub fn is_ascii_space(c: char) -> (b: bool)
    ensures
        b == is_space(c),
{
    c == ' ' || c == '\t' || c == '\n' || c == '\x0C' || c == '\r'
}

/// The upper-case form of the character.
pub fn ascii_upper(c: char) -> (r: char)
    ensures
        r == upper_char(c),
{
    if 'a' <= c && c <= 'z' {
        ((c as u8) - 32) as char
    } else {
        c
    }
}

/// The lower-case form of the character.
pub fn ascii_lower(c: char) -> (r: char)
    ensures
        r == lower_char(c),
{
    if 'A' <= c && c <= 'Z' {
        ((c as u8) + 32) as char
    } else {
        c
    }
}

/// The characters of a string, one entry per character.
pub fn to_chars(s: &str) -> (v: Vec<char>)
    ensures
        v@ == s@,
{
    let mut v: Vec<char> = Vec::new();
    for c in it: s.chars()
        invariant
            it.seq() == s@,
            v@ == it.seq().take(it.index() as int),
    {
        v.push(c);
    }
    v
}

/// Whether the stretch `v[from..to]` equals `w`.
pub fn range_eq(v: &Vec<char>, from: usize, to: usize, w: &Vec<char>) -> (b: bool)
    requires
        from <= to <= v.len(),
    ensures
        b == (v@.subrange(from as int, to as int) == w@),
{
    if to - from != w.len() {
        return false;
    }
    let mut k: usize = 0;
    while k < w.len()
        invariant
            from + w.len() == to,
            to <= v.len(),
            k <= w.len(),
            forall|j: int| 0 <= j < k ==> v@[from + j] == w@[j],
        decreases w.len() - k,
    {
        if v[from + k] != w[k] {
            return false;
        }
        k += 1;
    }
    assert(v@.subrange(from as int, to as int) =~= w@);
    true
}

/// Whether two strings hold the same text.
pub fn same_text(a: &str, b: &str) -> (r: bool)
    ensures
        r == (a@ == b@),
{
    let x = to_chars(a);
    let y = to_chars(b);
    assert(x@.subrange(0, x@.len() as int) =~= x@);
    range_eq(&x, 0, x.len(), &y)
}

/// Appends the characters `v[from..to]` to `out`.
pub fn push_chars(out: &mut String, v: &Vec<char>, from: usize, to: usize)
    requires
        from <= to <= v.len(),
    ensures
        final(out)@ == old(out)@ + v@.subrange(from as int, to as int),
{
    let mut i: usize = from;
    while i < to
        invariant
            from <= i <= to <= v.len(),
            out@ == old(out)@ + v@.subrange(from as int, i as int),
        decreases to - i,
    {
        out.push(v[i]);
        i += 1;
    }
}

/// The upper-case form of a string: ASCII letters change, all else stays.
pub fn uppercase(s: &str) -> (r: String)
    ensures
        r@ == to_upper(s@),
{
    let mut r = String::new();
    for c in it: s.chars()
        invariant
            it.seq() == s@,
            r@ == to_upper(it.seq().take(it.index() as int)),
    {
        r.push(ascii_upper(c));
    }
    r
}

/// The lower-case form of a string: ASCII letters change, all else stays.
pub fn lowercase(s: &str) -> (r: String)
    ensures
        r@ == to_lower(s@),
{
    let mut r = String::new();
    for c in it: s.chars()
        invariant
            it.seq() == s@,
            r@ == to_lower(it.seq().take(it.index() as int)),
    {
        r.push(ascii_lower(c));
    }
    r
}

fn digit(d: usize) -> (c: char)
    requires
        d < 10,
    ensures
        c == digit_char(d as nat),
{
    (48u8 + (d as u8)) as char
}

/// Appends the decimal numeral of `n` to `out`.
pub fn push_decimal(out: &mut String, n: usize)
    ensures
        final(out)@ == old(out)@ + decimal(n as nat),
    decreases n,
{
    if n >= 10 {
        push_decimal(out, n / 10);
    }
    out.push(digit(n % 10));
}

} // verus!
