//! Text primitives on sequences of characters: conversion between strings and
//! character vectors, ASCII case folding, trimming, splitting, and unsigned
//! decimal numbers.
use vstd::prelude::*;

verus! {

/// `String::push` appends one character to the end of the string.
pub assume_specification[ String::push ](s: &mut String, c: char)
    ensures
        final(s)@ == old(s)@.push(c),
;

/// The characters of a string, in order.
pub fn chars_of(s: &str) -> (v: Vec<char>)
    ensures
        v@ == s@,
{
    let mut v: Vec<char> = Vec::new();
    for c in it: s.chars()
        invariant
            v@ == it.seq().take(it.index() as int),
            it.seq() == s@,
    {
        v.push(c);
    }
    v
}

/// The string made of the given characters.
pub fn string_of(v: &Vec<char>) -> (s: String)
    ensures
        s@ == v@,
{
    let mut s = String::new();
    let mut i: usize = 0;
    while i < v.len()
        invariant
            i <= v.len(),
            s@ == v@.take(i as int),
        decreases v.len() - i,
    {
        s.push(v[i]);
        i += 1;
    }
    s
}

/// Appends the characters of `tail` to `out`.
pub fn push_all(out: &mut Vec<char>, tail: &Vec<char>)
    ensures
        final(out)@ == old(out)@ + tail@,
{
    let mut i: usize = 0;
    while i < tail.len()
        invariant
            i <= tail.len(),
            out@ == old(out)@ + tail@.take(i as int),
        decreases tail.len() - i,
    {
        out.push(tail[i]);
        i += 1;
    }
}

/// Appends the characters of the string `tail` to `out`.
pub fn push_str(out: &mut Vec<char>, tail: &str)
    ensures
        final(out)@ == old(out)@ + tail@,
{
    let t = chars_of(tail);
    push_all(out, &t);
}

/// A copy of the characters of `v` from `start` up to, not including, `end`.
pub fn subvec(v: &Vec<char>, start: usize, end: usize) -> (r: Vec<char>)
    requires
        start <= end <= v.len(),
    ensures
        r@ == v@.subrange(start as int, end as int),
{
    let mut r: Vec<char> = Vec::new();
    let mut i: usize = start;
    while i < end
        invariant
            start <= i <= end <= v.len(),
            r@ == v@.subrange(start as int, i as int),
        decreases end - i,
    {
        r.push(v[i]);
        i += 1;
    }
    r
}

/// Whether two character vectors hold the same text.
pub fn same_text(a: &Vec<char>, b: &Vec<char>) -> (r: bool)
    ensures
        r == (a@ == b@),
{
    if a.len() != b.len() {
        return false;
    }
    let mut i: usize = 0;
    while i < a.len()
        invariant
            i <= a.len(),
            a.len() == b.len(),
            a@.take(i as int) == b@.take(i as int),
        decreases a.len() - i,
    {
        if a[i] != b[i] {
            return false;
        }
        assert(a@.take(i + 1) == a@.take(i as int).push(a@[i as int]));
        assert(b@.take(i + 1) == b@.take(i as int).push(b@[i as int]));
        i += 1;
    }
    assert(a@.take(a.len() as int) == a@);
    assert(b@.take(b.len() as int) == b@);
    true
}

/// Whether the characters are those of the string `lit`.
pub fn is_text(a: &Vec<char>, lit: &str) -> (r: bool)
    ensures
        r == (a@ == lit@),
{
    let b = chars_of(lit);
    same_text(a, &b)
}

/// Whether `s` begins with `prefix`.
pub open spec fn has_prefix(s: Seq<char>, prefix: Seq<char>) -> bool {
    prefix.len() <= s.len() && s.subrange(0, prefix.len() as int) == prefix
}

/// Whether the characters begin with those of the string `lit`.
pub fn starts_with(a: &Vec<char>, lit: &str) -> (r: bool)
    ensures
        r == has_prefix(a@, lit@),
{
    let b = chars_of(lit);
    if b.len() > a.len() {
        return false;
    }
    let head = subvec(a, 0, b.len());
    same_text(&head, &b)
}


/// The ASCII lower-case form of a character; other characters are unchanged.
pub open spec fn lower_char(c: char) -> char {
    if 'A' <= c && c <= 'Z' {
        ((c as u8) + 32) as u8 as char
    } else {
        c
    }
}

/// The text with every ASCII upper-case letter replaced by its lower-case form.
pub open spec fn lowered(s: Seq<char>) -> Seq<char> {
    Seq::new(s.len(), |i: int| lower_char(s[i]))
}

/// Folds one character to ASCII lower case.
pub fn to_lower_char(c: char) -> (r: char)
    ensures
        r == lower_char(c),
{
    if 'A' <= c && c <= 'Z' {
        ((c as u8) + 32) as char
    } else {
        c
    }
}

/// Folds a text to ASCII lower case.
pub fn to_lower(v: &Vec<char>) -> (r: Vec<char>)
    ensures
        r@ == lowered(v@),
{
    let mut r: Vec<char> = Vec::new();
    let mut i: usize = 0;
    while i < v.len()
        invariant
            i <= v.len(),
            r@ == lowered(v@).take(i as int),
        decreases v.len() - i,
    {
        r.push(to_lower_char(v[i]));
        i += 1;
    }
    r
}

/// Whether a character is white space (the Unicode property `White_Space`).
pub open spec fn is_space(c: char) -> bool {
    let n = c as u32;
    (0x09 <= n && n <= 0x0d) || n == 0x20 || n == 0x85 || n == 0xa0 || n == 0x1680 || (0x2000 <= n
        && n <= 0x200a) || n == 0x2028 || n == 0x2029 || n == 0x202f || n == 0x205f || n == 0x3000
}

/// Tests a character for white space.
pub fn is_space_char(c: char) -> (r: bool)
    ensures
        r == is_space(c),
{
    let n: u32 = c as u32;
    (0x09 <= n && n <= 0x0d) || n == 0x20 || n == 0x85 || n == 0xa0 || n == 0x1680 || (0x2000 <= n
        && n <= 0x200a) || n == 0x2028 || n == 0x2029 || n == 0x202f || n == 0x205f || n == 0x3000
}

/// The first position at or after `i` that holds no white space.
pub open spec fn trim_start_at(s: Seq<char>, i: int) -> int
    decreases s.len() - i,
{
    if 0 <= i < s.len() && is_space(s[i]) {
        trim_start_at(s, i + 1)
    } else {
        i
    }
}

/// The end of the text that is left of `s[lo..j]` once trailing white space
/// is removed.
pub open spec fn trim_end_at(s: Seq<char>, lo: int, j: int) -> int
    decreases j,
{
    if 0 <= lo < j <= s.len() && is_space(s[j - 1]) {
        trim_end_at(s, lo, j - 1)
    } else {
        j
    }
}

/// The text without leading and trailing white space.
pub open spec fn trimmed(s: Seq<char>) -> Seq<char> {
    let a = trim_start_at(s, 0);
    let b = trim_end_at(s, a, s.len() as int);
    s.subrange(a, b)
}

/// Removes leading and trailing white space.
pub fn trim(v: &Vec<char>) -> (r: Vec<char>)
    ensures
        r@ == trimmed(v@),
{
    let mut a: usize = 0;
    while a < v.len() && is_space_char(v[a])
        invariant
            a <= v.len(),
            trim_start_at(v@, a as int) == trim_start_at(v@, 0),
        decreases v.len() - a,
    {
        a += 1;
    }
    let mut b: usize = v.len();
    while a < b && is_space_char(v[b - 1])
        invariant
            a <= b <= v.len(),
            trim_end_at(v@, a as int, b as int) == trim_end_at(v@, a as int, v.len() as int),
        decreases b,
    {
        b -= 1;
    }
    subvec(v, a, b)
}

/// The pieces of `s` between occurrences of `sep`, where the piece being
/// read began at `start` and the scan stands at `i`.
pub open spec fn split_from(s: Seq<char>, sep: char, start: int, i: int) -> Seq<Seq<char>>
    decreases s.len() - i,
{
    if i >= s.len() || i < 0 {
        seq![s.subrange(start, s.len() as int)]
    } else if s[i] == sep {
        seq![s.subrange(start, i)] + split_from(s, sep, i + 1, i + 1)
    } else {
        split_from(s, sep, start, i + 1)
    }
}

/// The pieces of `s` between occurrences of `sep`: one more than the number
/// of separators, in order; a piece may be empty.
pub open spec fn split(s: Seq<char>, sep: char) -> Seq<Seq<char>> {
    split_from(s, sep, 0, 0)
}

/// The texts held by a vector of character vectors.
pub open spec fn texts(parts: Seq<Vec<char>>) -> Seq<Seq<char>> {
    Seq::new(parts.len(), |i: int| parts[i]@)
}

/// Splits a text at every occurrence of `sep`.
pub fn split_text(v: &Vec<char>, sep: char) -> (parts: Vec<Vec<char>>)
    ensures
        texts(parts@) == split(v@, sep),
{
    let mut parts: Vec<Vec<char>> = Vec::new();
    let mut start: usize = 0;
    let mut i: usize = 0;
    while i < v.len()
        invariant
            start <= i <= v.len(),
            split(v@, sep) == texts(parts@) + split_from(v@, sep, start as int, i as int),
        decreases v.len() - i,
    {
        if v[i] == sep {
            let piece = subvec(v, start, i);
            proof {
                assert(texts(parts@.push(piece)) == texts(parts@) + seq![piece@]);
            }
            parts.push(piece);
            start = i + 1;
        }
        i += 1;
    }
    let piece = subvec(v, start, v.len());
    proof {
        assert(texts(parts@.push(piece)) == texts(parts@) + seq![piece@]);
    }
    parts.push(piece);
    parts
}

/// Whether `c` occurs in `s`.
pub fn contains_char(v: &Vec<char>, c: char) -> (r: bool)
    ensures
        r == v@.contains(c),
{
    let mut i: usize = 0;
    while i < v.len()
        invariant
            i <= v.len(),
            forall|k: int| 0 <= k < i ==> v@[k] != c,
        decreases v.len() - i,
    {
        if v[i] == c {
            return true;
        }
        i += 1;
    }
    false
}

/// Whether a character is one of the ten ASCII digits.
pub open spec fn is_digit(c: char) -> bool {
    '0' <= c && c <= '9'
}

/// The number that a digit stands for; 0 for any other character.
pub open spec fn digit_value(c: char) -> nat {
    if is_digit(c) {
        (c as u32 - '0' as u32) as nat
    } else {
        0
    }
}

/// The digit that stands for a number below ten.
pub open spec fn digit_char(d: nat) -> char {
    (d + 48) as u8 as char
}

/// Whether every character of `s` is a digit.
pub open spec fn all_digits(s: Seq<char>) -> bool {
    forall|i: int| 0 <= i < s.len() ==> is_digit(#[trigger] s[i])
}

/// The number written by a text of digits, most significant digit first.
pub open spec fn digits_value(s: Seq<char>) -> nat
    decreases s.len(),
{
    if s.len() == 0 {
        0
    } else {
        digits_value(s.drop_last()) * 10 + digit_value(s.last())
    }
}

/// The decimal digits of a number, without leading zeros.
pub open spec fn decimal_text(n: nat) -> Seq<char>
    decreases n,
{
    if n < 10 {
        seq![digit_char(n)]
    } else {
        decimal_text(n / 10).push(digit_char(n % 10))
    }
}

/// The text after an optional leading plus sign.
pub open spec fn unsigned_body(s: Seq<char>) -> Seq<char> {
    if s.len() > 0 && s[0] == '+' {
        s.subrange(1, s.len() as int)
    } else {
        s
    }
}

/// The 32-bit unsigned number that a text writes: an optional plus sign and
/// then one or more digits whose value fits; `None` for any other text.
pub open spec fn spec_parse_u32(s: Seq<char>) -> Option<u32> {
    let body = unsigned_body(s);
    if body.len() > 0 && all_digits(body) && digits_value(body) <= u32::MAX {
        Some(digits_value(body) as u32)
    } else {
        None
    }
}

/// A prefix of a text of digits writes a number that is no larger.
pub proof fn lemma_digits_value_prefix(s: Seq<char>, k: int)
    requires
        0 <= k <= s.len(),
    ensures
        digits_value(s.take(k)) <= digits_value(s),
    decreases s.len() - k,
{
    if k == s.len() {
        assert(s.take(k) == s);
    } else {
        lemma_digits_value_prefix(s.drop_last(), k);
        assert(s.drop_last().take(k) == s.take(k));
    }
}

/// Reads a 32-bit unsigned decimal number.
pub fn parse_u32(v: &Vec<char>) -> (r: Option<u32>)
    ensures
        r == spec_parse_u32(v@),
{
    let first: usize = if v.len() > 0 && v[0] == '+' { 1 } else { 0 };
    let ghost body = unsigned_body(v@);
    assert(body == v@.subrange(first as int, v.len() as int));
    if first == v.len() {
        return None;
    }
    let mut acc: u64 = 0;
    let mut i: usize = first;
    while i < v.len()
        invariant
            first <= i <= v.len(),
            body == v@.subrange(first as int, v.len() as int),
            body == unsigned_body(v@),
            all_digits(body.take(i - first)),
            acc == digits_value(body.take(i - first)),
            acc <= u32::MAX,
        decreases v.len() - i,
    {
        let c = v[i];
        let ghost k = i - first;
        assert(body[k] == c);
        if !('0' <= c && c <= '9') {
            assert(!is_digit(body[k]));
            return None;
        }
        let d: u64 = (c as u32 - '0' as u32) as u64;
        proof {
            assert(body.take(k + 1).drop_last() == body.take(k));
            assert(body.take(k + 1).last() == c);
            assert(digits_value(body.take(k + 1)) == acc * 10 + d);
            lemma_digits_value_prefix(body, k + 1);
            assert forall|j: int| 0 <= j < k + 1 implies is_digit(
                #[trigger] body.take(k + 1)[j],
            ) by {
                if j < k {
                    assert(body.take(k + 1)[j] == body.take(k)[j]);
                }
            }
        }
        acc = acc * 10 + d;
        if acc > 0xffff_ffff {
            return None;
        }
        i += 1;
    }
    assert(body.take(i - first) == body);
    Some(acc as u32)
}

/// Appends the decimal digits of `n`.
pub fn push_decimal(out: &mut Vec<char>, n: u64)
    ensures
        final(out)@ == old(out)@ + decimal_text(n as nat),
    decreases n,
{
    if n >= 10 {
        push_decimal(out, n / 10);
    }
    let d: u8 = (n % 10) as u8;
    out.push((48u8 + d) as char);
}

/// A number below ten and its digit stand for each other.
pub proof fn lemma_digit_char(d: nat)
    requires
        d < 10,
    ensures
        is_digit(digit_char(d)),
        digit_value(digit_char(d)) == d,
        (d == 0) == (digit_char(d) == '0'),
{
    assert('0' as u32 == 48);
    assert(digit_char(d) as u32 == d + 48);
}

/// The digits of a number are digits, and they write that number.
pub proof fn lemma_decimal_text(n: nat)
    ensures
        decimal_text(n).len() >= 1,
        all_digits(decimal_text(n)),
        digits_value(decimal_text(n)) == n,
        n > 0 ==> decimal_text(n)[0] != '0',
    decreases n,
{
    lemma_digit_char(n % 10);
    if n < 10 {
        assert(decimal_text(n).drop_last() == Seq::<char>::empty());
        assert(digits_value(decimal_text(n)) == digits_value(Seq::<char>::empty()) * 10 + n);
    } else {
        lemma_decimal_text(n / 10);
        assert(decimal_text(n).drop_last() == decimal_text(n / 10));
        assert(decimal_text(n).last() == digit_char(n % 10));
    }
}

/// Reading the digits of a 32-bit number gives the number back.
pub proof fn lemma_parse_decimal_text(n: u32)
    ensures
        spec_parse_u32(decimal_text(n as nat)) == Some(n),
{
    lemma_decimal_text(n as nat);
}

/// Whether a character is neither white space nor an upper-case letter.
pub open spec fn is_plain(c: char) -> bool {
    !is_space(c) && !('A' <= c && c <= 'Z')
}

/// Whether every character of a text is plain.
pub open spec fn all_plain(s: Seq<char>) -> bool {
    forall|i: int| 0 <= i < s.len() ==> is_plain(#[trigger] s[i])
}

/// Trimming and folding leave a text of plain characters as it is.
pub proof fn lemma_plain_text(s: Seq<char>)
    requires
        all_plain(s),
    ensures
        lowered(trimmed(s)) == s,
{
    if s.len() > 0 {
        assert(is_plain(s[0]));
        assert(is_plain(s[s.len() - 1]));
    }
    assert(trim_start_at(s, 0) == 0);
    assert(trim_end_at(s, 0, s.len() as int) == s.len());
    assert(s.subrange(0, s.len() as int) == s);
    assert forall|i: int| 0 <= i < s.len() implies lowered(s)[i] == s[i] by {
        assert(is_plain(s[i]));
    }
    assert(lowered(s) == s);
}

/// Two texts of plain characters, one after the other, are plain.
pub proof fn lemma_plain_concat(a: Seq<char>, b: Seq<char>)
    requires
        all_plain(a),
        all_plain(b),
    ensures
        all_plain(a + b),
{
    assert forall|i: int| 0 <= i < (a + b).len() implies is_plain(#[trigger] (a + b)[i]) by {
        if i < a.len() {
            assert((a + b)[i] == a[i]);
        } else {
            assert((a + b)[i] == b[i - a.len()]);
        }
    }
}

/// A text of digits is plain and holds none of the characters that separate
/// the parts of a parameter.
pub proof fn lemma_digits_plain(s: Seq<char>)
    requires
        all_digits(s),
    ensures
        all_plain(s),
        !s.contains(','),
        !s.contains('.'),
        !s.contains('/'),
{
    assert forall|i: int| 0 <= i < s.len() implies is_plain(#[trigger] s[i]) by {
        assert(is_digit(s[i]));
    }
    assert forall|i: int| 0 <= i < s.len() implies s[i] != ',' && s[i] != '.' && s[i] != '/' by {
        assert(is_digit(s[i]));
    }
}

/// Scanning over characters other than the separator does not change the
/// pieces that follow.
pub proof fn lemma_split_scan(s: Seq<char>, sep: char, start: int, i: int, j: int)
    requires
        0 <= i <= j <= s.len(),
        forall|k: int| i <= k < j ==> s[k] != sep,
    ensures
        split_from(s, sep, start, i) == split_from(s, sep, start, j),
    decreases j - i,
{
    if i < j {
        lemma_split_scan(s, sep, start, i + 1, j);
    }
}

/// The pieces of a text that stands behind another are the pieces of the
/// text itself.
pub proof fn lemma_split_shift(p: Seq<char>, s: Seq<char>, sep: char, start: int, i: int)
    requires
        0 <= start <= i <= s.len(),
    ensures
        split_from(p + s, sep, p.len() + start, p.len() + i) == split_from(s, sep, start, i),
    decreases s.len() - i,
{
    let t = p + s;
    let n = p.len() as int;
    if i >= s.len() {
        assert(t.subrange(n + start, t.len() as int) == s.subrange(start, s.len() as int));
    } else {
        assert(t[n + i] == s[i]);
        if s[i] == sep {
            assert(t.subrange(n + start, n + i) == s.subrange(start, i));
            lemma_split_shift(p, s, sep, i + 1, i + 1);
        } else {
            lemma_split_shift(p, s, sep, start, i + 1);
        }
    }
}

/// A text without the separator is its own single piece.
pub proof fn lemma_split_single(a: Seq<char>, sep: char)
    requires
        !a.contains(sep),
    ensures
        split(a, sep) == seq![a],
{
    assert forall|k: int| 0 <= k < a.len() implies a[k] != sep by {
        assert(a.contains(a[k]));
    }
    lemma_split_scan(a, sep, 0, 0, a.len() as int);
    assert(a.subrange(0, a.len() as int) == a);
}

/// The pieces of `a`, a separator and `b`, where `a` holds no separator, are
/// `a` and then the pieces of `b`.
pub proof fn lemma_split_concat(a: Seq<char>, sep: char, b: Seq<char>)
    requires
        !a.contains(sep),
    ensures
        split(a + seq![sep] + b, sep) == seq![a] + split(b, sep),
{
    let p = a + seq![sep];
    let t = p + b;
    let n = a.len() as int;
    assert forall|k: int| 0 <= k < n implies t[k] != sep by {
        assert(t[k] == a[k]);
        assert(a.contains(a[k]));
    }
    lemma_split_scan(t, sep, 0, 0, n);
    assert(t[n] == sep);
    assert(t.subrange(0, n) == a);
    lemma_split_shift(p, b, sep, 0, 0);
    assert(p.len() == n + 1);
}

/// The digits of a 32-bit number: at least one, all plain, none of them a
/// comma, and they read back as the number.
pub proof fn lemma_number_text(n: u32)
    ensures
        decimal_text(n as nat).len() >= 1,
        all_digits(decimal_text(n as nat)),
        is_digit(decimal_text(n as nat)[0]),
        all_plain(decimal_text(n as nat)),
        !decimal_text(n as nat).contains(','),
        spec_parse_u32(decimal_text(n as nat)) == Some(n),
{
    lemma_decimal_text(n as nat);
    lemma_digits_plain(decimal_text(n as nat));
    lemma_parse_decimal_text(n);
}

/// The pieces of two numbers around a comma are the two numbers.
pub proof fn lemma_split_two_numbers(a: u32, b: u32)
    ensures
        split(decimal_text(a as nat) + seq![','] + decimal_text(b as nat), ',') == seq![
            decimal_text(a as nat),
            decimal_text(b as nat),
        ],
{
    lemma_number_text(a);
    lemma_number_text(b);
    lemma_split_concat(decimal_text(a as nat), ',', decimal_text(b as nat));
    lemma_split_single(decimal_text(b as nat), ',');
}

/// A text whose first character is not that of a prefix does not begin with
/// the prefix.
pub proof fn lemma_no_prefix(s: Seq<char>, prefix: Seq<char>)
    requires
        prefix.len() > 0,
        s.len() == 0 || s[0] != prefix[0],
    ensures
        !has_prefix(s, prefix),
{
    if prefix.len() <= s.len() {
        assert(s.subrange(0, prefix.len() as int)[0] == s[0]);
    }
}

/// The pieces of four texts without the separator, joined by it, are the
/// four texts.
pub proof fn lemma_split_four(a: Seq<char>, b: Seq<char>, c: Seq<char>, d: Seq<char>, sep: char)
    requires
        !a.contains(sep),
        !b.contains(sep),
        !c.contains(sep),
        !d.contains(sep),
    ensures
        split(a + seq![sep] + b + seq![sep] + c + seq![sep] + d, sep) == seq![a, b, c, d],
{
    let cd = c + seq![sep] + d;
    let bcd = b + seq![sep] + cd;
    lemma_split_single(d, sep);
    lemma_split_concat(c, sep, d);
    assert(split(cd, sep) == seq![c, d]);
    lemma_split_concat(b, sep, cd);
    assert(split(bcd, sep) == seq![b, c, d]);
    lemma_split_concat(a, sep, bcd);
    assert(a + seq![sep] + b + seq![sep] + c + seq![sep] + d == a + seq![sep] + bcd);
    assert(seq![a] + seq![b, c, d] == seq![a, b, c, d]);
}

/// Four plain texts joined by commas are plain.
pub proof fn lemma_plain_four(a: Seq<char>, b: Seq<char>, c: Seq<char>, d: Seq<char>)
    requires
        all_plain(a),
        all_plain(b),
        all_plain(c),
        all_plain(d),
    ensures
        all_plain(a + seq![','] + b + seq![','] + c + seq![','] + d),
{
    assert(all_plain(seq![',']));
    lemma_plain_concat(a, seq![',']);
    lemma_plain_concat(a + seq![','], b);
    lemma_plain_concat(a + seq![','] + b, seq![',']);
    lemma_plain_concat(a + seq![','] + b + seq![','], c);
    lemma_plain_concat(a + seq![','] + b + seq![','] + c, seq![',']);
    lemma_plain_concat(a + seq![','] + b + seq![','] + c + seq![','], d);
}

/// A character that occurs in neither of two texts does not occur in the
/// one followed by the other.
pub proof fn lemma_concat_lacks(a: Seq<char>, b: Seq<char>, c: char)
    requires
        !a.contains(c),
        !b.contains(c),
    ensures
        !(a + b).contains(c),
{
    assert forall|i: int| 0 <= i < (a + b).len() implies (a + b)[i] != c by {
        if i < a.len() {
            assert(a.contains(a[i]));
        } else {
            assert(b.contains(b[i - a.len()]));
            assert((a + b)[i] == b[i - a.len()]);
        }
    }
}

/// A character other than the comma that occurs in none of four texts does
/// not occur in the four joined by commas.
pub proof fn lemma_four_lack(a: Seq<char>, b: Seq<char>, c: Seq<char>, d: Seq<char>, ch: char)
    requires
        ch != ',',
        !a.contains(ch),
        !b.contains(ch),
        !c.contains(ch),
        !d.contains(ch),
    ensures
        !(a + seq![','] + b + seq![','] + c + seq![','] + d).contains(ch),
{
    let comma = seq![','];
    assert(!comma.contains(ch));
    lemma_concat_lacks(a, comma, ch);
    lemma_concat_lacks(a + comma, b, ch);
    lemma_concat_lacks(a + comma + b, comma, ch);
    lemma_concat_lacks(a + comma + b + comma, c, ch);
    lemma_concat_lacks(a + comma + b + comma + c, comma, ch);
    lemma_concat_lacks(a + comma + b + comma + c + comma, d, ch);
}

/// The pieces of five texts without the separator, joined by it, are the
/// five texts.
pub proof fn lemma_split_five(
    a: Seq<char>,
    b: Seq<char>,
    c: Seq<char>,
    d: Seq<char>,
    e: Seq<char>,
    sep: char,
)
    requires
        !a.contains(sep),
        !b.contains(sep),
        !c.contains(sep),
        !d.contains(sep),
        !e.contains(sep),
    ensures
        split(a + seq![sep] + b + seq![sep] + c + seq![sep] + d + seq![sep] + e, sep) == seq![
            a,
            b,
            c,
            d,
            e,
        ],
{
    let tail = b + seq![sep] + c + seq![sep] + d + seq![sep] + e;
    lemma_split_four(b, c, d, e, sep);
    lemma_split_concat(a, sep, tail);
    assert(a + seq![sep] + b + seq![sep] + c + seq![sep] + d + seq![sep] + e == a + seq![sep]
        + tail);
    assert(seq![a] + seq![b, c, d, e] == seq![a, b, c, d, e]);
}

/// Texts that differ still differ between a common beginning and a common
/// end.
pub proof fn lemma_middle_differs(a: Seq<char>, x: Seq<char>, y: Seq<char>, c: Seq<char>)
    requires
        x != y,
    ensures
        a + x + c != a + y + c,
{
    if a + x + c == a + y + c {
        assert((a + x + c).len() == (a + y + c).len());
        assert(x.len() == y.len());
        assert forall|i: int| 0 <= i < x.len() implies x[i] == y[i] by {
            assert((a + x + c)[a.len() + i] == x[i]);
            assert((a + y + c)[a.len() + i] == y[i]);
        }
        assert(x =~= y);
    }
}

} // verus!
