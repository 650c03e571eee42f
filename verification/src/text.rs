//! Character classes, maximal runs, decimal numerals and string helpers
//! shared by the later stages.

use vstd::prelude::*;
use vstd::string::*;

verus! {

/// The character classes the scanner works with.
#[derive(Clone, Copy, Debug, PartialEq, Eq, Structural)]
pub enum CharClass {
    /// Space, tab, line feed, carriage return and form feed.
    Space,
    /// The ten decimal digits.
    Digit,
    /// Letters, digits and the underscore.
    Word,
    /// Everything but the double quote.
    Quoted,
}

/// White space: space, tab, line feed, carriage return and form feed.
pub open spec fn is_space(c: char) -> bool {
    c == ' ' || c == '\t' || c == '\n' || c == '\r' || c == '\u{c}'
}

/// A decimal digit.
pub open spec fn is_digit(c: char) -> bool {
    '0' <= c && c <= '9'
}

/// A character that may start a word: a letter or the underscore.
pub open spec fn is_word_start(c: char) -> bool {
    ('a' <= c && c <= 'z') || ('A' <= c && c <= 'Z') || c == '_'
}

/// A character that may go on a word: a letter, a digit or the underscore.
pub open spec fn is_word_char(c: char) -> bool {
    is_word_start(c) || is_digit(c)
}

/// Membership of a character in a class.
pub open spec fn in_class(k: CharClass, c: char) -> bool {
    match k {
        CharClass::Space => is_space(c),
        CharClass::Digit => is_digit(c),
        CharClass::Word => is_word_char(c),
        CharClass::Quoted => c != '"',
    }
}

/// Whether the character is a decimal digit.
pub fn char_is_digit(c: char) -> (r: bool)
    ensures
        r == is_digit(c),
{
    '0' <= c && c <= '9'
}

/// Whether the character may start a word.
pub fn char_is_word_start(c: char) -> (r: bool)
    ensures
        r == is_word_start(c),
{
    ('a' <= c && c <= 'z') || ('A' <= c && c <= 'Z') || c == '_'
}

/// Whether the character is in the class.
pub fn class_has(k: CharClass, c: char) -> (r: bool)
    ensures
        r == in_class(k, c),
{
    match k {
        CharClass::Space => c == ' ' || c == '\t' || c == '\n' || c == '\r' || c == '\u{c}',
        CharClass::Digit => char_is_digit(c),
        CharClass::Word => char_is_word_start(c) || char_is_digit(c),
        CharClass::Quoted => c != '"',
    }
}

/// The end of the longest run of characters of class `k` that starts at `i`:
/// the first position at or after `i` that is past the end of `s` or holds a
/// character outside the class.
pub open spec fn run_end(s: Seq<char>, i: int, k: CharClass) -> int
    decreases s.len() - i,
{
    if 0 <= i < s.len() && in_class(k, s[i]) {
        run_end(s, i + 1, k)
    } else {
        i
    }
}

/// `run_end` stops inside the text, everything before it is in the class and
/// the character it stops at is not.
pub proof fn lemma_run_end(s: Seq<char>, i: int, k: CharClass)
    requires
        0 <= i <= s.len(),
    ensures
        i <= run_end(s, i, k) <= s.len(),
        forall|j: int| i <= j < run_end(s, i, k) ==> in_class(k, #[trigger] s[j]),
        run_end(s, i, k) < s.len() ==> !in_class(k, s[run_end(s, i, k)]),
    decreases s.len() - i,
{
    if i < s.len() && in_class(k, s[i]) {
        lemma_run_end(s, i + 1, k);
    }
}

/// A position `e` that every character from `i` up to it is in the class,
/// and that is the end of the text or a character outside the class, is the
/// end of the run.
pub proof fn lemma_run_end_is(s: Seq<char>, i: int, e: int, k: CharClass)
    requires
        0 <= i <= e <= s.len(),
        forall|j: int| i <= j < e ==> in_class(k, #[trigger] s[j]),
        e < s.len() ==> !in_class(k, s[e]),
    ensures
        run_end(s, i, k) == e,
    decreases e - i,
{
    if i < e {
        lemma_run_end_is(s, i + 1, e, k);
    }
}

/// Walks over the longest run of class `k` that starts at `start`.
pub fn scan_run(chars: &Vec<char>, start: usize, k: CharClass) -> (end: usize)
    requires
        start <= chars.len(),
    ensures
        end == run_end(chars@, start as int, k),
        start <= end <= chars.len(),
{
    let mut i: usize = start;
    while i < chars.len() && class_has(k, chars[i])
        invariant
            start <= i <= chars.len(),
            run_end(chars@, i as int, k) == run_end(chars@, start as int, k),
        decreases chars.len() - i,
    {
        i += 1;
    }
    i
}

/// The value of a decimal digit.
pub open spec fn digit_value(c: char) -> nat {
    (c as int - '0' as int) as nat
}

/// The number that a sequence of decimal digits writes.
pub open spec fn decimal_value(s: Seq<char>) -> nat
    decreases s.len(),
{
    if s.len() == 0 {
        0
    } else {
        decimal_value(s.drop_last()) * 10 + digit_value(s.last())
    }
}

/// Every character of the text is a decimal digit.
pub open spec fn all_digits(s: Seq<char>) -> bool {
    forall|j: int| 0 <= j < s.len() ==> is_digit(#[trigger] s[j])
}

/// A numeral is worth at least as much as any of its prefixes.
pub proof fn lemma_decimal_prefix(s: Seq<char>, n: int)
    requires
        0 <= n <= s.len(),
    ensures
        decimal_value(s.subrange(0, n)) <= decimal_value(s),
    decreases s.len() - n,
{
    if n == s.len() {
        assert(s.subrange(0, n) =~= s);
    } else {
        lemma_decimal_prefix(s.drop_last(), n);
        assert(s.drop_last().subrange(0, n) =~= s.subrange(0, n));
    }
}

/// Reads the numeral in `chars[from..to]`. The result is its value where that
/// is at most `max`, and `None` where it is larger.
pub fn parse_decimal(chars: &Vec<char>, from: usize, to: usize, max: u64) -> (r: Option<u64>)
    requires
        from <= to <= chars.len(),
        all_digits(chars@.subrange(from as int, to as int)),
    ensures
        r == if decimal_value(chars@.subrange(from as int, to as int)) <= max {
            Some(decimal_value(chars@.subrange(from as int, to as int)) as u64)
        } else {
            None
        },
{
    let ghost whole = chars@.subrange(from as int, to as int);
    let mut acc: u64 = 0;
    let mut i: usize = from;
    while i < to
        invariant
            from <= i <= to <= chars.len(),
            whole == chars@.subrange(from as int, to as int),
            all_digits(whole),
            acc == decimal_value(whole.subrange(0, i - from)),
            acc <= max,
        decreases to - i,
    {
        let c = chars[i];
        assert(c == whole[i - from]);
        let d: u64 = (c as u32 - '0' as u32) as u64;
        let wide: u128 = acc as u128 * 10 + d as u128;
        proof {
            let next = whole.subrange(0, i - from + 1);
            assert(next.drop_last() =~= whole.subrange(0, i - from));
            lemma_decimal_prefix(whole, i - from + 1);
        }
        if wide > max as u128 {
            return None;
        }
        acc = wide as u64;
        i += 1;
    }
    proof {
        assert(whole.subrange(0, to - from) =~= whole);
    }
    Some(acc)
}

/// The characters of a string, in order.
pub fn chars_of(s: &str) -> (v: Vec<char>)
    ensures
        v@ == s@,
{
    broadcast use vstd::string::group_string_axioms;

    let mut v: Vec<char> = Vec::new();
    for c in it: s.chars()
        invariant
            it.seq() == s@,
            v@ == it.history(),
    {
        v.push(c);
    }
    v
}

/// Whether two strings hold the same characters.
pub fn str_eq(a: &str, b: &str) -> (r: bool)
    ensures
        r == (a@ == b@),
{
    let x = a.as_bytes();
    let y = b.as_bytes();
    proof {
        vstd::utf8::encode_utf8_decode_utf8(a@);
        vstd::utf8::encode_utf8_decode_utf8(b@);
    }
    if x.len() != y.len() {
        return false;
    }
    let mut i: usize = 0;
    while i < x.len()
        invariant
            i <= x.len(),
            x.len() == y.len(),
            x@ == a.spec_bytes(),
            y@ == b.spec_bytes(),
            a@ == vstd::utf8::decode_utf8(a.spec_bytes()),
            b@ == vstd::utf8::decode_utf8(b.spec_bytes()),
            forall|k: int| 0 <= k < i ==> x@[k] == y@[k],
        decreases x.len() - i,
    {
        if x[i] != y[i] {
            return false;
        }
        i += 1;
    }
    assert(x@ =~= y@);
    true
}

/// The number of bytes that the first `i` characters of `s` take in UTF-8.
pub open spec fn byte_offset(s: Seq<char>, i: int) -> nat {
    vstd::utf8::encode_utf8(s.subrange(0, i)).len()
}

/// A character takes at least one byte: the byte offset of the position
/// after it is larger than its own.
pub proof fn lemma_byte_offset_step(s: Seq<char>, i: int)
    requires
        0 <= i < s.len(),
    ensures
        byte_offset(s, i) < byte_offset(s, i + 1),
    decreases i,
{
    let rest = s.drop_first();
    let first = vstd::utf8::encode_scalar(s[0] as u32);
    assert(s.subrange(0, i + 1).drop_first() =~= rest.subrange(0, i));
    assert(s.subrange(0, i + 1)[0] == s[0]);
    assert(byte_offset(s, i + 1) == first.len() + byte_offset(rest, i));
    if i == 0 {
        assert(s.subrange(0, 0) =~= Seq::<char>::empty());
        assert(rest.subrange(0, 0) =~= Seq::<char>::empty());
        assert(first.len() >= 1);
    } else {
        assert(s.subrange(0, i).drop_first() =~= rest.subrange(0, i - 1));
        assert(s.subrange(0, i)[0] == s[0]);
        assert(byte_offset(s, i) == first.len() + byte_offset(rest, i - 1));
        lemma_byte_offset_step(rest, i - 1);
    }
}

/// Byte offsets grow with character positions.
pub proof fn lemma_byte_offset_grows(s: Seq<char>, a: int, b: int)
    requires
        0 <= a <= b <= s.len(),
    ensures
        byte_offset(s, a) <= byte_offset(s, b),
        a < b ==> byte_offset(s, a) < byte_offset(s, b),
    decreases b - a,
{
    if a < b {
        lemma_byte_offset_grows(s, a, b - 1);
        lemma_byte_offset_step(s, b - 1);
    }
}

/// The byte offset of the character position `i` of `input`.
pub fn byte_offset_of(input: &str, i: usize) -> (r: usize)
    requires
        i <= input@.len(),
    ensures
        r == byte_offset(input@, i as int),
{
    input.substring_char(0, i).as_bytes().len()
}

/// The characters of `input` from position `from` up to `to`, as a string
/// slice. `ascii` says whether the input is all ASCII, which makes this a
/// constant-time operation.
pub fn slice_of<'a>(input: &'a str, ascii: bool, from: usize, to: usize) -> (r: &'a str)
    requires
        from <= to <= input@.len(),
        ascii == input.is_ascii(),
    ensures
        r@ == input@.subrange(from as int, to as int),
{
    if ascii {
        input.substring_ascii(from, to)
    } else {
        input.substring_char(from, to)
    }
}

/// The characters of `input` from position `from` up to `to`, as an owned
/// string.
pub fn text_of(input: &str, ascii: bool, from: usize, to: usize) -> (r: String)
    requires
        from <= to <= input@.len(),
        ascii == input.is_ascii(),
    ensures
        r@ == input@.subrange(from as int, to as int),
{
    String::from_str(slice_of(input, ascii, from, to))
}

} // verus!
