//! Small facts about strings that the rest of the library builds on: the
//! standard-library calls it makes on text, and decimal formatting.
use vstd::prelude::*;
use vstd::string::{StrSliceExecFns, StringExecFns};
use vstd::utf8::{decode_utf8, valid_utf8};

verus! {

/// `String::push`: appends one character.
#[verifier::external_body]
pub(crate) fn push_char(s: &mut String, c: char)
    ensures
        final(s)@ == old(s)@.push(c),
{
    s.push(c)
}

/// `String::from_utf8`: the text that the bytes encode, when they are well-formed UTF-8.
#[verifier::external_body]
pub(crate) fn utf8_to_string(bytes: Vec<u8>) -> (r: Option<String>)
    ensures
        r is Some <==> valid_utf8(bytes@),
        r matches Some(s) ==> s@ == decode_utf8(bytes@),
{
    String::from_utf8(bytes).ok()
}

/// The text that `String::from_utf8_lossy` makes of `b`: its UTF-8 decoding,
/// with each invalid sequence replaced by U+FFFD.
pub uninterp spec fn lossy_utf8(b: Seq<u8>) -> Seq<char>;

/// `String::from_utf8_lossy`, made an owned string: the lossy decoding of the
/// bytes, which is their plain decoding when they are well-formed UTF-8.
#[verifier::external_body]
pub(crate) fn utf8_lossy(bytes: &[u8]) -> (r: String)
    ensures
        r@ == lossy_utf8(bytes@),
        valid_utf8(bytes@) ==> r@ == decode_utf8(bytes@),
{
    String::from_utf8_lossy(bytes).into_owned()
}

/// `<str as PartialEq>::eq`: two string slices are equal when their characters are.
#[verifier::external_body]
pub(crate) fn str_eq(a: &str, b: &str) -> (r: bool)
    ensures
        r == (a@ == b@),
{
    a == b
}

/// Whether `prefix` is a prefix of `s`, character by character.
pub open spec fn is_prefix(prefix: Seq<char>, s: Seq<char>) -> bool {
    prefix.len() <= s.len() && s.subrange(0, prefix.len() as int) == prefix
}

/// `str::starts_with` with a string-slice pattern.
#[verifier::external_body]
pub(crate) fn starts_with(s: &str, prefix: &str) -> (r: bool)
    ensures
        r == is_prefix(prefix@, s@),
{
    s.starts_with(prefix)
}

/// Whether `suffix` is a suffix of `s`, character by character.
pub open spec fn is_suffix(suffix: Seq<char>, s: Seq<char>) -> bool {
    suffix.len() <= s.len() && s.subrange(s.len() - suffix.len(), s.len() as int) == suffix
}

/// `str::ends_with` with a string-slice pattern.
#[verifier::external_body]
pub(crate) fn ends_with(s: &str, suffix: &str) -> (r: bool)
    ensures
        r == is_suffix(suffix@, s@),
{
    s.ends_with(suffix)
}

/// Whether `pat` occurs in `s` starting at character `i`.
pub open spec fn occurs_at(s: Seq<char>, pat: Seq<char>, i: int) -> bool {
    0 <= i && i + pat.len() <= s.len() && s.subrange(i, i + pat.len()) == pat
}

/// Whether `pat` occurs anywhere in `s`.
pub open spec fn occurs(s: Seq<char>, pat: Seq<char>) -> bool {
    exists|i: int| occurs_at(s, pat, i)
}

/// `(before, after)` split around the first occurrence of `pat` in `s`.
#[verifier::opaque]
pub open spec fn split_first(s: Seq<char>, pat: Seq<char>) -> Option<(Seq<char>, Seq<char>)> {
    if occurs(s, pat) {
        let i = choose|i: int| occurs_at(s, pat, i) && forall|j: int| 0 <= j < i ==> !occurs_at(s, pat, j);
        Some((s.subrange(0, i), s.subrange(i + pat.len(), s.len() as int)))
    } else {
        None
    }
}

/// A text splits exactly when the separator occurs in it.
pub proof fn lemma_split_first_some(s: Seq<char>, pat: Seq<char>)
    ensures
        split_first(s, pat) is Some <==> occurs(s, pat),
{
    reveal(split_first);
}

/// Splitting at a non-empty separator leaves a shorter rest.
pub proof fn lemma_split_first_shorter(s: Seq<char>, pat: Seq<char>)
    requires
        pat.len() > 0,
        split_first(s, pat) is Some,
    ensures
        split_first(s, pat).unwrap().1.len() < s.len(),
        split_first(s, pat).unwrap().0.len() < s.len(),
{
    reveal(split_first);
    lemma_first_occurrence(s, pat);
}

/// Any occurrence implies a first one.
pub proof fn lemma_first_occurrence(s: Seq<char>, pat: Seq<char>)
    requires
        occurs(s, pat),
    ensures
        exists|i: int| occurs_at(s, pat, i) && forall|j: int| 0 <= j < i ==> !occurs_at(s, pat, j),
{
    let k = choose|k: int| occurs_at(s, pat, k);
    lemma_first_occurrence_below(s, pat, k);
}

proof fn lemma_first_occurrence_below(s: Seq<char>, pat: Seq<char>, k: int)
    requires
        occurs_at(s, pat, k),
    ensures
        exists|i: int| occurs_at(s, pat, i) && forall|j: int| 0 <= j < i ==> !occurs_at(s, pat, j),
    decreases k,
{
    if exists|j: int| 0 <= j < k && occurs_at(s, pat, j) {
        let j = choose|j: int| 0 <= j < k && occurs_at(s, pat, j);
        lemma_first_occurrence_below(s, pat, j);
    } else {
        assert(occurs_at(s, pat, k) && forall|j: int| 0 <= j < k ==> !occurs_at(s, pat, j));
    }
}

/// `str::split_once` with a string-slice delimiter: the text before and after the
/// first occurrence of `pat`, or nothing when `pat` does not occur.
#[verifier::external_body]
pub(crate) fn str_split_once<'a>(s: &'a str, pat: &str) -> (r: Option<(&'a str, &'a str)>)
    ensures
        r is Some <==> occurs(s@, pat@),
        r matches Some((a, b)) ==> Some((a@, b@)) == split_first(s@, pat@),
{
    s.split_once(pat)
}

/// The decimal digit `d` as a character.
pub open spec fn digit_char(d: int) -> char {
    if d == 0 {
        '0'
    } else if d == 1 {
        '1'
    } else if d == 2 {
        '2'
    } else if d == 3 {
        '3'
    } else if d == 4 {
        '4'
    } else if d == 5 {
        '5'
    } else if d == 6 {
        '6'
    } else if d == 7 {
        '7'
    } else if d == 8 {
        '8'
    } else {
        '9'
    }
}

/// The decimal representation of `n`, without leading zeros.
pub open spec fn decimal(n: nat) -> Seq<char>
    decreases n,
{
    if n < 10 {
        seq![digit_char(n as int)]
    } else {
        decimal(n / 10).push(digit_char((n % 10) as int))
    }
}

/// The number that a text of decimal digits spells, most significant first.
pub open spec fn digits_value(s: Seq<char>) -> int
    decreases s.len(),
{
    if s.len() == 0 {
        0
    } else {
        digits_value(s.drop_last()) * 10 + (s.last() as int - '0' as int)
    }
}

/// The decimal text of a number is made of the digits `0`-`9`, spells the
/// number back, and starts with `0` only for zero itself.
pub proof fn lemma_decimal_spells(n: nat)
    ensures
        forall|i: int| 0 <= i < decimal(n).len() ==> '0' <= #[trigger] decimal(n)[i] <= '9',
        digits_value(decimal(n)) == n,
        decimal(n).len() >= 1,
        decimal(n)[0] == '0' ==> n == 0,
    decreases n,
{
    if n >= 10 {
        lemma_decimal_spells(n / 10);
        lemma_digit_char_value((n % 10) as int);
        let s = decimal(n / 10).push(digit_char((n % 10) as int));
        assert(s.drop_last() =~= decimal(n / 10));
        assert(s[0] == decimal(n / 10)[0]);
        assert(digits_value(s) == digits_value(decimal(n / 10)) * 10 + (n % 10) as int);
        assert((n / 10) * 10 + n % 10 == n);
    } else {
        lemma_digit_char_value(n as int);
        let s = seq![digit_char(n as int)];
        assert(decimal(n) == s);
        assert(s.drop_last() =~= Seq::<char>::empty());
        assert(digits_value(Seq::<char>::empty()) == 0);
        assert(digits_value(s) == digits_value(s.drop_last()) * 10 + (s.last() as int - '0' as int));
    }
}

/// The digit character of `d` stands `d` places after `0`.
proof fn lemma_digit_char_value(d: int)
    requires
        0 <= d < 10,
    ensures
        digit_char(d) as int == '0' as int + d,
        '0' <= digit_char(d) <= '9',
{
    assert('0' as int == 48);
    assert('1' as int == 49);
    assert('2' as int == 50);
    assert('3' as int == 51);
    assert('4' as int == 52);
    assert('5' as int == 53);
    assert('6' as int == 54);
    assert('7' as int == 55);
    assert('8' as int == 56);
    assert('9' as int == 57);
}

fn digit_exec(d: u64) -> (c: char)
    requires
        d < 10,
    ensures
        c == digit_char(d as int),
{
    if d == 0 {
        '0'
    } else if d == 1 {
        '1'
    } else if d == 2 {
        '2'
    } else if d == 3 {
        '3'
    } else if d == 4 {
        '4'
    } else if d == 5 {
        '5'
    } else if d == 6 {
        '6'
    } else if d == 7 {
        '7'
    } else if d == 8 {
        '8'
    } else {
        '9'
    }
}

/// Appends the decimal representation of `n`.
pub fn push_decimal(s: &mut String, n: u64)
    ensures
        final(s)@ == old(s)@ + decimal(n as nat),
    decreases n,
{
    if n < 10 {
        push_char(s, digit_exec(n));
    } else {
        push_decimal(s, n / 10);
        push_char(s, digit_exec(n % 10));
    }
    assert(s@ =~= old(s)@ + decimal(n as nat));
}

/// The decimal representation of `n`.
pub fn decimal_string(n: u64) -> (r: String)
    ensures
        r@ == decimal(n as nat),
{
    let mut s = String::new();
    push_decimal(&mut s, n);
    assert(s@ =~= decimal(n as nat));
    s
}

/// Whether `c` is white space in the sense of Unicode's `White_Space` property.
pub open spec fn is_white(c: char) -> bool {
    c == '\t' || c == '\n' || c == '\u{0B}' || c == '\u{0C}' || c == '\r' || c == ' ' || c == '\u{85}'
        || c == '\u{A0}' || c == '\u{1680}' || ('\u{2000}' <= c && c <= '\u{200A}') || c == '\u{2028}'
        || c == '\u{2029}' || c == '\u{202F}' || c == '\u{205F}' || c == '\u{3000}'
}

/// The number of white-space characters that `s` starts with.
pub open spec fn white_prefix(s: Seq<char>, i: int) -> int
    decreases s.len() - i,
{
    if i < 0 || i >= s.len() || !is_white(s[i]) {
        i
    } else {
        white_prefix(s, i + 1)
    }
}

/// The end of `s` once the white space it ends with is cut, looking no lower than `lo`.
pub open spec fn white_suffix(s: Seq<char>, j: int, lo: int) -> int
    decreases j - lo,
{
    if j <= lo || !is_white(s[j - 1]) {
        j
    } else {
        white_suffix(s, j - 1, lo)
    }
}

/// `s` without the white space it starts and ends with.
pub open spec fn trimmed(s: Seq<char>) -> Seq<char> {
    let a = white_prefix(s, 0);
    s.subrange(a, white_suffix(s, s.len() as int, a))
}

fn is_white_exec(c: char) -> (r: bool)
    ensures
        r == is_white(c),
{
    c == '\t' || c == '\n' || c == '\u{0B}' || c == '\u{0C}' || c == '\r' || c == ' ' || c == '\u{85}'
        || c == '\u{A0}' || c == '\u{1680}' || ('\u{2000}' <= c && c <= '\u{200A}') || c == '\u{2028}'
        || c == '\u{2029}' || c == '\u{202F}' || c == '\u{205F}' || c == '\u{3000}'
}

/// `s` without the white space it starts and ends with, as `str::trim` cuts it.
pub fn trim(s: &str) -> (r: String)
    ensures
        r@ == trimmed(s@),
{
    let n = s.unicode_len();
    let mut a: usize = 0;
    while a < n && is_white_exec(s.get_char(a))
        invariant
            a <= n,
            n == s@.len(),
            white_prefix(s@, 0) == white_prefix(s@, a as int),
        decreases n - a,
    {
        a = a + 1;
    }
    let mut b: usize = n;
    while b > a && is_white_exec(s.get_char(b - 1))
        invariant
            a <= b <= n,
            n == s@.len(),
            a == white_prefix(s@, 0),
            white_suffix(s@, n as int, a as int) == white_suffix(s@, b as int, a as int),
        decreases b - a,
    {
        b = b - 1;
    }
    let t = s.substring_char(a, b);
    String::from_str(t)
}

/// `name` put under the directory `dir`, with a `/` between them unless `dir`
/// is empty or already ends with one.
pub open spec fn joined_path(dir: Seq<char>, name: Seq<char>) -> Seq<char> {
    if dir.len() == 0 || dir.last() == '/' {
        dir + name
    } else {
        dir + seq!['/'] + name
    }
}

/// The path of `name` under the directory `dir`.
pub fn join_path(dir: &str, name: &str) -> (r: String)
    ensures
        r@ == joined_path(dir@, name@),
{
    let mut out = String::from_str(dir);
    let n = dir.unicode_len();
    if n > 0 && dir.get_char(n - 1) != '/' {
        push_char(&mut out, '/');
    }
    out.append(name);
    out
}

} // verus!
