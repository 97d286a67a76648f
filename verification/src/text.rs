//! The few operations on text that the ledger needs and that the standard
//! library carries out.

use vstd::prelude::*;
use vstd::string::StringSliceAdditionalSpecFns;

verus! {

/// An upper-case ASCII letter as its lower-case one; any other character as
/// it is.
pub open spec fn ascii_lower(c: char) -> char {
    if 'A' <= c && c <= 'Z' {
        ((c as u8) + 32) as char
    } else {
        c
    }
}

/// A text with its upper-case ASCII letters lowered.
pub open spec fn ascii_lowered(s: Seq<char>) -> Seq<char> {
    Seq::new(s.len(), |i: int| ascii_lower(s[i]))
}

/// Whether two texts are the same but for the case of ASCII letters.
pub open spec fn same_ignoring_ascii_case(a: Seq<char>, b: Seq<char>) -> bool {
    ascii_lowered(a) == ascii_lowered(b)
}

/// A text without the white space at its two ends, as the standard library
/// strips it.
pub uninterp spec fn trimmed(s: Seq<char>) -> Seq<char>;

/// A text in upper case, as the standard library converts it.
pub uninterp spec fn uppercased(s: Seq<char>) -> Seq<char>;

/// Whether one text comes before another when both are compared character
/// by character, a proper prefix coming first.
pub open spec fn text_before(a: Seq<char>, b: Seq<char>) -> bool
    decreases a.len(),
{
    if b.len() == 0 {
        false
    } else if a.len() == 0 {
        true
    } else if a[0] != b[0] {
        (a[0] as int) < (b[0] as int)
    } else {
        text_before(a.drop_first(), b.drop_first())
    }
}

/// `str::eq`: two string slices are equal exactly when they hold the same
/// characters.
#[verifier::external_body]
pub(crate) fn same_text(a: &str, b: &str) -> (r: bool)
    ensures
        r == (a@ == b@),
{
    a == b
}

/// `str::eq_ignore_ascii_case`: documented as comparing the two slices after
/// mapping the ASCII letters `A` to `Z` to `a` to `z` and leaving every other
/// character alone.
#[verifier::external_body]
pub(crate) fn same_text_ignoring_case(a: &str, b: &str) -> (r: bool)
    ensures
        r == same_ignoring_ascii_case(a@, b@),
{
    a.eq_ignore_ascii_case(b)
}

/// Whether one text is a part of another: some characters of it, next to
/// each other and in their order.
pub open spec fn is_part_of(part: Seq<char>, whole: Seq<char>) -> bool {
    exists|i: int, j: int|
        0 <= i <= j <= whole.len() && part == #[trigger] whole.subrange(i, j)
}

/// `str::trim`: the slice without leading and trailing white space, where
/// white space is what Unicode's `White_Space` property says. Claimed: the
/// result is a function of the text alone; it is a part of the text, and so
/// no longer than the text; and having no white space left at its ends it
/// trims to itself.
#[verifier::external_body]
pub(crate) fn trim(s: &str) -> (r: &str)
    ensures
        r@ == trimmed(s@),
        is_part_of(r@, s@),
        r@.len() <= s@.len(),
        trimmed(r@) == r@,
{
    s.trim()
}

/// `str::to_uppercase`: the text in upper case by Unicode's rules. Claimed:
/// the result is a function of the text alone.
#[verifier::external_body]
pub(crate) fn to_uppercase(s: &str) -> (r: String)
    ensures
        r@ == uppercased(s@),
{
    s.to_uppercase()
}

/// `str::lt`: string slices are ordered lexicographically by their bytes,
/// which for UTF-8 is the order of their characters' code points.
#[verifier::external_body]
pub(crate) fn comes_before(a: &str, b: &str) -> (r: bool)
    ensures
        r == text_before(a@, b@),
{
    a < b
}

/// `String::insert`: puts a character at a byte position, which must not be
/// beyond the end and must lie between two characters. In a text of ASCII
/// characters every position up to the length does, and the byte position
/// is the number of characters before it.
#[verifier::external_body]
pub(crate) fn insert_char(s: &mut String, at: usize, ch: char)
    requires
        vstd::utf8::is_ascii_chars(old(s)@),
        at <= old(s)@.len(),
    ensures
        final(s)@ == old(s)@.insert(at as int, ch),
{
    s.insert(at, ch)
}

/// `String::remove`: takes out the character at a byte position, which must
/// be before the end and lie between two characters, and gives it back. In
/// a text of ASCII characters the byte position is the number of characters
/// before it.
#[verifier::external_body]
pub(crate) fn remove_char(s: &mut String, at: usize) -> (ch: char)
    requires
        vstd::utf8::is_ascii_chars(old(s)@),
        at < old(s)@.len(),
    ensures
        final(s)@ == old(s)@.remove(at as int),
        ch == old(s)@[at as int],
{
    s.remove(at)
}

/// `String::push`: appends a character.
#[verifier::external_body]
pub(crate) fn push_char(s: &mut String, ch: char)
    ensures
        final(s)@ == old(s)@.push(ch),
{
    s.push(ch)
}

/// `String::pop`: removes the last character and gives it back, or gives
/// `None` for an empty text.
#[verifier::external_body]
pub(crate) fn pop_char(s: &mut String) -> (ch: Option<char>)
    ensures
        old(s)@.len() == 0 ==> ch is None && final(s)@ == old(s)@,
        old(s)@.len() > 0 ==> ch == Some(old(s)@.last()) && final(s)@ == old(s)@.drop_last(),
{
    s.pop()
}

/// The number of characters of a text of ASCII characters.
pub fn ascii_len(s: &String) -> (n: usize)
    requires
        vstd::utf8::is_ascii_chars(s@),
    ensures
        n == s@.len(),
{
    let t = s.as_str();
    proof {
        vstd::utf8::is_ascii_chars_encode_utf8(t@);
    }
    t.as_bytes().len()
}

/// A copy of an optional text.
pub fn copy_optional_text(t: &Option<String>) -> (r: Option<String>)
    ensures
        r == *t,
{
    match t {
        Some(s) => Some(s.clone()),
        None => None,
    }
}

} // verus!
