//! Text primitives. Pattern matching comes from the `regex` crate, lower-casing
//! and the removal of characters from the standard library; what this module
//! states of them is taken on trust, the rest is proved.

use regex::Regex;
use vstd::prelude::*;

verus! {

/// What the regular expression `pattern` captures in `text`: `None` where the
/// pattern does not compile, otherwise for each match, in the order in which
/// the matches lie in the text, the text of the first and of the second
/// capture group. A group that the pattern lacks, or that took no part in a
/// match, counts as empty text.
pub uninterp spec fn regex_captures(pattern: Seq<char>, text: Seq<char>) -> Option<
    Seq<(Seq<char>, Seq<char>)>,
>;

/// Whether the regular expression `pattern` matches anywhere in `text`; `None`
/// where the pattern does not compile.
pub uninterp spec fn regex_is_match(pattern: Seq<char>, text: Seq<char>) -> Option<bool>;

/// The lower-case form of `text`, as `str::to_lowercase` gives it.
pub uninterp spec fn lowercase(text: Seq<char>) -> Seq<char>;

/// Compiles `pattern` with `Regex::new`, walks `Regex::captures_iter` over
/// `text` and takes from each match the text of groups 1 and 2 with
/// `Captures::get`. Trusted: the result is what `regex_captures` names, so
/// that equal arguments give equal results; nothing else is claimed of it.
#[verifier::external_body]
pub(crate) fn captures(pattern: &str, text: &str) -> (found: Option<Vec<(String, String)>>)
    ensures
        found.deep_view() == regex_captures(pattern@, text@),
{
    match Regex::new(pattern) {
        Ok(re) => Some(
            re.captures_iter(text).map(
                |c|
                    (
                        c.get(1).map_or(String::new(), |m| m.as_str().to_string()),
                        c.get(2).map_or(String::new(), |m| m.as_str().to_string()),
                    ),
            ).collect(),
        ),
        Err(_) => None,
    }
}

/// Compiles `pattern` with `Regex::new` and asks `Regex::is_match` of `text`.
/// Trusted: the result is what `regex_is_match` names.
#[verifier::external_body]
pub(crate) fn is_match(pattern: &str, text: &str) -> (found: Option<bool>)
    ensures
        found == regex_is_match(pattern@, text@),
{
    match Regex::new(pattern) {
        Ok(re) => Some(re.is_match(text)),
        Err(_) => None,
    }
}

/// Calls `str::to_lowercase`. Trusted: the result is what `lowercase` names.
#[verifier::external_body]
pub(crate) fn to_lowercase(text: &str) -> (lower: String)
    ensures
        lower@ == lowercase(text@),
{
    text.to_lowercase()
}

/// Whether `c` is whitespace: one of the characters that Unicode gives the
/// property White_Space, which are the ones that `char::is_whitespace` knows.
pub open spec fn is_whitespace(c: char) -> bool {
    let n = c as int;
    ||| 0x09 <= n <= 0x0d
    ||| n == 0x20
    ||| n == 0x85
    ||| n == 0xa0
    ||| n == 0x1680
    ||| 0x2000 <= n <= 0x200a
    ||| 0x2028 <= n <= 0x2029
    ||| n == 0x202f
    ||| n == 0x205f
    ||| n == 0x3000
}

/// Tells whether a character is whitespace.
pub fn char_is_whitespace(c: char) -> (b: bool)
    ensures
        b == is_whitespace(c),
{
    let n: u32 = c as u32;
    (0x09 <= n && n <= 0x0d) || n == 0x20 || n == 0x85 || n == 0xa0 || n == 0x1680 || (0x2000 <= n
        && n <= 0x200a) || (0x2028 <= n && n <= 0x2029) || n == 0x202f || n == 0x205f || n
        == 0x3000
}

/// `text` without its whitespace.
pub open spec fn strip_whitespace(text: Seq<char>) -> Seq<char> {
    text.filter(|c: char| !is_whitespace(c))
}

/// Whether a character stays when whitespace is stripped.
fn stays(c: char) -> (b: bool)
    ensures
        b == !is_whitespace(c),
{
    !char_is_whitespace(c)
}

/// Calls `String::retain` with `stays`. Trusted: the characters for which
/// `stays` holds are kept, in their order, and the others are removed.
#[verifier::external_body]
pub(crate) fn remove_whitespace(content: &mut String)
    ensures
        final(content)@ == strip_whitespace(old(content)@),
{
    content.retain(|c| stays(c));
}

/// The code point of `c`, that of the lower-case letter where `c` is an ASCII
/// upper-case letter.
pub open spec fn ascii_fold(c: char) -> int {
    if 0x41 <= c as int <= 0x5a {
        c as int + 0x20
    } else {
        c as int
    }
}

/// Whether two texts are equal up to the case of their ASCII letters.
pub open spec fn same_ignoring_ascii_case(a: Seq<char>, b: Seq<char>) -> bool {
    &&& a.len() == b.len()
    &&& forall|i: int| 0 <= i < a.len() ==> ascii_fold(#[trigger] a[i]) == ascii_fold(b[i])
}

fn fold(c: char) -> (f: u32)
    ensures
        f == ascii_fold(c),
{
    let n: u32 = c as u32;
    if 0x41 <= n && n <= 0x5a {
        n + 0x20
    } else {
        n
    }
}

/// Compares two texts without regard to the case of their ASCII letters.
pub fn eq_ignore_ascii_case(a: &str, b: &str) -> (same: bool)
    ensures
        same == same_ignoring_ascii_case(a@, b@),
{
    let n: usize = a.unicode_len();
    if n != b.unicode_len() {
        return false;
    }
    let mut i: usize = 0;
    while i < n
        invariant
            i <= n,
            n == a@.len(),
            n == b@.len(),
            forall|j: int| 0 <= j < i ==> ascii_fold(#[trigger] a@[j]) == ascii_fold(b@[j]),
        decreases n - i,
    {
        if fold(a.get_char(i)) != fold(b.get_char(i)) {
            assert(ascii_fold(a@[i as int]) != ascii_fold(b@[i as int]));
            return false;
        }
        i += 1;
    }
    true
}

} // verus!
