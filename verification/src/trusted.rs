//! What this library takes on trust from the crates it calls.

use std::collections::HashSet;
use vstd::prelude::*;
use itertools::Itertools;
use regex::Regex;

verus! {

/// `regex::Regex`, a compiled regular expression; nothing of its inside is known here.
#[verifier::external_type_specification]
#[verifier::external_body]
pub struct ExRegex(Regex);

/// `regex::Error`, the reason why a pattern did not compile; it is only passed on.
#[verifier::external_type_specification]
#[verifier::external_body]
pub struct ExRegexError(regex::Error);

/// `String::push`: the character is added at the end.
pub assume_specification[ String::push ](s: &mut String, c: char)
    ensures
        final(s)@ == old(s)@.push(c),
;

/// The pattern text that a compiled expression was made from, as `Regex::as_str` returns it.
pub uninterp spec fn regex_source(re: Regex) -> Seq<char>;

/// Whether the expression was made by `Regex::new`, and so with the options that `Regex::new`
/// sets and no others. An expression from a builder may have been made with other options.
pub uninterp spec fn regex_plain(re: Regex) -> bool;

/// Whether `Regex::new` compiles the pattern.
pub uninterp spec fn regex_accepts(pattern: Seq<char>) -> bool;

/// Whether an expression that `Regex::new` made from the pattern finds a match somewhere in
/// the text, as `Regex::is_match` tells.
pub uninterp spec fn regex_matches(pattern: Seq<char>, haystack: Seq<char>) -> bool;

/// `Regex::new`: whether a pattern compiles depends on the pattern alone, and the compiled
/// expression keeps the pattern it was made from.
pub assume_specification[ Regex::new ](re: &str) -> (r: Result<Regex, regex::Error>)
    ensures
        r is Ok == regex_accepts(re@),
        r matches Ok(compiled) ==> regex_plain(compiled) && regex_source(compiled) == re@,
;

/// `Regex::is_match`: of an expression that `Regex::new` made, the answer depends on the
/// pattern and the text alone. Of an expression that a builder made, the answer depends on
/// the builder's options too, and nothing is claimed.
pub assume_specification[ Regex::is_match ](re: &Regex, haystack: &str) -> (b: bool)
    ensures
        regex_plain(*re) ==> b == regex_matches(regex_source(*re), haystack@),
;

/// Whether the character has a meaning of its own in a pattern.
pub open spec fn is_meta_character(c: char) -> bool {
    c == '\\' || c == '.' || c == '+' || c == '*' || c == '?' || c == '(' || c == ')' || c == '|'
        || c == '[' || c == ']' || c == '{' || c == '}' || c == '^' || c == '$' || c == '#' || c
        == '&' || c == '-' || c == '~'
}

/// The text with a backslash put before each character that has a meaning in a pattern.
pub open spec fn escape_text(s: Seq<char>) -> Seq<char>
    decreases s.len(),
{
    if s.len() == 0 {
        Seq::empty()
    } else if is_meta_character(s.last()) {
        escape_text(s.drop_last()).push('\\').push(s.last())
    } else {
        escape_text(s.drop_last()).push(s.last())
    }
}

/// `regex::escape`: every meta character of the text gets a backslash before it, and nothing
/// else changes.
pub assume_specification[ regex::escape ](pattern: &str) -> (r: String)
    ensures
        r@ == escape_text(pattern@),
;

/// The character in lower case if it is an upper-case ASCII letter, else the character.
pub open spec fn ascii_lower(c: char) -> char {
    if 'A' <= c <= 'Z' {
        ((c as u8) + 32) as char
    } else {
        c
    }
}

/// Whether two texts are the same but for the case of their ASCII letters.
pub open spec fn same_ignoring_case(a: Seq<char>, b: Seq<char>) -> bool {
    a.len() == b.len() && forall|i: int|
        0 <= i < a.len() ==> ascii_lower(#[trigger] a[i]) == ascii_lower(b[i])
}

/// `str::eq_ignore_ascii_case`: the two texts match when their ASCII letters are taken in
/// lower case.
pub assume_specification[ str::eq_ignore_ascii_case ](a: &str, b: &str) -> (r: bool)
    ensures
        r == same_ignoring_case(a@, b@),
;

/// `uzers::get_user_by_name`, reduced to the uid of the user found. What it finds depends on
/// the user database of the machine, with one exception that the function makes itself: a
/// name that holds a NUL character is not looked up and matches no user.
#[verifier::external_body]
pub(crate) fn lookup_uid(name: &str) -> (r: Option<u32>)
    ensures
        name@.contains('\0') ==> r is None,
{
    uzers::get_user_by_name(name).map(|user| user.uid())
}

/// `uzers::get_user_by_uid`, reduced to the name of the user found. What it finds depends on
/// the user database of the machine, so nothing is claimed of it.
#[verifier::external_body]
pub(crate) fn lookup_user_name(uid: u32) -> Option<String> {
    uzers::get_user_by_uid(uid).map(|user| user.name().to_string_lossy().into_owned())
}

/// `Itertools::sorted` on the members of a set: each member once, in ascending order.
#[verifier::external_body]
pub(crate) fn sorted(values: HashSet<i32>) -> (r: Vec<i32>)
    ensures
        forall|i: int, j: int| 0 <= i < j < r@.len() ==> r@[i] < r@[j],
        forall|p: i32| r@.contains(p) <==> values@.contains(p),
{
    values.into_iter().sorted().collect()
}

/// The text that `String::from_utf8_lossy` makes of the bytes: they are read as UTF-8, and
/// what is no valid UTF-8 among them becomes the replacement character.
pub uninterp spec fn lossy_text(bytes: Seq<u8>) -> Seq<char>;

/// `String::from_utf8_lossy`: the text depends on the bytes alone.
#[verifier::external_body]
pub(crate) fn text_lossy(bytes: &[u8]) -> (r: String)
    ensures
        r@ == lossy_text(bytes@),
{
    String::from_utf8_lossy(bytes).into_owned()
}

} // verus!
