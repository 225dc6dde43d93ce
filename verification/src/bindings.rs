use convert_case::Casing;
use vstd::prelude::*;

verus! {

/// Whether the regular expression `pattern` matches somewhere in `haystack`
/// (as `regex::Regex::is_match` decides it).
pub uninterp spec fn regex_matches(pattern: Seq<char>, haystack: Seq<char>) -> bool;

/// What `regex::Regex::replace` gives for `pattern`, `haystack` and the literal replacement `rep`.
pub uninterp spec fn regex_replaced(pattern: Seq<char>, haystack: Seq<char>, rep: Seq<char>) -> Seq<char>;

/// What `str::to_uppercase` gives for `s`.
pub uninterp spec fn uppercase_of(s: Seq<char>) -> Seq<char>;

/// What `convert_case`'s `to_case(Case::Camel)` gives for `s`.
pub uninterp spec fn camel_case_of(s: Seq<char>) -> Seq<char>;

/// The pattern that accepts a text whose first character lies between `A` and `z`.
pub open spec fn key_start_pattern() -> Seq<char> {
    "^[aA-zZ]"@
}

/// The pattern `^\<[aA-zZ]`. In the `regex` crate `\<` is a start-of-word assertion (a
/// word character must follow), so the pattern accepts a text whose first character is a
/// word character between `A` and `z`: an ASCII letter or `_`.
pub open spec fn tag_start_pattern() -> Seq<char> {
    "^\\<[aA-zZ]"@
}

/// `c` is a word character that lies between `A` and `z`: an ASCII letter or `_`.
pub open spec fn is_word_key_char(c: char) -> bool {
    is_ascii_letter(c) || c == '_'
}

/// The pattern that finds the suffix `_attributes`, in any letter case, at the end of a text.
pub open spec fn attributes_suffix_pattern() -> Seq<char> {
    "_(A|a)(T|t)(T|t)(R|r)(I|i)(B|b)(U|u)(T|t)(E|e)(S|s)$"@
}

/// `c` lies in the character class `[aA-zZ]`, which is the range `A`..=`z`.
pub open spec fn is_key_char(c: char) -> bool {
    'A' <= c && c <= 'z'
}

/// `c` is an ASCII letter.
pub open spec fn is_ascii_letter(c: char) -> bool {
    ('A' <= c && c <= 'Z') || ('a' <= c && c <= 'z')
}

/// The ASCII upper-case form of `c` (other characters unchanged).
pub open spec fn ascii_upper_char(c: char) -> char {
    if 'a' <= c && c <= 'z' {
        ((c as int) - 32) as char
    } else {
        c
    }
}

/// `s` with its ASCII lower-case letters made upper case.
pub open spec fn ascii_upper(s: Seq<char>) -> Seq<char> {
    s.map_values(|c: char| ascii_upper_char(c))
}

/// Every character of `s` is ASCII.
pub open spec fn all_ascii(s: Seq<char>) -> bool {
    forall|i: int| 0 <= i < s.len() ==> (#[trigger] s[i] as int) < 128
}

/// `s` ends with `_attributes`, each letter in either case.
pub open spec fn ends_with_attributes_suffix(s: Seq<char>) -> bool {
    s.len() >= 11 && ascii_upper(s.skip(s.len() - 11)) == "_ATTRIBUTES"@
}

/// Compiles `pattern` with `regex::Regex::new` and, when it compiles, answers
/// `regex::Regex::is_match` on `haystack`. The result is named by `regex_matches`;
/// for the two patterns of this library the crate's documented syntax gives the answer,
/// which the last two clauses state. Nothing is said of other patterns beyond the name.
#[verifier::external_body]
pub(crate) fn regex_is_match(pattern: &str, haystack: &str) -> (r: Option<bool>)
    ensures
        r matches Some(b) ==> b == regex_matches(pattern@, haystack@),
        pattern@ == key_start_pattern() ==> r == Some(
            haystack@.len() > 0 && is_key_char(haystack@[0]),
        ),
        pattern@ == tag_start_pattern() ==> r == Some(haystack@.len() > 0 && is_word_key_char(haystack@[0])),
{
    match regex::Regex::new(pattern) {
        Ok(re) => Some(re.is_match(haystack)),
        Err(_) => None,
    }
}

/// Compiles `pattern` with `regex::Regex::new` and, when it compiles, answers
/// `regex::Regex::replace` of the leftmost match in `haystack` by the text `rep`.
/// The result is named by `regex_replaced`; for the `_attributes` suffix pattern with an
/// empty replacement the documented syntax gives the answer: the suffix is cut off when present.
#[verifier::external_body]
pub(crate) fn regex_replace(pattern: &str, haystack: &str, rep: &str) -> (r: Option<String>)
    ensures
        r matches Some(t) ==> t@ == regex_replaced(pattern@, haystack@, rep@),
        pattern@ == attributes_suffix_pattern() && rep@.len() == 0 ==> r is Some,
        pattern@ == attributes_suffix_pattern() && rep@.len() == 0 ==> r.unwrap()@ == (
        if ends_with_attributes_suffix(haystack@) {
            haystack@.take(haystack@.len() - 11)
        } else {
            haystack@
        }),
{
    match regex::Regex::new(pattern) {
        Ok(re) => Some(re.replace(haystack, rep).into_owned()),
        Err(_) => None,
    }
}

/// `s` is the lower-case hyphenated text of a UUID: 36 characters, `-` at positions
/// 8, 13, 18 and 23, and lower-case hexadecimal digits elsewhere.
pub open spec fn is_uuid_text(s: Seq<char>) -> bool {
    &&& s.len() == 36
    &&& forall|i: int|
        0 <= i < 36 ==> if i == 8 || i == 13 || i == 18 || i == 23 {
            #[trigger] s[i] == '-'
        } else {
            ('0' <= s[i] && s[i] <= '9') || ('a' <= s[i] && s[i] <= 'f')
        }
}

/// A random version-4 UUID from `uuid::Uuid::new_v4`, written by its `Display` impl
/// (lower-case, hyphenated). Only its shape is stated: the value is random.
#[verifier::external_body]
pub(crate) fn new_uuid_string() -> (r: String)
    ensures
        is_uuid_text(r@),
{
    uuid::Uuid::new_v4().to_string()
}

/// `str::to_uppercase`. The result is named by `uppercase_of`; on ASCII text the
/// documentation gives it: ASCII lower-case letters become upper case, all else stays.
#[verifier::external_body]
pub(crate) fn to_uppercase(s: &str) -> (r: String)
    ensures
        r@ == uppercase_of(s@),
        all_ascii(s@) ==> r@ == ascii_upper(s@),
{
    s.to_uppercase()
}

/// `convert_case`'s `to_case(Case::Camel)` on `s`. The result is named by `camel_case_of`;
/// the crate's word-boundary rules are not restated here.
#[verifier::external_body]
pub(crate) fn to_camel_case(s: &str) -> (r: String)
    ensures
        r@ == camel_case_of(s@),
{
    s.to_case(convert_case::Case::Camel)
}

} // verus!
