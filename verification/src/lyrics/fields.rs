//! Field-level rules of the lyrics format: identifiers, text, URIs, language
//! and direction values, timestamps and the version string.

use crate::lyrics::document::{JSON_SAFE_INTEGER_MAX, LyricsValidationError};
use crate::lyrics::language::{is_language_tag, is_language_tag_spec};
use crate::text::{
    all_whitespace, any_control, char_is_alnum, char_is_alpha, char_is_digit, char_is_whitespace,
    chars_of, concat, concat_spec, decimal, decimal_text, find_char, first_index, has_control, is_alnum, is_alpha,
    is_blank, is_digit, is_whitespace, text_is,
};
use vstd::prelude::*;

verus! {

/// A character allowed in identifiers besides ASCII letters and digits.
pub open spec fn is_identifier_char(c: char) -> bool {
    is_alnum(c) || c == '-' || c == '_' || c == '.' || c == ':'
}

/// 1 to 64 ASCII letters, digits, `.`, `:`, `_` or `-`.
pub open spec fn valid_identifier(s: Seq<char>) -> bool {
    &&& 1 <= s.len() <= 64
    &&& forall|i: int| 0 <= i < s.len() ==> #[trigger] is_identifier_char(s[i])
}

/// Nonempty text without control characters; unless `allow_blank`, it must
/// also contain something other than whitespace.
pub open spec fn valid_text(s: Seq<char>, allow_blank: bool) -> bool {
    &&& s.len() > 0
    &&& (allow_blank || !is_blank(s))
    &&& !has_control(s)
}

/// Some character of `s` is whitespace.
pub open spec fn has_whitespace(s: Seq<char>) -> bool {
    exists|i: int| 0 <= i < s.len() && #[trigger] is_whitespace(s[i])
}

/// A character allowed in a URI scheme.
pub open spec fn is_scheme_char(c: char) -> bool {
    is_alnum(c) || c == '+' || c == '-' || c == '.'
}

/// `scheme:rest` with a scheme that starts with a letter, a nonempty rest,
/// and no control or whitespace characters anywhere.
pub open spec fn valid_absolute_uri(s: Seq<char>) -> bool {
    match first_index(s, ':') {
        None => false,
        Some(k) => {
            &&& k > 0
            &&& k + 1 < s.len()
            &&& is_alpha(s[0])
            &&& forall|i: int| 0 <= i < k ==> #[trigger] is_scheme_char(s[i])
            &&& !has_control(s)
            &&& !has_whitespace(s)
        },
    }
}

/// `1.<digits>`: major version 1 and any numeric minor version.
pub open spec fn valid_version(s: Seq<char>) -> bool {
    match first_index(s, '.') {
        None => false,
        Some(k) => {
            &&& s.take(k) == seq!['1']
            &&& k + 1 < s.len()
            &&& forall|i: int| k < i < s.len() ==> #[trigger] is_digit(s[i])
        },
    }
}

/// The text view of an optional string.
pub open spec fn opt_view(o: Option<String>) -> Option<Seq<char>> {
    match o {
        Some(s) => Some(s@),
        None => None,
    }
}

/// An absent value, or valid non-blank text.
pub open spec fn opt_text_ok(o: Option<String>) -> bool {
    match o {
        Some(s) => valid_text(s@, false),
        None => true,
    }
}

/// An absent value, or an absolute URI.
pub open spec fn opt_uri_ok(o: Option<String>) -> bool {
    match o {
        Some(s) => valid_absolute_uri(s@),
        None => true,
    }
}

/// An absent value, or a well-formed language tag.
pub open spec fn opt_language_ok(o: Option<String>) -> bool {
    match o {
        Some(s) => is_language_tag_spec(s@),
        None => true,
    }
}

/// An absent value, or `auto`, `ltr` or `rtl`.
pub open spec fn opt_direction_ok(o: Option<String>) -> bool {
    match o {
        Some(s) => s@ == "auto"@ || s@ == "ltr"@ || s@ == "rtl"@,
        None => true,
    }
}

/// A timestamp within the JSON safe-integer range.
pub open spec fn timestamp_ok(value: u64) -> bool {
    value <= JSON_SAFE_INTEGER_MAX
}

/// The textual representation of `text` under Rust's `Debug` formatting.
pub uninterp spec fn debug_quoted(text: Seq<char>) -> Seq<char>;

/// Formats `text` with `std`'s `Debug` implementation for `str` (a quoted,
/// escaped form). The contract names the result only; it appears in error
/// messages and nothing else depends on it.
#[verifier::external_body]
pub(crate) fn quoted(text: &str) -> (q: String)
    ensures
        q@ == debug_quoted(text@),
{
    format!("{text:?}")
}

/// An error whose message is the concatenation of `parts`.
pub fn lyrics_error(parts: &[&str]) -> (error: LyricsValidationError)
    ensures
        error.0@ == concat_spec(parts@.map_values(|p: &str| p@)),
        parts@.len() == 1 ==> error.0@ == parts@[0]@,
        parts@.len() == 2 ==> error.0@ == parts@[0]@ + parts@[1]@,
        parts@.len() == 3 ==> error.0@ == parts@[0]@ + parts@[1]@ + parts@[2]@,
{
    proof {
        crate::text::lemma_concat_few(parts@.map_values(|p: &str| p@));
    }
    LyricsValidationError(concat(parts))
}

/// The first of two possible errors.
pub open spec fn either(first: Option<Seq<char>>, second: Option<Seq<char>>) -> Option<Seq<char>> {
    if first is Some {
        first
    } else {
        second
    }
}

/// A validator's result as its error message, if any.
pub open spec fn error_of(r: Result<(), LyricsValidationError>) -> Option<Seq<char>> {
    match r {
        Ok(_) => None,
        Err(e) => Some(e.0@),
    }
}

/// The error for a timestamp past the JSON safe-integer range.
pub open spec fn timestamp_error(value: u64, field: Seq<char>) -> Option<Seq<char>> {
    if timestamp_ok(value) {
        None
    } else {
        Some(field + " exceeds the JSON safe-integer range"@)
    }
}

/// The error for a malformed identifier.
pub open spec fn identifier_error(value: Seq<char>, field: Seq<char>) -> Option<Seq<char>> {
    if valid_identifier(value) {
        None
    } else {
        Some(field + " must be 1-64 ASCII letters, digits, '.', ':', '_' or '-'"@)
    }
}

/// The error for empty (or, unless `allow_blank`, blank) text, else for
/// text with control characters.
pub open spec fn text_error(value: Seq<char>, field: Seq<char>, allow_blank: bool) -> Option<Seq<char>> {
    if value.len() == 0 || (!allow_blank && is_blank(value)) {
        Some(field + " must not be empty"@)
    } else if has_control(value) {
        Some(field + " must not contain control characters"@)
    } else {
        None
    }
}

/// The error of optional non-blank text.
pub open spec fn opt_text_error(value: Option<String>, field: Seq<char>) -> Option<Seq<char>> {
    match value {
        Some(v) => text_error(v@, field, false),
        None => None,
    }
}

/// The error for a value that is no absolute URI.
pub open spec fn uri_error(value: Seq<char>, field: Seq<char>) -> Option<Seq<char>> {
    if valid_absolute_uri(value) {
        None
    } else {
        Some(field + " must be an absolute URI"@)
    }
}

/// The error of an optional absolute URI.
pub open spec fn opt_uri_error(value: Option<String>, field: Seq<char>) -> Option<Seq<char>> {
    match value {
        Some(v) => uri_error(v@, field),
        None => None,
    }
}

/// The error of an optional language tag.
pub open spec fn opt_language_error(value: Option<String>, field: Seq<char>) -> Option<Seq<char>> {
    match value {
        Some(v) => if is_language_tag_spec(v@) {
            None
        } else {
            Some(field + " must be a well-formed BCP 47 language tag"@)
        },
        None => None,
    }
}

/// The error of an optional text direction.
pub open spec fn opt_direction_error(value: Option<String>, field: Seq<char>) -> Option<Seq<char>> {
    if opt_direction_ok(value) {
        None
    } else {
        Some(field + " must be 'auto', 'ltr', or 'rtl'"@)
    }
}

/// The error of a version string: no `.` at all, or not `1.<digits>`.
pub open spec fn version_error(version: Seq<char>) -> Option<Seq<char>> {
    if first_index(version, '.') is None {
        Some("version must use the <major>.<minor> form"@)
    } else if valid_version(version) {
        None
    } else {
        Some("unsupported lyrics version "@ + debug_quoted(version))
    }
}

/// `prefix<index>suffix`, the path of an element in a list field.
pub fn field_at(prefix: &str, index: usize, suffix: &str) -> (path: String)
    ensures
        path@ == prefix@ + decimal(index as nat) + suffix@,
{
    let number = decimal_text(index as u64);
    let parts = [prefix, number.as_str(), suffix];
    let path = concat(&parts);
    proof {
        let views = parts@.map_values(|p: &str| p@);
        assert(views =~= seq![prefix@, number@, suffix@]);
        assert(views.take(3) =~= views);
        assert(views.take(2) =~= views.drop_last());
        assert(views.take(2).drop_last() =~= views.take(1));
        assert(views.take(1).drop_last() =~= Seq::<Seq<char>>::empty());
        assert(concat_spec(views.take(1).drop_last()) =~= Seq::<char>::empty());
        assert(views.take(1).last() == prefix@);
        assert(concat_spec(views.take(1)) =~= Seq::<char>::empty() + prefix@);
        assert(Seq::<char>::empty() + prefix@ =~= prefix@);
        assert(concat_spec(views.take(2)) =~= prefix@ + number@);
    }
    path
}

pub fn validate_timestamp(value: u64, field: &str) -> (r: Result<(), LyricsValidationError>)
    ensures
        r is Ok <==> timestamp_ok(value),
        error_of(r) == timestamp_error(value, field@),
{
    if value > JSON_SAFE_INTEGER_MAX {
        Err(lyrics_error(&[field, " exceeds the JSON safe-integer range"]))
    } else {
        Ok(())
    }
}

pub fn validate_identifier(value: &str, field: &str) -> (r: Result<(), LyricsValidationError>)
    ensures
        r is Ok <==> valid_identifier(value@),
        error_of(r) == identifier_error(value@, field@),
{
    let chars = chars_of(value);
    let mut ok = chars.len() >= 1 && chars.len() <= 64;
    let mut i: usize = 0;
    while ok && i < chars.len()
        invariant
            chars@ == value@,
            i <= chars@.len(),
            ok ==> forall|j: int| 0 <= j < i ==> #[trigger] is_identifier_char(chars@[j]),
            ok ==> 1 <= chars@.len() <= 64,
            !ok ==> !valid_identifier(value@),
        decreases chars@.len() - i,
    {
        let c = chars[i];
        if !(char_is_alnum(c) || c == '-' || c == '_' || c == '.' || c == ':') {
            assert(!is_identifier_char(chars@[i as int]));
            ok = false;
        }
        i = i + 1;
    }
    if ok {
        Ok(())
    } else {
        Err(
            lyrics_error(
                &[field, " must be 1-64 ASCII letters, digits, '.', ':', '_' or '-'"],
            ),
        )
    }
}

pub fn validate_text(value: &str, field: &str, allow_blank: bool) -> (r: Result<
    (),
    LyricsValidationError,
>)
    ensures
        r is Ok <==> valid_text(value@, allow_blank),
        error_of(r) == text_error(value@, field@, allow_blank),
{
    let chars = chars_of(value);
    if chars.len() == 0 || (!allow_blank && all_whitespace(chars.as_slice())) {
        return Err(lyrics_error(&[field, " must not be empty"]));
    }
    if any_control(chars.as_slice()) {
        return Err(lyrics_error(&[field, " must not contain control characters"]));
    }
    Ok(())
}

pub fn validate_optional_text(value: &Option<String>, field: &str) -> (r: Result<
    (),
    LyricsValidationError,
>)
    ensures
        r is Ok <==> opt_text_ok(*value),
        error_of(r) == opt_text_error(*value, field@),
{
    match value {
        Some(v) => validate_text(v.as_str(), field, false),
        None => Ok(()),
    }
}

/// Whether some character is whitespace.
fn any_whitespace(s: &[char]) -> (r: bool)
    ensures
        r == has_whitespace(s@),
{
    let mut i: usize = 0;
    while i < s.len()
        invariant
            i <= s@.len(),
            forall|j: int| 0 <= j < i ==> !is_whitespace(#[trigger] s@[j]),
        decreases s@.len() - i,
    {
        if char_is_whitespace(s[i]) {
            assert(is_whitespace(s@[i as int]));
            return true;
        }
        i = i + 1;
    }
    false
}

pub fn validate_absolute_uri(value: &str, field: &str) -> (r: Result<(), LyricsValidationError>)
    ensures
        r is Ok <==> valid_absolute_uri(value@),
        error_of(r) == uri_error(value@, field@),
{
    let chars = chars_of(value);
    let colon = match find_char(chars.as_slice(), ':') {
        Some(k) => k,
        None => return Err(lyrics_error(&[field, " must be an absolute URI"])),
    };
    let n = chars.len();
    assert(colon < n);
    let mut ok = colon > 0 && colon + 1 < n && char_is_alpha(chars[0]);
    let mut i: usize = 0;
    while ok && i < colon
        invariant
            chars@ == value@,
            colon < chars@.len(),
            i <= colon,
            ok ==> forall|j: int| 0 <= j < i ==> #[trigger] is_scheme_char(chars@[j]),
            ok ==> colon > 0 && colon + 1 < chars@.len() && is_alpha(chars@[0]),
            !ok ==> !(colon > 0 && colon + 1 < chars@.len() && is_alpha(chars@[0]) && forall|
                j: int,
            | 0 <= j < colon ==> #[trigger] is_scheme_char(chars@[j])),
        decreases colon - i,
    {
        let c = chars[i];
        if !(char_is_alnum(c) || c == '+' || c == '-' || c == '.') {
            assert(!is_scheme_char(chars@[i as int]));
            ok = false;
        }
        i = i + 1;
    }
    if !ok || any_control(chars.as_slice()) || any_whitespace(chars.as_slice()) {
        return Err(lyrics_error(&[field, " must be an absolute URI"]));
    }
    Ok(())
}

pub fn validate_optional_uri(value: &Option<String>, field: &str) -> (r: Result<
    (),
    LyricsValidationError,
>)
    ensures
        r is Ok <==> opt_uri_ok(*value),
        error_of(r) == opt_uri_error(*value, field@),
{
    match value {
        Some(v) => validate_absolute_uri(v.as_str(), field),
        None => Ok(()),
    }
}

pub fn validate_optional_language(value: &Option<String>, field: &str) -> (r: Result<
    (),
    LyricsValidationError,
>)
    ensures
        r is Ok <==> opt_language_ok(*value),
        error_of(r) == opt_language_error(*value, field@),
{
    match value {
        Some(tag) => if is_language_tag(tag.as_str()) {
            Ok(())
        } else {
            Err(lyrics_error(&[field, " must be a well-formed BCP 47 language tag"]))
        },
        None => Ok(()),
    }
}

pub fn validate_optional_direction(value: &Option<String>, field: &str) -> (r: Result<
    (),
    LyricsValidationError,
>)
    ensures
        r is Ok <==> opt_direction_ok(*value),
        error_of(r) == opt_direction_error(*value, field@),
{
    match value {
        Some(direction) => {
            let d = direction.as_str();
            if text_is(d, "auto") || text_is(d, "ltr") || text_is(d, "rtl") {
                Ok(())
            } else {
                Err(lyrics_error(&[field, " must be 'auto', 'ltr', or 'rtl'"]))
            }
        },
        None => Ok(()),
    }
}

pub fn validate_version(version: &str) -> (r: Result<(), LyricsValidationError>)
    ensures
        r is Ok <==> valid_version(version@),
        error_of(r) == version_error(version@),
{
    let chars = chars_of(version);
    let dot = match find_char(chars.as_slice(), '.') {
        Some(k) => k,
        None => return Err(lyrics_error(&["version must use the <major>.<minor> form"])),
    };
    let major_ok = dot == 1 && chars[0] == '1';
    assert(major_ok <==> chars@.take(dot as int) == seq!['1']) by {
        if dot == 1 && chars@[0] == '1' {
            assert(chars@.take(dot as int) =~= seq!['1']);
        }
        if chars@.take(dot as int) == seq!['1'] {
            assert(chars@.take(dot as int).len() == 1);
            assert(dot == 1);
            assert(chars@.take(1)[0] == chars@[0]);
        }
    }
    let n = chars.len();
    assert(dot < n);
    let mut ok = major_ok && dot + 1 < n;
    let mut i = dot + 1;
    while ok && i < chars.len()
        invariant
            chars@ == version@,
            dot < chars@.len(),
            dot + 1 <= i <= chars@.len(),
            ok ==> forall|j: int| dot < j < i ==> #[trigger] is_digit(chars@[j]),
            ok ==> chars@.take(dot as int) == seq!['1'] && dot + 1 < chars@.len(),
            !ok ==> !(chars@.take(dot as int) == seq!['1'] && dot + 1 < chars@.len() && forall|
                j: int,
            | dot < j < chars@.len() ==> #[trigger] is_digit(chars@[j])),
        decreases chars@.len() - i,
    {
        if !char_is_digit(chars[i]) {
            assert(!is_digit(chars@[i as int]));
            ok = false;
        }
        i = i + 1;
    }
    if ok {
        Ok(())
    } else {
        let q = quoted(version);
        Err(lyrics_error(&["unsupported lyrics version ", q.as_str()]))
    }
}

} // verus!
