//! Reading the headers of a request and setting those of a response.
use axum::http::HeaderMap;
use axum::http::HeaderValue;
use vstd::prelude::*;

verus! {

/// The header map of the `http` crate.
#[verifier::external_type_specification]
#[verifier::external_body]
#[verifier::reject_recursive_types(T)]
pub struct ExHeaderMap<T>(HeaderMap<T>);

/// The header value of the `http` crate.
#[verifier::external_type_specification]
#[verifier::external_body]
pub struct ExHeaderValue(HeaderValue);

/// The readable headers of a map: each spelling of a name under which
/// `HeaderMap::get` finds a value, with the text of that value, where the
/// value is text.
pub uninterp spec fn header_texts(headers: HeaderMap) -> Map<Seq<char>, Seq<char>>;

/// The text of a header, where the header is there and holds text.
pub open spec fn header_text_of(headers: HeaderMap, name: Seq<char>) -> Option<Seq<char>> {
    if header_texts(headers).contains_key(name) {
        Some(header_texts(headers)[name])
    } else {
        None
    }
}

/// A visible ASCII character, a space or a tab.
pub open spec fn is_visible(c: char) -> bool {
    32 <= c as u32 <= 126 || c as u32 == 9
}

/// Calls `HeaderMap::get` and, on the first value found, `HeaderValue::to_str`.
/// The contract claims that the outcome depends on the map and the name alone:
/// it is the text held under that name, and nothing where no value is found or
/// the value is not made of visible ASCII characters, spaces and tabs; any text
/// is made of those.
#[verifier::external_body]
pub(crate) fn header_text<'a>(headers: &'a HeaderMap, name: &str) -> (r: Option<&'a str>)
    ensures
        match r {
            Some(text) => header_texts(*headers).contains_key(name@) && header_texts(
                *headers,
            )[name@] == text@ && (forall|i: int|
                0 <= i < text@.len() ==> is_visible(#[trigger] text@[i])),
            None => !header_texts(*headers).contains_key(name@),
        },
{
    headers.get(name).and_then(|value| value.to_str().ok())
}

/// How many names a map has values for.
pub uninterp spec fn header_names(headers: HeaderMap) -> nat;

/// A map with at most this many names has room for another one.
pub const ROOMY_HEADERS: usize = 4096;

/// The headers of a map once one has been set to a text, whatever the case
/// that its name is spelled in.
pub open spec fn with_header(
    headers: Map<Seq<char>, Seq<char>>,
    name: Seq<char>,
    text: Seq<char>,
) -> Map<Seq<char>, Seq<char>> {
    Map::new(
        |spelling: Seq<char>|
            headers.contains_key(spelling) || crate::text::same_ignoring_ascii_case(spelling, name),
        |spelling: Seq<char>|
            if crate::text::same_ignoring_ascii_case(spelling, name) {
                text
            } else {
                headers[spelling]
            },
    )
}

/// A header name in lower case that is not long.
pub open spec fn is_short_name(name: Seq<char>) -> bool {
    &&& 0 < name.len() <= 64
    &&& forall|i: int| 0 <= i < name.len() ==> ('a' <= #[trigger] name[i] <= 'z' || name[i] == '-')
}

/// Calls `HeaderMap::try_insert` with `HeaderValue::from_static`. The contract
/// claims that the value takes the place of all former values of the header,
/// that the other headers stay, and that the map is left as it was where it
/// has no room. It claims that there is room in a map with few names, and
/// nothing of when there is room in others.
#[verifier::external_body]
pub(crate) fn set_header(headers: &mut HeaderMap, name: &'static str, text: &'static str) -> (r:
    bool)
    requires
        is_short_name(name@),
        forall|i: int| 0 <= i < text@.len() ==> is_visible(#[trigger] text@[i]),
    ensures
        header_texts(*final(headers)) == if r {
            with_header(header_texts(*old(headers)), name@, text@)
        } else {
            header_texts(*old(headers))
        },
        header_names(*final(headers)) <= header_names(*old(headers)) + 1,
        header_names(*old(headers)) <= ROOMY_HEADERS ==> r,
{
    headers.try_insert(name, HeaderValue::from_static(text)).is_ok()
}

} // verus!
