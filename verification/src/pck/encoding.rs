use vstd::prelude::*;

verus! {

/// What `urlencoding::encode` returns for a string.
pub uninterp spec fn url_encoded(s: Seq<char>) -> Seq<char>;

/// What `urlencoding::decode` returns for a string: the percent-decoded text,
/// or `None` where the decoded bytes are not UTF-8.
pub uninterp spec fn url_decoded(s: Seq<char>) -> Option<Seq<char>>;

/// What base64 standard encoding (with padding) gives for bytes.
pub uninterp spec fn base64_standard(b: Seq<u8>) -> Seq<char>;

/// What `url::Url::join` gives for a base URL and a relative reference, as text;
/// `None` where the base does not parse or the join fails.
pub uninterp spec fn url_join_text(base: Seq<char>, relative: Seq<char>) -> Option<Seq<char>>;

/// What `url::Url::set_query` gives for a URL and a query, as text; `None`
/// where the URL does not parse.
pub uninterp spec fn url_with_query_text(url: Seq<char>, query: Seq<char>) -> Option<Seq<char>>;

/// Percent-encodes `s` with `urlencoding::encode`: every byte outside
/// `A-Z a-z 0-9 - _ . ~` becomes `%XX`. The result is named, not stated.
#[verifier::external_body]
pub(crate) fn url_encode(s: &str) -> (r: String)
    ensures
        r@ == url_encoded(s@),
{
    urlencoding::encode(s).into_owned()
}

/// Percent-decodes `s` with `urlencoding::decode`; `None` where the decoded
/// bytes are not valid UTF-8 (its only error). The result is named, not stated.
#[verifier::external_body]
pub(crate) fn url_decode(s: &str) -> (r: Option<String>)
    ensures
        r is Some <==> url_decoded(s@) is Some,
        r matches Some(d) ==> d@ == url_decoded(s@)->0,
{
    match urlencoding::decode(s) {
        Ok(d) => Some(d.into_owned()),
        Err(_) => None,
    }
}

/// Base64 encoding (standard alphabet, padded) with the `base64` crate's
/// `STANDARD` engine. The result is named, not stated.
#[verifier::external_body]
pub(crate) fn base64_encode(data: &[u8]) -> (r: String)
    ensures
        r@ == base64_standard(data@),
{
    base64::Engine::encode(&base64::engine::general_purpose::STANDARD, data)
}

/// Joins a relative reference onto a base URL with `url::Url::join` (the base
/// parsed with `Url::parse`, the result given as its serialization).
#[verifier::external_body]
pub(crate) fn url_join(base: &str, relative: &str) -> (r: Option<String>)
    ensures
        r is Some <==> url_join_text(base@, relative@) is Some,
        r matches Some(u) ==> u@ == url_join_text(base@, relative@)->0,
{
    match url::Url::parse(base) {
        Ok(b) => match b.join(relative) {
            Ok(u) => Some(u.as_str().to_string()),
            Err(_) => None,
        },
        Err(_) => None,
    }
}

/// Sets the query of a URL with `url::Url::set_query` (the URL parsed with
/// `Url::parse`, the result given as its serialization).
#[verifier::external_body]
pub(crate) fn url_set_query(url_text: &str, query: &str) -> (r: Option<String>)
    ensures
        r is Some <==> url_with_query_text(url_text@, query@) is Some,
        r matches Some(u) ==> u@ == url_with_query_text(url_text@, query@)->0,
{
    match url::Url::parse(url_text) {
        Ok(mut u) => {
            u.set_query(Some(query));
            Some(u.as_str().to_string())
        },
        Err(_) => None,
    }
}

} // verus!
