//! The thumbnail relay's decisions: resolving the preview's image URL
//! against the page URL, and judging whether a fetched image response may
//! become the embed's thumbnail.

use crate::http::declares_image;
use crate::http::mime_is_image;
use crate::http::status_is_success;
use crate::http::status_success;
use crate::text::opt_view;
use vstd::prelude::*;
use vstd::string::StringExecFns;

verus! {

/// A fetched thumbnail body larger than this is refused.
pub const THUMB_MAX_BYTES: usize = 1_500_000;

/// What `url::Url::parse` yields for `s`: the parsed absolute URL rendered
/// back to a string, absent when `s` does not parse on its own.
pub uninterp spec fn url_parse_of(s: Seq<char>) -> Option<Seq<char>>;

/// What joining `rel` against the page URL `base` yields under standard URL
/// resolution, absent when `base` does not parse or the join fails.
pub uninterp spec fn url_join_of(base: Seq<char>, rel: Seq<char>) -> Option<Seq<char>>;

/// Relies on `url::Url::parse`: whether a string parses, and what URL it
/// renders to, depend on the string alone.
#[verifier::external_body]
fn parse_url(s: &str) -> (r: Option<String>)
    ensures
        opt_view(r) == url_parse_of(s@),
{
    match url::Url::parse(s) {
        Ok(u) => Some(u.as_str().to_string()),
        Err(_) => None,
    }
}

/// Relies on `url::Url::join` on the parsed base: standard URL-join
/// semantics, a function of the two strings alone.
#[verifier::external_body]
fn join_url(base: &str, rel: &str) -> (r: Option<String>)
    ensures
        opt_view(r) == url_join_of(base@, rel@),
{
    match url::Url::parse(base) {
        Ok(b) => match b.join(rel) {
            Ok(u) => Some(u.as_str().to_string()),
            Err(_) => None,
        },
        Err(_) => None,
    }
}

/// The image URL the relay will fetch: the candidate itself when it is an
/// absolute URL, else the candidate resolved against the page URL.
pub open spec fn resolved_url(base: Seq<char>, candidate: Seq<char>) -> Option<Seq<char>> {
    match url_parse_of(candidate) {
        Some(u) => Some(u),
        None => url_join_of(base, candidate),
    }
}

/// Resolve a possibly-relative image URL against the page it came from;
/// absent when neither the candidate nor the join gives a usable URL.
pub fn resolve_url(base: &str, candidate: &str) -> (r: Option<String>)
    ensures
        opt_view(r) == resolved_url(base@, candidate@),
{
    if let Some(u) = parse_url(candidate) {
        return Some(u);
    }
    join_url(base, candidate)
}

/// The MIME type a response is taken to declare: its content-type header,
/// or `application/octet-stream` when it sent none.
pub open spec fn effective_mime(ct: Option<String>) -> Seq<char> {
    match ct {
        Some(c) => c@,
        None => "application/octet-stream"@,
    }
}

/// Judge a fetched image response. The thumbnail is kept only when the
/// status is a success, the declared MIME type names an image, and the body
/// is within the size ceiling; the kept value is the MIME type the upload
/// must be labelled with. An absent result means "no thumbnail" and is
/// never an error: the embed is still built without an image.
pub fn accept_thumbnail(status: u16, content_type: Option<String>, body_len: usize) -> (r: Option<
    String,
>)
    ensures
        r is Some <==> status_success(status) && declares_image(effective_mime(content_type))
            && body_len <= THUMB_MAX_BYTES,
        r matches Some(m) ==> m@ == effective_mime(content_type),
{
    let mime = match content_type {
        Some(c) => c,
        None => String::from_str("application/octet-stream"),
    };
    if !status_is_success(status) {
        return None;
    }
    if !mime_is_image(mime.as_str()) {
        return None;
    }
    if body_len > THUMB_MAX_BYTES {
        return None;
    }
    Some(mime)
}

} // verus!
