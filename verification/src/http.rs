//! Response-level decisions shared by the preview and thumbnail stages:
//! success statuses and what a content-type header declares.

use crate::ascii::ascii_lower;
use crate::ascii::bytes_contain;
use crate::ascii::bytes_prefix;
use crate::ascii::contains_bytes;
use crate::ascii::lower_bytes;
use crate::ascii::prefix_bytes;
use vstd::prelude::*;
use vstd::string::StrSliceExecFns;
use vstd::string::StringSliceAdditionalSpecFns;
use vstd::utf8::encode_utf8;

verus! {

/// An HTTP status in the success range.
pub open spec fn status_success(status: u16) -> bool {
    200 <= status < 300
}

pub fn status_is_success(status: u16) -> (r: bool)
    ensures
        r == status_success(status),
{
    200 <= status && status < 300
}

/// The header value declares HTML: its ASCII-lowercased UTF-8 bytes contain
/// `text/html` somewhere.
pub open spec fn declares_html(ct: Seq<char>) -> bool {
    bytes_contain(ascii_lower(encode_utf8(ct)), encode_utf8("text/html"@))
}

/// Whether a content-type header value names HTML, however it is cased and
/// whatever parameters follow.
pub fn content_type_is_html(ct: &str) -> (r: bool)
    ensures
        r == declares_html(ct@),
{
    let bytes = ct.as_bytes_vec();
    let lowered = lower_bytes(&bytes);
    let pattern = "text/html".as_bytes_vec();
    contains_bytes(&lowered, &pattern)
}

/// `application/json` does not declare HTML, whatever follows it.
pub proof fn lemma_json_is_not_html()
    ensures
        !declares_html("application/json"@),
{
    reveal_strlit("application/json");
    reveal_strlit("text/html");
    let ct = "application/json"@;
    let pat = "text/html"@;
    assert(ct.len() == 16);
    assert(pat.len() == 9);
    assert(vstd::utf8::is_ascii_chars(ct));
    assert(vstd::utf8::is_ascii_chars(pat));
    vstd::utf8::is_ascii_chars_encode_utf8(ct);
    vstd::utf8::is_ascii_chars_encode_utf8(pat);
    let low = ascii_lower(encode_utf8(ct));
    let pb = encode_utf8(pat);
    assert(low.len() == 16);
    assert forall|i: int| 0 <= i < 16 implies #[trigger] low[i] == encode_utf8(ct)[i] by {
        assert(ct[i] as u8 == encode_utf8(ct)[i]);
    }
    if bytes_contain(low, pb) {
        let i = choose|i: int| 0 <= i && i + pb.len() <= low.len() && #[trigger] low.subrange(
            i,
            i + pb.len(),
        ) == pb;
        assert(low.subrange(i, i + 9)[0] == pb[0]);
        assert(low.subrange(i, i + 9)[1] == pb[1]);
        assert(low[i] == 't' as u8);
        assert(low[i + 1] == 'e' as u8);
        assert(false);
    }
}

/// The MIME type declares an image: its ASCII-lowercased UTF-8 bytes open
/// with `image/`.
pub open spec fn declares_image(mime: Seq<char>) -> bool {
    bytes_prefix(ascii_lower(encode_utf8(mime)), encode_utf8("image/"@))
}

/// Whether a MIME type names an image, however it is cased.
pub fn mime_is_image(mime: &str) -> (r: bool)
    ensures
        r == declares_image(mime@),
{
    let bytes = mime.as_bytes_vec();
    let lowered = lower_bytes(&bytes);
    let pattern = "image/".as_bytes_vec();
    prefix_bytes(&lowered, &pattern)
}

} // verus!
