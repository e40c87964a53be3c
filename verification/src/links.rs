//! The link scanner: finds `http(s)` hyperlinks in the message text and
//! records, for each, the byte range it occupies in the UTF-8 encoding of
//! that text.

use crate::ascii::str_has_prefix;
use vstd::prelude::*;
use vstd::utf8::encode_utf8;

verus! {

/// A hyperlink found in the message text. `byte_start` and `byte_end` index
/// the UTF-8 encoding of the original text, not its codepoints.
pub struct DetectedLink {
    pub url: String,
    pub byte_start: usize,
    pub byte_end: usize,
}

impl DetectedLink {
    /// The link really sits in `text`: its characters are a contiguous slice
    /// of `text` whose UTF-8 encoding occupies exactly the bytes
    /// `byte_start .. byte_end`, so both offsets fall on character
    /// boundaries of the encoded text.
    pub open spec fn sits_in(self, text: Seq<char>) -> bool {
        exists|i: int, j: int|
            {
                &&& 0 <= i <= j <= text.len()
                &&& self.url@ == text.subrange(i, j)
                &&& self.byte_start == encode_utf8(#[trigger] text.subrange(0, i)).len()
                &&& self.byte_end == encode_utf8(#[trigger] text.subrange(0, j)).len()
            }
    }
}

/// The link as a triple of plain values: its characters and its byte range.
pub open spec fn link_tuple(l: DetectedLink) -> (Seq<char>, int, int) {
    (l.url@, l.byte_start as int, l.byte_end as int)
}

/// A sequence of links as a sequence of such triples.
pub open spec fn link_tuples(s: Seq<DetectedLink>) -> Seq<(Seq<char>, int, int)> {
    s.map_values(|l: DetectedLink| link_tuple(l))
}

/// What linkify's URL scanner yields for `text`: each candidate span's
/// characters and byte range, in order of appearance in the text.
pub uninterp spec fn url_spans_of(text: Seq<char>) -> Seq<(Seq<char>, int, int)>;

/// Relies on `linkify::LinkFinder` restricted to `LinkKind::Url`: every link
/// it yields is a nonempty substring of `text` standing on UTF-8 character
/// boundaries, with `start()` and `end()` indexing the UTF-8 bytes of
/// `text`, and the links come in text order without overlap.
#[verifier::external_body]
fn scan_url_spans(text: &str) -> (r: Vec<DetectedLink>)
    ensures
        link_tuples(r@) == url_spans_of(text@),
        forall|k: int| 0 <= k < r@.len() ==> (#[trigger] r@[k]).sits_in(text@),
        forall|k: int| 0 <= k < r@.len() ==> (#[trigger] r@[k]).byte_start < r@[k].byte_end,
        forall|k: int|
            0 <= k < r@.len() - 1 ==> (#[trigger] r@[k]).byte_end <= r@[k + 1].byte_start,
{
    let mut finder = linkify::LinkFinder::new();
    finder.kinds(&[linkify::LinkKind::Url]);
    finder
        .links(text)
        .map(
            |l| DetectedLink {
                url: l.as_str().to_string(),
                byte_start: l.start(),
                byte_end: l.end(),
            },
        )
        .collect()
}

/// Only candidates whose scheme is exactly `http` or `https` are retained.
pub open spec fn is_web_url(u: Seq<char>) -> bool {
    ||| (u.len() >= 7 && u.subrange(0, 7) == "http://"@)
    ||| (u.len() >= 8 && u.subrange(0, 8) == "https://"@)
}

/// The scheme filter as a predicate over candidate spans.
pub open spec fn web_pred() -> spec_fn((Seq<char>, int, int)) -> bool {
    |s: (Seq<char>, int, int)| is_web_url(s.0)
}

/// The `http(s)` links of `text`: linkify's URL spans with every candidate
/// of another scheme dropped, order kept.
pub open spec fn web_spans(text: Seq<char>) -> Seq<(Seq<char>, int, int)> {
    url_spans_of(text).filter(web_pred())
}

/// Scan `text` for `http(s)` links, in order of appearance. Candidates with
/// any other scheme (`mailto:` and the like) are dropped without error;
/// repeated identical URLs each keep their own entry.
#[verifier::loop_isolation(false)]
pub fn detect_links(text: &str) -> (r: Vec<DetectedLink>)
    ensures
        link_tuples(r@) == web_spans(text@),
        forall|k: int| 0 <= k < r@.len() ==> (#[trigger] r@[k]).sits_in(text@),
        forall|k: int| 0 <= k < r@.len() ==> is_web_url((#[trigger] r@[k]).url@),
        forall|k: int| 0 <= k < r@.len() ==> (#[trigger] r@[k]).byte_start < r@[k].byte_end,
{
    let cand = scan_url_spans(text);
    let n = cand.len();
    let mut out: Vec<DetectedLink> = Vec::new();
    let mut i: usize = 0;
    while i < n
        invariant
            i <= n,
            link_tuples(out@) == url_spans_of(text@).subrange(0, i as int).filter(web_pred()),
            forall|k: int| 0 <= k < out@.len() ==> (#[trigger] out@[k]).sits_in(text@),
            forall|k: int| 0 <= k < out@.len() ==> is_web_url((#[trigger] out@[k]).url@),
            forall|k: int|
                0 <= k < out@.len() ==> (#[trigger] out@[k]).byte_start < out@[k].byte_end,
        decreases n - i,
    {
        let is_http = str_has_prefix(cand[i].url.as_str(), "http://");
        let is_https = str_has_prefix(cand[i].url.as_str(), "https://");
        proof {
            reveal_strlit("http://");
            reveal_strlit("https://");
            assert((is_http || is_https) == is_web_url(cand@[i as int].url@));
        }
        let ghost pre = url_spans_of(text@).subrange(0, i as int);
        let ghost cur = url_spans_of(text@).subrange(0, i + 1 as int);
        proof {
            reveal(Seq::filter);
            assert(cur.drop_last() =~= pre);
            assert(cur.last() == link_tuples(cand@)[i as int]);
            assert(cur.last() == link_tuple(cand@[i as int]));
        }
        if is_http || is_https {
            let l = DetectedLink {
                url: cand[i].url.clone(),
                byte_start: cand[i].byte_start,
                byte_end: cand[i].byte_end,
            };
            proof {
                assert(l == cand@[i as int]);
                reveal(Seq::filter);
                assert(cur.filter(web_pred()) == pre.filter(web_pred()).push(link_tuple(l)));
            }
            out.push(l);
            proof {
                assert(link_tuples(out@) =~= cur.filter(web_pred()));
            }
        } else {
            proof {
                reveal(Seq::filter);
                assert(cur.filter(web_pred()) == pre.filter(web_pred()));
                assert(link_tuples(out@) == cur.filter(web_pred()));
            }
        }
        i += 1;
    }
    proof {
        assert(url_spans_of(text@).subrange(0, n as int) =~= url_spans_of(text@));
    }
    out
}

/// The first detected link, present exactly when the scan found any link.
pub fn first_link(links: &Vec<DetectedLink>) -> (r: Option<&DetectedLink>)
    ensures
        r is Some <==> links@.len() > 0,
        r matches Some(l) ==> *l == links@[0],
{
    if links.len() == 0 {
        None
    } else {
        Some(&links[0])
    }
}

} // verus!
