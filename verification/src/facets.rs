//! The facet builder: one byte-range link annotation per detected link,
//! count and order preserved, nothing merged and nothing re-filtered.

use crate::links::DetectedLink;
use vstd::prelude::*;
use vstd::utf8::encode_utf8;

verus! {

/// A rich-text annotation anchoring a link to a byte range of the post text.
pub struct Facet {
    pub byte_start: usize,
    pub byte_end: usize,
    pub uri: String,
}

impl Facet {
    /// The facet carries exactly the link's byte range and target URI.
    pub open spec fn mirrors(self, l: DetectedLink) -> bool {
        &&& self.byte_start == l.byte_start
        &&& self.byte_end == l.byte_end
        &&& self.uri@ == l.url@
    }

    /// The facet's range indexes the UTF-8 encoding of `text` on character
    /// boundaries, and the bytes in between encode exactly the facet's URI.
    pub open spec fn anchors_in(self, text: Seq<char>) -> bool {
        exists|i: int, j: int|
            {
                &&& 0 <= i <= j <= text.len()
                &&& self.uri@ == text.subrange(i, j)
                &&& self.byte_start == encode_utf8(#[trigger] text.subrange(0, i)).len()
                &&& self.byte_end == encode_utf8(#[trigger] text.subrange(0, j)).len()
            }
    }
}

/// Turn the scanned links into facets, one per link and in the same order;
/// absent when no link was found.
#[verifier::loop_isolation(false)]
pub fn build_bsky_facets(links: &Vec<DetectedLink>) -> (r: Option<Vec<Facet>>)
    ensures
        r is Some <==> links@.len() > 0,
        r matches Some(fs) ==> fs@.len() == links@.len() && forall|k: int|
            0 <= k < fs@.len() ==> (#[trigger] fs@[k]).mirrors(links@[k]),
{
    if links.len() == 0 {
        return None;
    }
    let n = links.len();
    let mut fs: Vec<Facet> = Vec::new();
    let mut i: usize = 0;
    while i < n
        invariant
            i <= n,
            fs@.len() == i,
            forall|k: int| 0 <= k < i ==> (#[trigger] fs@[k]).mirrors(links@[k]),
        decreases n - i,
    {
        let f = Facet {
            byte_start: links[i].byte_start,
            byte_end: links[i].byte_end,
            uri: links[i].url.clone(),
        };
        fs.push(f);
        i += 1;
    }
    Some(fs)
}

/// Text whose scan found `N` links yields exactly `N` facets; each facet has
/// `byte_start < byte_end`, both offsets land on UTF-8 character boundaries
/// of the text, and the bytes between them encode exactly the URL substring
/// the scanner matched.
pub proof fn lemma_facets_exact(text: Seq<char>, links: Seq<DetectedLink>, facets: Seq<Facet>)
    requires
        forall|k: int| 0 <= k < links.len() ==> (#[trigger] links[k]).sits_in(text),
        forall|k: int| 0 <= k < links.len() ==> (#[trigger] links[k]).byte_start
            < links[k].byte_end,
        facets.len() == links.len(),
        forall|k: int| 0 <= k < facets.len() ==> (#[trigger] facets[k]).mirrors(links[k]),
    ensures
        facets.len() == links.len(),
        forall|k: int| 0 <= k < facets.len() ==> (#[trigger] facets[k]).byte_start
            < facets[k].byte_end,
        forall|k: int| 0 <= k < facets.len() ==> (#[trigger] facets[k]).anchors_in(text),
{
    assert forall|k: int| 0 <= k < facets.len() implies (#[trigger] facets[k]).anchors_in(
        text,
    ) by {
        assert(links[k].sits_in(text));
        let (i, j) = choose|i: int, j: int|
            {
                &&& 0 <= i <= j <= text.len()
                &&& links[k].url@ == text.subrange(i, j)
                &&& links[k].byte_start == encode_utf8(#[trigger] text.subrange(0, i)).len()
                &&& links[k].byte_end == encode_utf8(#[trigger] text.subrange(0, j)).len()
            };
        assert({
            &&& 0 <= i <= j <= text.len()
            &&& facets[k].uri@ == text.subrange(i, j)
            &&& facets[k].byte_start == encode_utf8(text.subrange(0, i)).len()
            &&& facets[k].byte_end == encode_utf8(text.subrange(0, j)).len()
        });
    }
}

} // verus!
