//! The embed builder: combines the first detected link, its optional page
//! preview and its optional thumbnail into one external-link embed, clamping
//! the texts to the wire format's codepoint limit.

use crate::links::DetectedLink;
use crate::text::clamp_spec;
use crate::text::clamp_text;
use vstd::prelude::*;

verus! {

/// Metadata extracted from the linked page; each field independently
/// optional.
pub struct LinkPreview {
    pub title: Option<String>,
    pub description: Option<String>,
    pub image: Option<String>,
}

/// A content-addressed object the destination host created from the uploaded
/// thumbnail image; its fields are echoed back verbatim into the embed.
pub struct ThumbnailBlob {
    pub mime_type: String,
    pub size: usize,
    pub link: String,
}

/// The external-link card attached to a post: at most one per post, built
/// only from the first detected link.
pub struct ExternalEmbed {
    pub uri: String,
    pub title: String,
    pub description: String,
    pub thumb: Option<ThumbnailBlob>,
}

/// The embed's title and description are clamped to this many codepoints.
pub const EMBED_TEXT_LIMIT: usize = 300;

/// The title before clamping: the preview's when it has one, else the bare
/// URL text.
pub open spec fn chosen_title(preview: Option<LinkPreview>, url: Seq<char>) -> Seq<char> {
    match preview {
        Some(p) => match p.title {
            Some(t) => t@,
            None => url,
        },
        None => url,
    }
}

/// The description before clamping: the preview's when it has one, else the
/// bare URL text.
pub open spec fn chosen_description(preview: Option<LinkPreview>, url: Seq<char>) -> Seq<char> {
    match preview {
        Some(p) => match p.description {
            Some(d) => d@,
            None => url,
        },
        None => url,
    }
}

/// Field-for-field equality of optional thumbnails.
pub open spec fn same_thumb(a: Option<ThumbnailBlob>, b: Option<ThumbnailBlob>) -> bool {
    match (a, b) {
        (Some(x), Some(y)) => x.mime_type@ == y.mime_type@ && x.size == y.size && x.link@
            == y.link@,
        (None, None) => true,
        _ => false,
    }
}

/// Build the external embed for the first detected link, if any: the URI is
/// the link itself; title and description come from the preview, default to
/// the bare URL, and are clamped to the codepoint limit; the thumbnail is
/// carried through untouched.
pub fn build_bsky_external_embed(
    link: Option<&DetectedLink>,
    preview: Option<LinkPreview>,
    thumb: Option<ThumbnailBlob>,
) -> (r: Option<ExternalEmbed>)
    ensures
        r is Some <==> link is Some,
        r matches Some(e) ==> {
            let l = *link.unwrap();
            &&& e.uri@ == l.url@
            &&& e.title@ == clamp_spec(chosen_title(preview, l.url@), EMBED_TEXT_LIMIT as nat)
            &&& e.description@ == clamp_spec(
                chosen_description(preview, l.url@),
                EMBED_TEXT_LIMIT as nat,
            )
            &&& e.title@.len() <= EMBED_TEXT_LIMIT
            &&& e.description@.len() <= EMBED_TEXT_LIMIT
            &&& same_thumb(e.thumb, thumb)
        },
{
    proof {
        if link is Some {
            let url = link.unwrap().url@;
            crate::text::lemma_clamp_len(chosen_title(preview, url), EMBED_TEXT_LIMIT as nat);
            crate::text::lemma_clamp_len(chosen_description(preview, url), EMBED_TEXT_LIMIT as nat);
        }
    }
    let l = match link {
        Some(l) => l,
        None => {
            return None;
        },
    };
    let mut title = l.url.clone();
    let mut description = l.url.clone();
    if let Some(p) = preview {
        if let Some(t) = p.title {
            title = t;
        }
        if let Some(d) = p.description {
            description = d;
        }
    }
    Some(
        ExternalEmbed {
            uri: l.url.clone(),
            title: clamp_text(title, EMBED_TEXT_LIMIT),
            description: clamp_text(description, EMBED_TEXT_LIMIT),
            thumb,
        },
    )
}

/// The embed is absent exactly when the scanner found no links: the builder
/// is handed the scan's first link, which exists exactly when the scan is
/// nonempty, and it yields an embed exactly when that link exists.
pub proof fn lemma_embed_none_iff_no_links(
    links: Seq<DetectedLink>,
    first: Option<DetectedLink>,
    embed: Option<ExternalEmbed>,
)
    requires
        first is Some <==> links.len() > 0,
        embed is Some <==> first is Some,
    ensures
        embed is None <==> links.len() == 0,
{
}

/// Losing the thumbnail loses nothing else: two embeds built from the same
/// link and preview, one with a thumbnail and one without, share their URI,
/// title and description.
pub proof fn lemma_embed_survives_thumbnail(
    l: DetectedLink,
    preview: Option<LinkPreview>,
    with_thumb: ExternalEmbed,
    without_thumb: ExternalEmbed,
)
    requires
        with_thumb.uri@ == l.url@,
        with_thumb.title@ == clamp_spec(chosen_title(preview, l.url@), EMBED_TEXT_LIMIT as nat),
        with_thumb.description@ == clamp_spec(
            chosen_description(preview, l.url@),
            EMBED_TEXT_LIMIT as nat,
        ),
        without_thumb.uri@ == l.url@,
        without_thumb.title@ == clamp_spec(chosen_title(preview, l.url@), EMBED_TEXT_LIMIT as nat),
        without_thumb.description@ == clamp_spec(
            chosen_description(preview, l.url@),
            EMBED_TEXT_LIMIT as nat,
        ),
        without_thumb.thumb is None,
    ensures
        with_thumb.uri@ == without_thumb.uri@,
        with_thumb.title@ == without_thumb.title@,
        with_thumb.description@ == without_thumb.description@,
{
}

} // verus!
