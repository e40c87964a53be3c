//! The preview fetcher's parsing half: scan the fetched page's `meta` tags
//! under a strict first-match-wins priority, fall back to the `title`
//! element, and decide from the response's status and content-type whether
//! any of it applies.

use crate::ascii::str_eq;
use crate::embed::LinkPreview;
use crate::http::content_type_is_html;
use crate::http::declares_html;
use crate::http::status_is_success;
use crate::http::status_success;
use crate::text::chars_vec;
use crate::text::normalize_spec;
use crate::text::normalize_text;
use crate::text::opt_view;
use crate::text::string_from_chars;
use crate::text::trim_chars;
use crate::text::trim_spec;
use vstd::prelude::*;

verus! {

/// Only this many leading bytes of the fetched page are inspected: metadata
/// tags are expected early in the document's head.
pub const PREVIEW_MAX_BYTES: usize = 65536;

/// The attributes of one `meta` element, as the scan reads them.
pub struct MetaTag {
    pub property: Option<String>,
    pub name: Option<String>,
    pub content: Option<String>,
}

/// A `meta` element's attributes as plain values: property, name, content.
pub type TagFields = (Option<Seq<char>>, Option<Seq<char>>, Option<Seq<char>>);

/// The three preview fields as the scan fills them: title, description,
/// image URL.
pub type PreviewFields = (Option<Seq<char>>, Option<Seq<char>>, Option<Seq<char>>);

pub open spec fn tag_view(t: MetaTag) -> TagFields {
    (opt_view(t.property), opt_view(t.name), opt_view(t.content))
}

pub open spec fn tag_views(s: Seq<MetaTag>) -> Seq<TagFields> {
    s.map_values(|t: MetaTag| tag_view(t))
}

/// What parsing `body` as HTML yields for the metadata scan: the
/// `property`, `name` and `content` attributes of each `meta` element, in
/// document order.
pub uninterp spec fn meta_tags_of(body: Seq<char>) -> Seq<TagFields>;

/// The concatenated text of the document's first `title` element, absent
/// when `body` parses to a document without one.
pub uninterp spec fn title_text_of(body: Seq<char>) -> Option<Seq<char>>;

/// What HTML-entity-decoding yields for a text.
pub uninterp spec fn decoded_entities(s: Seq<char>) -> Seq<char>;

/// What decoding bytes as UTF-8 with replacement yields.
pub uninterp spec fn utf8_lossy_of(bytes: Seq<u8>) -> Seq<char>;

/// Relies on `scraper::Html::parse_document` with the `meta` selector: the
/// listed attributes of the document's `meta` elements, in document order —
/// a function of the body text alone.
#[verifier::external_body]
fn scan_meta_tags(body: &str) -> (r: Vec<MetaTag>)
    ensures
        tag_views(r@) == meta_tags_of(body@),
{
    let document = scraper::Html::parse_document(body);
    let selector = match scraper::Selector::parse("meta") {
        Ok(s) => s,
        Err(_) => return Vec::new(),
    };
    document
        .select(&selector)
        .map(
            |el| MetaTag {
                property: el.value().attr("property").map(|a| a.to_string()),
                name: el.value().attr("name").map(|a| a.to_string()),
                content: el.value().attr("content").map(|a| a.to_string()),
            },
        )
        .collect()
}

/// Relies on `scraper::Html::parse_document` with the `title` selector: the
/// concatenated text of the first `title` element — a function of the body
/// text alone.
#[verifier::external_body]
fn first_title_text(body: &str) -> (r: Option<String>)
    ensures
        opt_view(r) == title_text_of(body@),
{
    let document = scraper::Html::parse_document(body);
    let selector = scraper::Selector::parse("title").ok()?;
    let element = document.select(&selector).next()?;
    Some(element.text().collect::<String>())
}

/// Relies on `html_escape::decode_html_entities`: HTML character references
/// replaced by the characters they name — a function of the input alone.
#[verifier::external_body]
fn decode_entities(s: &str) -> (r: String)
    ensures
        r@ == decoded_entities(s@),
{
    html_escape::decode_html_entities(s).to_string()
}

/// Relies on `String::from_utf8_lossy`: the bytes decoded as UTF-8, invalid
/// sequences replaced by U+FFFD — a function of the bytes alone.
#[verifier::external_body]
fn utf8_lossy(bytes: &Vec<u8>) -> (r: String)
    ensures
        r@ == utf8_lossy_of(bytes@),
{
    String::from_utf8_lossy(bytes).to_string()
}

/// The text a tag contributes to title or description: its decoded content,
/// whitespace-normalized, absent when nothing remains.
pub open spec fn normalized_or_absent(decoded: Seq<char>) -> Option<Seq<char>> {
    if normalize_spec(decoded).len() == 0 {
        None
    } else {
        Some(normalize_spec(decoded))
    }
}

/// The `property` attribute's contribution: Open Graph tags, each filling
/// only a still-missing field.
pub open spec fn apply_property(
    acc: PreviewFields,
    prop: Option<Seq<char>>,
    text_value: Option<Seq<char>>,
    decoded: Seq<char>,
) -> PreviewFields {
    match prop {
        None => acc,
        Some(p) => {
            if p == "og:title"@ {
                if acc.0 is None {
                    (text_value, acc.1, acc.2)
                } else {
                    acc
                }
            } else if p == "og:description"@ {
                if acc.1 is None {
                    (acc.0, text_value, acc.2)
                } else {
                    acc
                }
            } else if p == "og:image"@ || p == "og:image:url"@ || p == "og:image:secure_url"@ {
                if acc.2 is None {
                    (acc.0, acc.1, Some(decoded))
                } else {
                    acc
                }
            } else {
                acc
            }
        },
    }
}

/// The `name` attribute's contribution: Twitter-card and plain tags, each
/// filling only a still-missing field.
pub open spec fn apply_name(
    acc: PreviewFields,
    name: Option<Seq<char>>,
    text_value: Option<Seq<char>>,
    decoded: Seq<char>,
) -> PreviewFields {
    match name {
        None => acc,
        Some(n) => {
            if n == "twitter:title"@ || n == "title"@ {
                if acc.0 is None {
                    (text_value, acc.1, acc.2)
                } else {
                    acc
                }
            } else if n == "twitter:description"@ || n == "description"@ {
                if acc.1 is None {
                    (acc.0, text_value, acc.2)
                } else {
                    acc
                }
            } else if n == "twitter:image"@ || n == "twitter:image:src"@ {
                if acc.2 is None {
                    (acc.0, acc.1, Some(decoded))
                } else {
                    acc
                }
            } else {
                acc
            }
        },
    }
}

/// What one `meta` tag does to the scan state: a tag without content, or
/// with only whitespace there, changes nothing; otherwise its trimmed,
/// entity-decoded content is offered to the `property` rules and then to
/// the `name` rules.
pub open spec fn tag_step(acc: PreviewFields, t: TagFields) -> PreviewFields {
    match t.2 {
        None => acc,
        Some(c0) => {
            let c = trim_spec(c0);
            if c.len() == 0 {
                acc
            } else {
                let decoded = decoded_entities(c);
                let text_value = normalized_or_absent(decoded);
                apply_name(apply_property(acc, t.0, text_value, decoded), t.1, text_value, decoded)
            }
        },
    }
}

/// The scan state after every tag has been offered, first tag first.
pub open spec fn scan_fold(tags: Seq<TagFields>, acc: PreviewFields) -> PreviewFields
    decreases tags.len(),
{
    if tags.len() == 0 {
        acc
    } else {
        scan_fold(tags.drop_first(), tag_step(acc, tags.first()))
    }
}

/// Once every field is filled, further tags change nothing: the scan may
/// stop early.
proof fn lemma_scan_fold_saturated(tags: Seq<TagFields>, acc: PreviewFields)
    requires
        acc.0 is Some,
        acc.1 is Some,
        acc.2 is Some,
    ensures
        scan_fold(tags, acc) == acc,
    decreases tags.len(),
{
    if tags.len() > 0 {
        assert(tag_step(acc, tags.first()) == acc);
        lemma_scan_fold_saturated(tags.drop_first(), acc);
    }
}

/// The fallback title: the `title` element's text, trimmed, entity-decoded
/// and normalized, absent when nothing remains.
pub open spec fn fallback_title(body: Seq<char>) -> Option<Seq<char>> {
    match title_text_of(body) {
        Some(t) => normalized_or_absent(decoded_entities(trim_spec(t))),
        None => None,
    }
}

/// The preview `body` yields: the meta scan under first-match-wins
/// priority, the `title` element as title fallback, and nothing at all
/// when every field ends absent.
pub open spec fn preview_of_body(body: Seq<char>) -> Option<PreviewFields> {
    let scanned = scan_fold(meta_tags_of(body), (None, None, None));
    let fields = if scanned.0 is None {
        (fallback_title(body), scanned.1, scanned.2)
    } else {
        scanned
    };
    if fields.0 is None && fields.1 is None && fields.2 is None {
        None
    } else {
        Some(fields)
    }
}

fn clone_opt(o: &Option<String>) -> (r: Option<String>)
    ensures
        opt_view(r) == opt_view(*o),
{
    match o {
        Some(s) => Some(s.clone()),
        None => None,
    }
}

/// Offer one `meta` tag to the scan state, as `tag_step` describes.
fn apply_tag(
    t: &MetaTag,
    title: &mut Option<String>,
    description: &mut Option<String>,
    image: &mut Option<String>,
)
    ensures
        (opt_view(*final(title)), opt_view(*final(description)), opt_view(*final(image)))
            == tag_step(
            (opt_view(*old(title)), opt_view(*old(description)), opt_view(*old(image))),
            tag_view(*t),
        ),
{
    let content = match &t.content {
        Some(c) => c,
        None => {
            return ;
        },
    };
    let cs = chars_vec(content.as_str());
    let trimmed = trim_chars(&cs);
    if trimmed.len() == 0 {
        return ;
    }
    let trimmed_str = string_from_chars(&trimmed);
    let decoded = decode_entities(trimmed_str.as_str());
    let text_value = normalize_text(decoded.as_str());
    let ghost acc_in = (opt_view(*title), opt_view(*description), opt_view(*image));
    proof {
        assert(opt_view(text_value) == normalized_or_absent(decoded@));
    }
    if let Some(p) = &t.property {
        if str_eq(p.as_str(), "og:title") {
            if title.is_none() {
                *title = clone_opt(&text_value);
            }
        } else if str_eq(p.as_str(), "og:description") {
            if description.is_none() {
                *description = clone_opt(&text_value);
            }
        } else if str_eq(p.as_str(), "og:image") || str_eq(p.as_str(), "og:image:url") || str_eq(
            p.as_str(),
            "og:image:secure_url",
        ) {
            if image.is_none() {
                *image = Some(decoded.clone());
            }
        }
    }
    let ghost acc_mid = (opt_view(*title), opt_view(*description), opt_view(*image));
    proof {
        assert(acc_mid == apply_property(
            acc_in,
            opt_view(t.property),
            opt_view(text_value),
            decoded@,
        ));
    }
    if let Some(nm) = &t.name {
        if str_eq(nm.as_str(), "twitter:title") || str_eq(nm.as_str(), "title") {
            if title.is_none() {
                *title = clone_opt(&text_value);
            }
        } else if str_eq(nm.as_str(), "twitter:description") || str_eq(
            nm.as_str(),
            "description",
        ) {
            if description.is_none() {
                *description = clone_opt(&text_value);
            }
        } else if str_eq(nm.as_str(), "twitter:image") || str_eq(nm.as_str(), "twitter:image:src") {
            if image.is_none() {
                *image = Some(decoded.clone());
            }
        }
    }
    proof {
        assert((opt_view(*title), opt_view(*description), opt_view(*image)) == apply_name(
            acc_mid,
            opt_view(t.name),
            opt_view(text_value),
            decoded@,
        ));
    }
}

/// Parse the page text and extract its preview metadata under the
/// first-match-wins priority; absent exactly when title, description and
/// image all end absent.
#[verifier::loop_isolation(false)]
pub fn extract_preview(body: &str) -> (r: Option<LinkPreview>)
    ensures
        r is Some <==> preview_of_body(body@) is Some,
        r matches Some(p) ==> preview_of_body(body@) matches Some(v) && opt_view(p.title) == v.0
            && opt_view(p.description) == v.1 && opt_view(p.image) == v.2,
{
    let tags = scan_meta_tags(body);
    let ghost all = meta_tags_of(body@);
    let n = tags.len();
    let mut title: Option<String> = None;
    let mut description: Option<String> = None;
    let mut image: Option<String> = None;
    let mut i: usize = 0;
    proof {
        assert(all.skip(0) =~= all);
    }
    while i < n && !(title.is_some() && description.is_some() && image.is_some())
        invariant
            i <= n,
            scan_fold(all, (None, None, None)) == scan_fold(
                all.skip(i as int),
                (opt_view(title), opt_view(description), opt_view(image)),
            ),
        decreases n - i,
    {
        let ghost acc_before = (opt_view(title), opt_view(description), opt_view(image));
        apply_tag(&tags[i], &mut title, &mut description, &mut image);
        proof {
            assert(all.skip(i as int).first() == tag_view(tags@[i as int]));
            assert(all.skip(i as int).drop_first() =~= all.skip(i + 1 as int));
        }
        i += 1;
    }
    proof {
        if i == n {
            assert(all.skip(n as int) =~= Seq::<TagFields>::empty());
        } else {
            lemma_scan_fold_saturated(
                all.skip(i as int),
                (opt_view(title), opt_view(description), opt_view(image)),
            );
        }
        assert(scan_fold(all, (None, None, None)) == (
            opt_view(title),
            opt_view(description),
            opt_view(image),
        ));
    }
    if title.is_none() {
        if let Some(t) = first_title_text(body) {
            let cs = chars_vec(t.as_str());
            let trimmed = trim_chars(&cs);
            let trimmed_str = string_from_chars(&trimmed);
            let decoded = decode_entities(trimmed_str.as_str());
            if let Some(normalized) = normalize_text(decoded.as_str()) {
                title = Some(normalized);
            }
        }
    }
    if title.is_none() && description.is_none() && image.is_none() {
        None
    } else {
        Some(LinkPreview { title, description, image })
    }
}

/// The leading bytes of the response body that are inspected.
pub open spec fn body_prefix(b: Seq<u8>) -> Seq<u8> {
    if b.len() <= PREVIEW_MAX_BYTES {
        b
    } else {
        b.subrange(0, PREVIEW_MAX_BYTES as int)
    }
}

/// The preview a whole response yields: nothing unless the status is a
/// success and the content-type, when it is present, declares HTML;
/// otherwise whatever the inspected body prefix yields.
pub open spec fn preview_of_response(status: u16, ct: Option<String>, b: Seq<u8>) -> Option<
    PreviewFields,
> {
    if !status_success(status) {
        None
    } else if match ct {
        Some(c) => !declares_html(c@),
        None => false,
    } {
        None
    } else {
        preview_of_body(utf8_lossy_of(body_prefix(b)))
    }
}

/// Judge a fetched page and extract its preview. A failed status or a
/// non-HTML content-type yields nothing, whatever the body holds; a missing
/// or unreadable content-type header is not held against the page. Never an
/// error: an absent preview only makes the embed plainer.
#[verifier::loop_isolation(false)]
pub fn preview_from_response(status: u16, content_type: Option<String>, body: &Vec<u8>) -> (r:
    Option<LinkPreview>)
    ensures
        r is Some <==> preview_of_response(status, content_type, body@) is Some,
        r matches Some(p) ==> preview_of_response(status, content_type, body@) matches Some(v)
            && opt_view(p.title) == v.0 && opt_view(p.description) == v.1 && opt_view(p.image)
            == v.2,
{
    if !status_is_success(status) {
        return None;
    }
    if let Some(ct) = &content_type {
        if !content_type_is_html(ct.as_str()) {
            return None;
        }
    }
    let limit = if body.len() < PREVIEW_MAX_BYTES {
        body.len()
    } else {
        PREVIEW_MAX_BYTES
    };
    let mut prefix: Vec<u8> = Vec::new();
    let mut i: usize = 0;
    while i < limit
        invariant
            i <= limit,
            limit <= body@.len(),
            prefix@ == body@.subrange(0, i as int),
        decreases limit - i,
    {
        prefix.push(body[i]);
        proof {
            assert(prefix@ =~= body@.subrange(0, i + 1 as int));
        }
        i += 1;
    }
    proof {
        assert(prefix@ =~= body_prefix(body@));
    }
    let text = utf8_lossy(&prefix);
    extract_preview(text.as_str())
}

/// A response whose content-type header does not declare HTML yields no
/// preview, whatever its body holds.
pub proof fn lemma_non_html_yields_no_preview(status: u16, ct: String, body: Seq<u8>)
    requires
        !declares_html(ct@),
    ensures
        preview_of_response(status, Some(ct), body) is None,
{
}

/// In particular, a response whose content-type is `application/json`
/// yields no preview, regardless of body content.
pub proof fn lemma_json_response_yields_no_preview(status: u16, ct: String, body: Seq<u8>)
    requires
        ct@ == "application/json"@,
    ensures
        preview_of_response(status, Some(ct), body) is None,
{
    crate::http::lemma_json_is_not_html();
}

} // verus!
