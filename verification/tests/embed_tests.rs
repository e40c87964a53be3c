use crosspost::embed::build_bsky_external_embed;
use crosspost::embed::LinkPreview;
use crosspost::embed::ThumbnailBlob;
use crosspost::links::detect_links;
use crosspost::links::first_link;

fn sample_preview(title: Option<&str>, description: Option<&str>) -> LinkPreview {
    LinkPreview {
        title: title.map(str::to_string),
        description: description.map(str::to_string),
        image: None,
    }
}

#[test]
fn no_link_no_embed() {
    let links = detect_links("plain words only");
    let embed = build_bsky_external_embed(first_link(&links), None, None);
    assert!(embed.is_none());
}

#[test]
fn link_always_gives_embed() {
    let links = detect_links("see https://example.com/x");
    let embed = build_bsky_external_embed(first_link(&links), None, None);
    assert!(embed.is_some());
}

#[test]
fn fields_default_to_the_bare_url() {
    let links = detect_links("see https://example.com/x");
    let embed = build_bsky_external_embed(first_link(&links), None, None).expect("embed");
    assert_eq!(embed.uri, "https://example.com/x");
    assert_eq!(embed.title, "https://example.com/x");
    assert_eq!(embed.description, "https://example.com/x");
    assert!(embed.thumb.is_none());
}

#[test]
fn preview_overrides_only_what_it_has() {
    let links = detect_links("see https://example.com/x");
    let preview = sample_preview(Some("Hi"), None);
    let embed = build_bsky_external_embed(first_link(&links), Some(preview), None).expect("embed");
    assert_eq!(embed.title, "Hi");
    // The description the preview lacked defaults to the raw link URL.
    assert_eq!(embed.description, "https://example.com/x");
}

#[test]
fn long_preview_texts_are_clamped() {
    let links = detect_links("see https://example.com/x");
    let long = "t".repeat(305);
    let preview = sample_preview(Some(&long), Some(&long));
    let embed = build_bsky_external_embed(first_link(&links), Some(preview), None).expect("embed");
    assert_eq!(embed.title.chars().count(), 300);
    assert_eq!(embed.description.chars().count(), 300);
    assert_eq!(embed.title, format!("{}\u{2026}", "t".repeat(299)));
}

#[test]
fn thumbnail_fields_pass_through_verbatim() {
    let links = detect_links("see https://example.com/x");
    let thumb = ThumbnailBlob {
        mime_type: "image/png".to_string(),
        size: 12345,
        link: "bafyexamplecid".to_string(),
    };
    let embed =
        build_bsky_external_embed(first_link(&links), None, Some(thumb)).expect("embed");
    let thumb = embed.thumb.expect("thumbnail kept");
    assert_eq!(thumb.mime_type, "image/png");
    assert_eq!(thumb.size, 12345);
    assert_eq!(thumb.link, "bafyexamplecid");
}

#[test]
fn embed_is_whole_without_a_thumbnail() {
    // A refused thumbnail leaves the rest of the embed intact.
    let links = detect_links("see https://example.com/x");
    let preview = sample_preview(Some("Hi"), Some("There"));
    let embed = build_bsky_external_embed(first_link(&links), Some(preview), None).expect("embed");
    assert_eq!(embed.title, "Hi");
    assert_eq!(embed.description, "There");
    assert!(embed.thumb.is_none());
}
