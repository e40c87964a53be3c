use crosspost::preview::extract_preview;
use crosspost::preview::preview_from_response;

fn page(head: &str) -> String {
    format!("<html><head>{}</head><body><p>hi</p></body></html>", head)
}

#[test]
fn og_title_alone_gives_title_only() {
    let body = page("<meta property=\"og:title\" content=\"Hi\">");
    let preview = extract_preview(&body).expect("one field set");
    assert_eq!(preview.title, Some("Hi".to_string()));
    assert_eq!(preview.description, None);
    assert_eq!(preview.image, None);
}

#[test]
fn all_three_fields_extracted() {
    let body = page(
        "<meta property=\"og:title\" content=\"A Title\">\
         <meta property=\"og:description\" content=\"Some words\">\
         <meta property=\"og:image\" content=\"https://img.example/x.png\">",
    );
    let preview = extract_preview(&body).expect("fields set");
    assert_eq!(preview.title, Some("A Title".to_string()));
    assert_eq!(preview.description, Some("Some words".to_string()));
    assert_eq!(preview.image, Some("https://img.example/x.png".to_string()));
}

#[test]
fn first_match_wins_per_field() {
    let body = page(
        "<meta property=\"og:title\" content=\"First\">\
         <meta name=\"twitter:title\" content=\"Second\">",
    );
    let preview = extract_preview(&body).expect("title set");
    assert_eq!(preview.title, Some("First".to_string()));
}

#[test]
fn twitter_tags_fill_missing_fields() {
    let body = page(
        "<meta name=\"twitter:title\" content=\"T\">\
         <meta name=\"twitter:description\" content=\"D\">\
         <meta name=\"twitter:image\" content=\"/rel.png\">",
    );
    let preview = extract_preview(&body).expect("fields set");
    assert_eq!(preview.title, Some("T".to_string()));
    assert_eq!(preview.description, Some("D".to_string()));
    assert_eq!(preview.image, Some("/rel.png".to_string()));
}

#[test]
fn entities_are_decoded_and_whitespace_normalized() {
    let body = page("<meta property=\"og:title\" content=\"Tom &amp; Jerry&#x21;   really\">");
    let preview = extract_preview(&body).expect("title set");
    assert_eq!(preview.title, Some("Tom & Jerry! really".to_string()));
}

#[test]
fn whitespace_only_content_is_skipped() {
    let body = page(
        "<meta property=\"og:title\" content=\"   \">\
         <meta name=\"title\" content=\"Kept\">",
    );
    let preview = extract_preview(&body).expect("title set");
    assert_eq!(preview.title, Some("Kept".to_string()));
}

#[test]
fn title_element_is_the_fallback() {
    let body = page("<title>  My   Page </title>");
    let preview = extract_preview(&body).expect("title from element");
    assert_eq!(preview.title, Some("My Page".to_string()));
    assert_eq!(preview.description, None);
}

#[test]
fn meta_title_beats_title_element() {
    let body = page("<title>Elem</title><meta property=\"og:title\" content=\"Meta\">");
    let preview = extract_preview(&body).expect("title set");
    assert_eq!(preview.title, Some("Meta".to_string()));
}

#[test]
fn page_without_metadata_gives_nothing() {
    let body = page("<link rel=\"stylesheet\" href=\"x.css\">");
    assert!(extract_preview(&body).is_none());
}

#[test]
fn json_content_type_yields_none_whatever_the_body() {
    let body = page("<meta property=\"og:title\" content=\"Hi\">").into_bytes();
    let r = preview_from_response(200, Some("application/json".to_string()), &body);
    assert!(r.is_none());
}

#[test]
fn failed_status_yields_none() {
    let body = page("<meta property=\"og:title\" content=\"Hi\">").into_bytes();
    assert!(preview_from_response(404, Some("text/html".to_string()), &body).is_none());
    assert!(preview_from_response(500, Some("text/html".to_string()), &body).is_none());
}

#[test]
fn missing_content_type_still_parses() {
    let body = page("<meta property=\"og:title\" content=\"Hi\">").into_bytes();
    let preview = preview_from_response(200, None, &body).expect("parsed");
    assert_eq!(preview.title, Some("Hi".to_string()));
}

#[test]
fn content_type_match_ignores_case_and_parameters() {
    let body = page("<meta property=\"og:title\" content=\"Hi\">").into_bytes();
    let ct = Some("Text/HTML; charset=utf-8".to_string());
    let preview = preview_from_response(200, ct, &body).expect("parsed");
    assert_eq!(preview.title, Some("Hi".to_string()));
}

#[test]
fn only_the_leading_bytes_are_inspected() {
    // Metadata past the 64 KiB prefix is never seen.
    let mut body = String::with_capacity(70_000);
    body.push_str("<html><head>");
    body.push_str(&"<!-- padding -->".repeat(66_000 / 16));
    body.push_str("<meta property=\"og:title\" content=\"Late\"></head><body></body></html>");
    assert!(preview_from_response(200, Some("text/html".to_string()), &body.into_bytes()).is_none());
}
