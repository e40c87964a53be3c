use crosspost::thumb::accept_thumbnail;
use crosspost::thumb::resolve_url;

#[test]
fn accepts_a_small_image() {
    let r = accept_thumbnail(200, Some("image/png".to_string()), 1_000);
    assert_eq!(r, Some("image/png".to_string()));
}

#[test]
fn mime_check_ignores_case_but_keeps_the_original() {
    let r = accept_thumbnail(200, Some("IMAGE/JPEG".to_string()), 1_000);
    assert_eq!(r, Some("IMAGE/JPEG".to_string()));
}

#[test]
fn non_image_content_type_is_refused() {
    assert_eq!(accept_thumbnail(200, Some("text/plain".to_string()), 1_000), None);
    assert_eq!(accept_thumbnail(200, Some("application/pdf".to_string()), 1_000), None);
}

#[test]
fn missing_content_type_is_refused() {
    // No header means application/octet-stream, which declares no image.
    assert_eq!(accept_thumbnail(200, None, 1_000), None);
}

#[test]
fn oversized_body_is_refused() {
    assert_eq!(accept_thumbnail(200, Some("image/png".to_string()), 1_500_001), None);
    // The ceiling itself is still fine.
    assert!(accept_thumbnail(200, Some("image/png".to_string()), 1_500_000).is_some());
}

#[test]
fn failed_status_is_refused() {
    assert_eq!(accept_thumbnail(404, Some("image/png".to_string()), 1_000), None);
}

#[test]
fn absolute_candidate_is_used_as_is() {
    let r = resolve_url("https://page.example/article", "https://cdn.example/pic.png");
    assert_eq!(r, Some("https://cdn.example/pic.png".to_string()));
}

#[test]
fn relative_candidate_joins_the_page_url() {
    let r = resolve_url("https://page.example/articles/one", "/img/pic.png");
    assert_eq!(r, Some("https://page.example/img/pic.png".to_string()));
}

#[test]
fn unusable_base_and_candidate_resolve_to_nothing() {
    assert_eq!(resolve_url("not a url", "also not"), None);
}
