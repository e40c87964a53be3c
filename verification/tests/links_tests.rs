use crosspost::facets::build_bsky_facets;
use crosspost::links::detect_links;
use crosspost::links::first_link;

#[test]
fn finds_one_link_with_exact_byte_range() {
    let text = "check https://example.com/a \u{1F600}";
    let links = detect_links(text);
    assert_eq!(links.len(), 1);
    assert_eq!(links[0].url, "https://example.com/a");
    assert_eq!(links[0].byte_start, 6);
    assert_eq!(links[0].byte_end, 27);
    // The byte range slices the UTF-8 encoding back to the URL substring,
    // emoji elsewhere in the string notwithstanding.
    let bytes = text.as_bytes();
    assert_eq!(&bytes[links[0].byte_start..links[0].byte_end], links[0].url.as_bytes());
}

#[test]
fn range_is_exact_after_multibyte_prefix() {
    let text = "caf\u{00E9} at https://example.org ok";
    let links = detect_links(text);
    assert_eq!(links.len(), 1);
    let bytes = text.as_bytes();
    assert_eq!(
        &bytes[links[0].byte_start..links[0].byte_end],
        links[0].url.as_bytes()
    );
    assert_eq!(links[0].url, "https://example.org");
}

#[test]
fn non_web_schemes_are_dropped() {
    let text = "write mailto:someone@example.com or ftp://example.com/x but see https://example.com/ok";
    let links = detect_links(text);
    assert_eq!(links.len(), 1);
    assert_eq!(links[0].url, "https://example.com/ok");
}

#[test]
fn repeated_urls_each_count() {
    let text = "https://a.example/x and https://a.example/x again";
    let links = detect_links(text);
    assert_eq!(links.len(), 2);
    assert_eq!(links[0].url, links[1].url);
    assert!(links[0].byte_end <= links[1].byte_start);
}

#[test]
fn http_scheme_is_kept_too() {
    let links = detect_links("see http://plain.example/page");
    assert_eq!(links.len(), 1);
    assert_eq!(links[0].url, "http://plain.example/page");
}

#[test]
fn no_links_means_empty_scan() {
    assert_eq!(detect_links("nothing to see here").len(), 0);
    assert!(first_link(&detect_links("still nothing")).is_none());
}

#[test]
fn facets_mirror_links_in_count_and_order() {
    let text = "https://one.example then https://two.example/p";
    let links = detect_links(text);
    let facets = build_bsky_facets(&links).expect("two links give facets");
    assert_eq!(facets.len(), 2);
    for (facet, link) in facets.iter().zip(links.iter()) {
        assert_eq!(facet.byte_start, link.byte_start);
        assert_eq!(facet.byte_end, link.byte_end);
        assert_eq!(facet.uri, link.url);
        assert!(facet.byte_start < facet.byte_end);
    }
}

#[test]
fn facets_absent_without_links() {
    let links = detect_links("plain text only");
    assert!(build_bsky_facets(&links).is_none());
}

#[test]
fn first_link_is_the_earliest() {
    let links = detect_links("https://first.example and https://second.example");
    let first = first_link(&links).expect("nonempty");
    assert_eq!(first.url, "https://first.example");
}
