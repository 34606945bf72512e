use crawler::links::{collect_links, extract_links, link_selector_for, link_selector_is_valid, LinkError};
use crawler::resolve::{resolution_or_raw, resolve_url, FragmentPolicy};

#[test]
fn fragment_kept_inline() {
    let r = resolve_url("https://x.com/p", "#section", FragmentPolicy::Keep);
    assert_eq!(r, "https://x.com/p#section");
}

#[test]
fn fragment_stripped() {
    let r = resolve_url("https://x.com/p", "#section", FragmentPolicy::Strip);
    assert_eq!(r, "https://x.com/p");
}

#[test]
fn relative_link_is_joined() {
    assert_eq!(resolve_url("https://x.com/p/q", "/a", FragmentPolicy::Keep), "https://x.com/a");
    assert_eq!(resolve_url("https://x.com/p/q", "r", FragmentPolicy::Keep), "https://x.com/p/r");
    assert_eq!(
        resolve_url("https://x.com/p", "https://other.com/z#f", FragmentPolicy::Strip),
        "https://other.com/z"
    );
}

#[test]
fn unparsable_base_falls_back_to_raw_link() {
    assert_eq!(resolve_url("not a url", "/a", FragmentPolicy::Keep), "/a");
    assert_eq!(resolve_url("", "page.html#x", FragmentPolicy::Strip), "page.html#x");
}

#[test]
fn failed_join_falls_back_to_raw_link() {
    assert_eq!(resolve_url("https://x.com/", "http://[::1", FragmentPolicy::Keep), "http://[::1");
}

#[test]
fn resolution_is_deterministic() {
    for policy in [FragmentPolicy::Keep, FragmentPolicy::Strip] {
        let a = resolve_url("https://x.com/dir/page", "../up?q=1#top", policy);
        let b = resolve_url("https://x.com/dir/page", "../up?q=1#top", policy);
        assert_eq!(a, b);
    }
}

#[test]
fn resolution_or_raw_picks_join_when_present() {
    assert_eq!(resolution_or_raw(Some("https://x.com/a".to_string()), "/a"), "https://x.com/a");
    assert_eq!(resolution_or_raw(None, "/a"), "/a");
}

#[test]
fn selector_text() {
    assert_eq!(link_selector_for(&None), "a[href]");
    assert_eq!(link_selector_for(&Some("facet_link".to_string())), "a[href]:not(.facet_link)");
    assert!(link_selector_is_valid(&Some("facet_link".to_string())));
    assert!(!link_selector_is_valid(&Some("".to_string())));
}

#[test]
fn excluded_anchor_never_extracted() {
    let body = "<html><body>\
        <a href=\"/a\">A</a>\
        <a class=\"facet_link\" href=\"/b\">B</a>\
        <a class=\"x facet_link\" href=\"https://x.com/c\">C</a>\
        <a name=\"no-target\">D</a>\
        <a href=\"/a\">A again</a>\
        <a href=\"#top\">top</a>\
        </body></html>";
    let links = extract_links(
        "https://x.com/p",
        body,
        &Some("facet_link".to_string()),
        FragmentPolicy::Keep,
    )
    .unwrap();
    assert_eq!(links, vec!["https://x.com/a".to_string(), "https://x.com/p#top".to_string()]);
}

#[test]
fn without_exclusion_every_target_is_extracted() {
    let body = "<a href=\"/a\">A</a><a class=\"facet_link\" href=\"/b\">B</a>";
    let links = extract_links("https://x.com/p", body, &None, FragmentPolicy::Keep).unwrap();
    assert_eq!(links, vec!["https://x.com/a".to_string(), "https://x.com/b".to_string()]);
}

#[test]
fn stripped_fragments_merge_links() {
    let body = "<a href=\"#one\">1</a><a href=\"#two\">2</a>";
    let links = extract_links("https://x.com/p", body, &None, FragmentPolicy::Strip).unwrap();
    assert_eq!(links, vec!["https://x.com/p".to_string()]);
}

#[test]
fn invalid_exclusion_class_is_an_error() {
    let r = extract_links("https://x.com/p", "<a href=\"/a\">A</a>", &Some("".to_string()), FragmentPolicy::Keep);
    assert_eq!(r, Err(LinkError::InvalidSelector));
}

#[test]
fn collect_skips_missing_targets_and_repeats() {
    let targets = vec![
        Some("/a".to_string()),
        None,
        Some("https://x.com/a".to_string()),
        Some("b".to_string()),
    ];
    let links = collect_links("https://x.com/p", &targets, FragmentPolicy::Keep);
    assert_eq!(links, vec!["https://x.com/a".to_string(), "https://x.com/b".to_string()]);
}

#[test]
fn excluded_anchor_with_single_quotes() {
    let body = "<a class='facet_link' href='/f'>f</a><a href='/g'>g</a>";
    let links = extract_links(
        "https://x.com/",
        body,
        &Some("facet_link".to_string()),
        FragmentPolicy::Keep,
    )
    .unwrap();
    assert_eq!(links, vec!["https://x.com/g".to_string()]);
}
