use ao3_api_rs::pagination::{discover, discover_from_links, PageLink};

fn paginated_doc() -> String {
    let mut doc = String::from("<html><body><h2>Works</h2>");
    doc.push_str(r#"<ol class="pagination actions">"#);
    doc.push_str(r#"<li><a href="/works?page=2">2</a></li>"#);
    doc.push_str(r#"<li><a href="/works?page=3">3</a></li>"#);
    doc.push_str(r#"<li><a href="/works?page=5">5</a></li>"#);
    doc.push_str(r#"<li title="next"><a href="/works?page=2">Next</a></li>"#);
    doc.push_str("</ol></body></html>");
    doc
}

#[test]
fn discover_builds_one_url_per_remaining_page_in_order() {
    let plan = discover(&paginated_doc());
    assert_eq!(
        plan,
        vec![
            "https://archiveofourown.org/works?page=2".to_string(),
            "https://archiveofourown.org/works?page=3".to_string(),
            "https://archiveofourown.org/works?page=4".to_string(),
            "https://archiveofourown.org/works?page=5".to_string(),
        ]
    );
    // The last non-"next" link points at page 5, so the plan holds exactly
    // N - 1 = 4 additional URLs.
    assert_eq!(plan.len(), 4);
}

#[test]
fn discover_excludes_the_next_link_and_takes_the_last_candidate() {
    // The "next" link points at page 2; were it not excluded, it would be
    // the last candidate and the plan would stop at page 2.
    let plan = discover(&paginated_doc());
    assert_eq!(plan.last().unwrap().as_str(), "https://archiveofourown.org/works?page=5");
}

#[test]
fn discover_is_idempotent_on_the_same_document() {
    let doc = paginated_doc();
    let first = discover(&doc);
    let second = discover(&doc);
    assert_eq!(first, second);
}

#[test]
fn document_without_nav_element_yields_empty_plan() {
    let doc = "<html><body><h2>Works</h2><p>single page</p></body></html>";
    let plan = discover(doc);
    assert!(plan.is_empty());
}

#[test]
fn template_without_digit_suffix_degrades_to_single_page() {
    let doc = r#"<html><ol class="pagination actions"><li><a href="/works?page=last">end</a></li></ol></html>"#;
    assert!(discover(doc).is_empty());
}

#[test]
fn final_page_one_needs_no_further_fetches() {
    let doc = r#"<html><ol class="pagination actions"><li><a href="/works?page=1">1</a></li></ol></html>"#;
    assert!(discover(doc).is_empty());
}

#[test]
fn absolute_template_urls_are_kept_absolute() {
    let doc = r#"<html><ol class="pagination actions"><li><a href="https://archiveofourown.org/works?page=3">3</a></li></ol></html>"#;
    let plan = discover(doc);
    assert_eq!(
        plan,
        vec![
            "https://archiveofourown.org/works?page=2".to_string(),
            "https://archiveofourown.org/works?page=3".to_string(),
        ]
    );
}

#[test]
fn links_without_href_are_not_candidates() {
    let links = vec![
        PageLink {
            href: Some("/works?page=4".to_string()),
            title: None,
        },
        PageLink {
            href: None,
            title: None,
        },
    ];
    let plan = discover_from_links(&links);
    assert_eq!(plan.len(), 3);
    assert_eq!(plan[0], "https://archiveofourown.org/works?page=2");
    assert_eq!(plan[2], "https://archiveofourown.org/works?page=4");
}

#[test]
fn next_titled_parent_is_excluded_from_candidates() {
    let links = vec![
        PageLink {
            href: Some("/works?page=7".to_string()),
            title: Some("previous".to_string()),
        },
        PageLink {
            href: Some("/works?page=2".to_string()),
            title: Some("next".to_string()),
        },
    ];
    let plan = discover_from_links(&links);
    assert_eq!(plan.len(), 6);
    assert_eq!(plan[5], "https://archiveofourown.org/works?page=7");
}
