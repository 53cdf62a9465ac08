use ao3_api_rs::aggregate::{assemble_by_index, concat_pages};

#[test]
fn concat_preserves_page_order() {
    let rest = vec!["second".to_string(), "third".to_string()];
    let doc = concat_pages("first", &rest);
    assert_eq!(doc, "firstsecondthird");
}

#[test]
fn empty_plan_returns_first_page_unchanged() {
    let rest: Vec<String> = Vec::new();
    let doc = concat_pages("<html>only page</html>", &rest);
    assert_eq!(doc, "<html>only page</html>");
}

#[test]
fn out_of_order_completion_reassembles_by_page_index() {
    // Pages fetched concurrently may complete as [3, 1, 2]; the document
    // must still read 1, 2, 3.
    let parts = vec![
        (2usize, "three".to_string()),
        (0usize, "one".to_string()),
        (1usize, "two".to_string()),
    ];
    let bodies = assemble_by_index(&parts).unwrap();
    assert_eq!(
        bodies,
        vec!["one".to_string(), "two".to_string(), "three".to_string()]
    );
    assert_eq!(concat_pages("zero", &bodies), "zeroonetwothree");
}

#[test]
fn every_completion_order_assembles_the_same_document() {
    let orders = [
        [(0usize, "a"), (1, "b"), (2, "c")],
        [(1usize, "b"), (0, "a"), (2, "c")],
        [(2usize, "c"), (1, "b"), (0, "a")],
    ];
    for order in orders {
        let parts: Vec<(usize, String)> =
            order.iter().map(|(i, b)| (*i, b.to_string())).collect();
        let bodies = assemble_by_index(&parts).unwrap();
        assert_eq!(concat_pages("", &bodies), "abc");
    }
}

#[test]
fn duplicate_page_index_is_rejected() {
    let parts = vec![(0usize, "a".to_string()), (0usize, "b".to_string())];
    assert_eq!(assemble_by_index(&parts), None);
}

#[test]
fn index_beyond_page_count_is_rejected() {
    let parts = vec![(5usize, "a".to_string())];
    assert_eq!(assemble_by_index(&parts), None);
}

#[test]
fn no_parts_assemble_to_no_bodies() {
    let parts: Vec<(usize, String)> = Vec::new();
    assert_eq!(assemble_by_index(&parts), Some(Vec::new()));
}
