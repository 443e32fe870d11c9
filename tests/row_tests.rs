use rustte::Row;

#[test]
fn length_counts_clusters_not_bytes() {
    let row = Row::from("a\u{310}e\u{301}o\u{308}\u{332}");
    assert_eq!(row.len(), 3);
    assert!(row.as_bytes().len() > 3);
    assert!(!row.is_empty());
}

#[test]
fn length_of_flags_and_crlf() {
    let row = Row::from("a\r\nb\u{1F1F7}\u{1F1FA}\u{1F1F8}\u{1F1F9}");
    assert_eq!(row.len(), 5);
}

#[test]
fn empty_row_is_empty() {
    let row = Row::from("");
    assert_eq!(row.len(), 0);
    assert!(row.is_empty());
    assert_eq!(row.render(0, 10), "");
}

#[test]
fn insert_then_delete_gives_back_the_row() {
    let text = "he\u{301}llo";
    for i in 0..=5 {
        let mut row = Row::from(text);
        row.insert(i, 'x');
        assert_eq!(row.len(), 6);
        row.delete(i);
        assert_eq!(row.as_bytes(), text.as_bytes());
        assert_eq!(row.len(), 5);
    }
}

#[test]
fn insert_goes_before_the_cluster() {
    let mut row = Row::from("he\u{301}llo");
    row.insert(1, 'x');
    assert_eq!(row.render(0, 10), "hxe\u{301}llo");
    row.insert(100, '!');
    assert_eq!(row.render(0, 10), "hxe\u{301}llo!");
    assert_eq!(row.len(), 7);
}

#[test]
fn delete_removes_a_whole_cluster() {
    let mut row = Row::from("he\u{301}llo");
    row.delete(1);
    assert_eq!(row.render(0, 10), "hllo");
    assert_eq!(row.len(), 4);
    row.delete(4);
    assert_eq!(row.render(0, 10), "hllo");
}

#[test]
fn split_then_append_gives_back_the_row() {
    let text = "a\u{310}b\tc\u{301}d";
    let mut n = 0;
    for at in 0..=5 {
        let mut row = Row::from(text);
        n = row.len();
        let rest = row.split(at);
        assert_eq!(row.len() + rest.len(), n);
        row.append(&rest);
        assert_eq!(row.as_bytes(), text.as_bytes());
        assert_eq!(row.len(), n);
    }
    assert_eq!(n, 5);
}

#[test]
fn split_keeps_head_and_returns_tail() {
    let mut row = Row::from("he\u{301}llo");
    let rest = row.split(2);
    assert_eq!(row.render(0, 10), "he\u{301}");
    assert_eq!(rest.render(0, 10), "llo");
    let mut whole = Row::from("abc");
    let none = whole.split(9);
    assert_eq!(whole.len(), 3);
    assert!(none.is_empty());
}

#[test]
fn render_shows_tabs_as_one_space() {
    let row = Row::from("a\tb\te\u{301}");
    assert_eq!(row.render(0, row.len()), "a b e\u{301}");
    assert_eq!(row.render(1, 3), " b");
    assert_eq!(row.render(3, 100), " e\u{301}");
    assert_eq!(row.render(4, 2), "");
    assert_eq!(row.render(7, 9), "");
}

#[test]
fn find_returns_cluster_index() {
    let row = Row::from("he\u{301}llo wo");
    assert_eq!(row.find("llo"), Some(2));
    assert_eq!(row.find("h"), Some(0));
    assert_eq!(row.find("o"), Some(4));
    assert_eq!(row.find("zz"), None);
    assert_eq!(row.find(""), Some(0));
}

#[test]
fn find_inside_a_cluster_is_no_hit() {
    let row = Row::from("e\u{301}x");
    assert_eq!(row.find("\u{301}"), None);
    assert_eq!(Row::from("").find(""), None);
    assert_eq!(Row::from("ab").find("abc"), None);
}

fn clusters(parts: &[&str]) -> Vec<String> {
    parts.iter().map(|s| s.to_string()).collect()
}

#[test]
fn cluster_functions_work_on_given_clusters() {
    let gs = clusters(&["a", "\t", "e\u{301}", "b"]);
    assert_eq!(rustte::row::render_clusters(&gs, 0, 4), "a e\u{301}b");
    assert_eq!(rustte::row::render_clusters(&gs, 1, 3), " e\u{301}");
    assert_eq!(rustte::row::insert_into_clusters(&gs, 2, 'x'), "a\txe\u{301}b");
    assert_eq!(rustte::row::insert_into_clusters(&gs, 9, 'x'), "a\te\u{301}bx");
    assert_eq!(rustte::row::delete_from_clusters(&gs, 2), "a\tb");
    assert_eq!(rustte::row::delete_from_clusters(&gs, 4), "a\te\u{301}b");
    let (head, tail) = rustte::row::split_clusters(&gs, 3);
    assert_eq!(head, "a\te\u{301}");
    assert_eq!(tail, "b");
}

#[test]
fn find_in_clusters_maps_to_cluster_index() {
    let gs = clusters(&["x", "e\u{301}", "yz"]);
    let text = "xe\u{301}yz";
    assert_eq!(rustte::row::find_in_clusters(text, &gs, "yz"), Some(2));
    assert_eq!(rustte::row::find_in_clusters(text, &gs, "z"), None);
    assert_eq!(rustte::row::find_in_clusters(text, &gs, "e"), Some(1));
    assert_eq!(rustte::row::find_in_clusters(text, &gs, "q"), None);
}
