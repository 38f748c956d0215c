use sleuth::diff::{collect_changed_paths, diff_versions, find_diff, ChangeTag, DiffNode, TextField};
use sleuth::model::{ElementNode, Lookup};
use sleuth::pathset::PathSet;

fn leaf(path: &str, content: Option<&str>) -> ElementNode {
    ElementNode {
        path: path.to_string(),
        number_display: String::new(),
        verbose_name: path.to_string(),
        heading: None,
        chapeau: None,
        proviso: None,
        content: content.map(|s| s.to_string()),
        continuation: None,
        children: Vec::new(),
    }
}

fn with_children(mut n: ElementNode, children: Vec<ElementNode>) -> ElementNode {
    n.children = children;
    n
}

fn old_text(d: &DiffNode, field: TextField) -> String {
    let fc = d.changes.iter().find(|c| c.field_name == field).unwrap();
    fc.changes
        .iter()
        .filter(|t| t.tag != ChangeTag::Insert)
        .map(|t| t.value.as_str())
        .collect()
}

fn new_text(d: &DiffNode, field: TextField) -> String {
    let fc = d.changes.iter().find(|c| c.field_name == field).unwrap();
    fc.changes
        .iter()
        .filter(|t| t.tag != ChangeTag::Delete)
        .map(|t| t.value.as_str())
        .collect()
}

#[test]
fn diff_of_identical_trees_is_empty() {
    let a = with_children(leaf("t", Some("same")), vec![leaf("t/s_1", Some("x"))]);
    let b = with_children(leaf("t", Some("same")), vec![leaf("t/s_1", Some("x"))]);
    let d = diff_versions(&a, &b);
    assert_eq!(d.root_path, "t");
    assert!(d.changes.is_empty());
    assert!(d.added.is_empty());
    assert!(d.removed.is_empty());
    assert!(d.child_diffs.is_empty());
}

#[test]
fn diff_marks_changed_words_of_a_field() {
    let mut a = leaf("t", Some("the quick fox"));
    a.heading = Some("Title".to_string());
    let mut b = leaf("t", Some("the slow fox"));
    b.heading = Some("Title".to_string());
    let d = diff_versions(&a, &b);
    assert_eq!(d.changes.len(), 1);
    assert_eq!(d.changes[0].field_name, TextField::Content);
    let tags: Vec<ChangeTag> = d.changes[0].changes.iter().map(|t| t.tag).collect();
    assert!(tags.contains(&ChangeTag::Insert));
    assert!(tags.contains(&ChangeTag::Delete));
    assert!(tags.contains(&ChangeTag::Equal));
    assert_eq!(old_text(&d, TextField::Content), "the quick fox");
    assert_eq!(new_text(&d, TextField::Content), "the slow fox");
    let deleted: Vec<&str> = d.changes[0]
        .changes
        .iter()
        .filter(|t| t.tag == ChangeTag::Delete)
        .map(|t| t.value.as_str())
        .collect();
    assert_eq!(deleted, vec!["quick"]);
}

#[test]
fn diff_lists_fields_in_field_order() {
    let mut a = leaf("t", Some("one"));
    a.heading = Some("H1".to_string());
    a.continuation = Some("c1".to_string());
    let mut b = leaf("t", Some("two"));
    b.heading = Some("H2".to_string());
    b.continuation = Some("c2".to_string());
    let d = diff_versions(&a, &b);
    let fields: Vec<TextField> = d.changes.iter().map(|c| c.field_name).collect();
    assert_eq!(fields, vec![TextField::Heading, TextField::Content, TextField::Continuation]);
}

#[test]
fn missing_field_reads_as_empty() {
    let a = leaf("t", None);
    let b = leaf("t", Some(""));
    let d = diff_versions(&a, &b);
    assert!(d.changes.is_empty());
    let c = leaf("t", Some("new"));
    let d2 = diff_versions(&a, &c);
    assert_eq!(d2.changes.len(), 1);
    assert_eq!(new_text(&d2, TextField::Content), "new");
    assert_eq!(old_text(&d2, TextField::Content), "");
}

#[test]
fn diff_lists_added_and_removed_children() {
    let a = with_children(leaf("t", None), vec![leaf("t/s_1", None), leaf("t/s_2", None)]);
    let b = with_children(leaf("t", None), vec![leaf("t/s_2", None), leaf("t/s_3", None)]);
    let d = diff_versions(&a, &b);
    assert_eq!(d.added, vec!["t/s_3".to_string()]);
    assert_eq!(d.removed, vec!["t/s_1".to_string()]);
    assert!(d.child_diffs.is_empty());
}

#[test]
fn diff_keeps_only_changed_children() {
    let a = with_children(
        leaf("t", None),
        vec![leaf("t/s_1", Some("a")), leaf("t/s_2", Some("b"))],
    );
    let b = with_children(
        leaf("t", None),
        vec![leaf("t/s_1", Some("a")), leaf("t/s_2", Some("c"))],
    );
    let d = diff_versions(&a, &b);
    assert!(d.changes.is_empty());
    assert_eq!(d.child_diffs.len(), 1);
    assert_eq!(d.child_diffs[0].root_path, "t/s_2");
    assert_eq!(new_text(&d.child_diffs[0], TextField::Content), "c");
}

#[test]
fn find_diff_follows_the_path() {
    let a = with_children(
        leaf("t", None),
        vec![with_children(leaf("t/c_1", None), vec![leaf("t/c_1/s_5", Some("a"))])],
    );
    let b = with_children(
        leaf("t", None),
        vec![with_children(leaf("t/c_1", None), vec![leaf("t/c_1/s_5", Some("b"))])],
    );
    let d = diff_versions(&a, &b);
    match find_diff(&d, &"t/c_1/s_5".to_string()) {
        Lookup::Found(x) => assert_eq!(x.root_path, "t/c_1/s_5"),
        _ => panic!("expected the diff of t/c_1/s_5"),
    }
    assert!(matches!(find_diff(&d, &"t".to_string()), Lookup::Found(_)));
    assert!(matches!(find_diff(&d, &"u".to_string()), Lookup::Missing));
    assert!(matches!(find_diff(&d, &"t/c_9".to_string()), Lookup::Missing));
    assert!(matches!(find_diff(&d, &"tx".to_string()), Lookup::Invalid));
}

#[test]
fn changed_paths_collects_every_changed_node() {
    let a = with_children(
        leaf("t", Some("x")),
        vec![with_children(leaf("t/c_1", None), vec![leaf("t/c_1/s_5", Some("a"))])],
    );
    let b = with_children(
        leaf("t", Some("y")),
        vec![with_children(leaf("t/c_1", None), vec![leaf("t/c_1/s_5", Some("b"))])],
    );
    let d = diff_versions(&a, &b);
    let mut acc = PathSet::new();
    collect_changed_paths(&d, &mut acc);
    assert_eq!(acc.sorted_paths(), vec!["t".to_string(), "t/c_1/s_5".to_string()]);
}
