use sleuth::annotation::Tone;
use sleuth::changes::{ChangesContent, TimelineView};
use sleuth::diff::{ChangeTag, TextField};
use sleuth::model::{
    AmendingAction, AnnotationGroup, AnnotationStatus, ChangeAnnotation, Dataset, ElementNode,
    Member, Party, SponsorInfo, VersionSnapshot,
};
use sleuth::reading::{FieldBody, ReadingPane};
use sleuth::state::{AppState, ChangesTab, Message};
use sleuth::views::{Badge, BlameDetail, BlameTooltip, Expander, TreePane};

fn node(path: &str, number: &str, heading: Option<&str>, content: Option<&str>) -> ElementNode {
    ElementNode {
        path: path.to_string(),
        number_display: number.to_string(),
        verbose_name: format!("Element {}", path),
        heading: heading.map(|s| s.to_string()),
        chapeau: None,
        proviso: None,
        content: content.map(|s| s.to_string()),
        continuation: None,
        children: Vec::new(),
    }
}

fn tree(section_text: &str, continuation: Option<&str>) -> ElementNode {
    let mut root = node("usc/title_7", "7", Some("Agriculture"), None);
    let mut chapter = node("usc/title_7/chapter_1", "", Some("General"), None);
    let mut section = node("usc/title_7/chapter_1/section_2", "2", Some("Definitions"), Some(section_text));
    section.continuation = continuation.map(|s| s.to_string());
    chapter.children = vec![section];
    root.children = vec![chapter, node("usc/title_7/chapter_2", "", None, Some("unchanged"))];
    root
}

fn annotation(bill: &str, op: AmendingAction, path: &str) -> ChangeAnnotation {
    ChangeAnnotation {
        operation: op,
        bill_id: bill.to_string(),
        causative_text: "Section 2 is amended by striking \"old\".".to_string(),
        paths: vec![path.to_string()],
        status: AnnotationStatus::Verified,
        confidence_percent: Some("87".to_string()),
        annotator: "staff".to_string(),
        notes: None,
        reasoning: Some("matches the text".to_string()),
    }
}

fn dataset() -> Dataset {
    Dataset {
        versions: vec![
            VersionSnapshot { date: "2024-01-01".to_string(), label: Some("Before".to_string()), element: tree("the old rule", None) },
            VersionSnapshot { date: "2024-06-01".to_string(), label: None, element: tree("the new rule", Some("after")) },
        ],
        diff_annotations: vec![AnnotationGroup {
            from_date: "2024-01-01".to_string(),
            to_date: "2024-06-01".to_string(),
            annotations: vec![
                annotation("hr-7024-118", AmendingAction::StrikeAndInsert, "usc/title_7/chapter_1/section_2"),
                annotation("s-12-118", AmendingAction::Add, "usc/title_7/chapter_9"),
            ],
        }],
        members: vec![Member { bioguide_id: "R000001".to_string(), party: Party::Republican }],
        sponsors: vec![SponsorInfo { bill_id: "hr-7024-118".to_string(), sponsor: "R000001".to_string() }],
    }
}

fn at_second_version() -> AppState {
    let mut s = AppState::new();
    s.update(Message::DatasetLoaded(Box::new(dataset())));
    s.update(Message::NextVersion);
    s
}

#[test]
fn tree_pane_without_dataset_shows_hint() {
    let s = AppState::new();
    assert!(matches!(s.view_tree_pane(), TreePane::NoDataset));
}

#[test]
fn tree_pane_shows_labels_expanders_and_badges() {
    let mut s = at_second_version();
    s.update(Message::SelectPath("usc/title_7".to_string()));
    let TreePane::Tree(root) = s.view_tree_pane() else { panic!("expected a tree") };
    assert_eq!(root.row.label, "7");
    assert_eq!(root.row.expander, Expander::Expanded);
    assert!(root.row.selected);
    assert_eq!(root.row.badge, Badge::NoBadge);
    assert_eq!(root.children.len(), 2);
    let chapter = &root.children[0];
    assert_eq!(chapter.row.label, "Element usc/title_7/chapter_1");
    assert_eq!(chapter.row.expander, Expander::Collapsed);
    assert_eq!(chapter.row.badge, Badge::ChangesBelow);
    assert!(chapter.children.is_empty());
    assert_eq!(root.children[1].row.expander, Expander::Leaf);
    assert_eq!(root.children[1].row.badge, Badge::NoBadge);
    s.update(Message::TreeToggle("usc/title_7/chapter_1".to_string()));
    let TreePane::Tree(root) = s.view_tree_pane() else { panic!("expected a tree") };
    let chapter = &root.children[0];
    assert_eq!(chapter.row.badge, Badge::NoBadge);
    assert_eq!(chapter.children[0].row.badge, Badge::Changed);
    assert_eq!(chapter.children[0].row.label, "2");
}

#[test]
fn reading_pane_hints() {
    let s = AppState::new();
    assert!(matches!(s.view_reading_pane(), ReadingPane::NoDataset));
    let mut s = at_second_version();
    assert!(matches!(s.view_reading_pane(), ReadingPane::NoSelection));
    s.update(Message::SelectPath("usc/title_7/chapter_5".to_string()));
    assert!(matches!(s.view_reading_pane(), ReadingPane::NotFound));
    s.update(Message::SelectPath("usc/title_7x".to_string()));
    assert!(matches!(s.view_reading_pane(), ReadingPane::Malformed));
}

#[test]
fn reading_pane_marks_changed_words_and_shows_blame() {
    let mut s = at_second_version();
    s.update(Message::SelectPath("usc/title_7/chapter_1/section_2".to_string()));
    let ReadingPane::Element(v) = s.view_reading_pane() else { panic!("expected the element") };
    assert_eq!(v.path, "usc/title_7/chapter_1/section_2");
    assert_eq!(v.fields.len(), 2);
    assert_eq!(v.fields[0].field, TextField::Heading);
    match &v.fields[0].body {
        FieldBody::Plain(t) => assert_eq!(t, "Definitions"),
        _ => panic!("the heading did not change"),
    }
    assert_eq!(v.fields[1].field, TextField::Content);
    match &v.fields[1].body {
        FieldBody::Marked(words) => {
            let inserted: Vec<&str> = words.iter().filter(|w| w.tag == ChangeTag::Insert).map(|w| w.value.as_str()).collect();
            let deleted: Vec<&str> = words.iter().filter(|w| w.tag == ChangeTag::Delete).map(|w| w.value.as_str()).collect();
            assert_eq!(inserted, vec!["new"]);
            assert_eq!(deleted, vec!["old"]);
        }
        _ => panic!("the content changed"),
    }
    let blame = v.blame.as_ref().unwrap();
    assert_eq!(blame.bill_label, "hr·7024·118");
    assert_eq!(blame.tone, Tone::PartyRepublican);
    let cont = v.continuation.as_ref().unwrap();
    assert_eq!(cont.field, TextField::Continuation);
    assert!(matches!(&cont.body, FieldBody::Marked(_)));
    s.update(Message::ToggleBlame);
    let ReadingPane::Element(v) = s.view_reading_pane() else { panic!("expected the element") };
    assert!(v.blame.is_none());
}

#[test]
fn reading_pane_renders_children_below_the_element() {
    let mut s = at_second_version();
    s.update(Message::SelectPath("usc/title_7".to_string()));
    let ReadingPane::Element(v) = s.view_reading_pane() else { panic!("expected the element") };
    assert_eq!(v.children.len(), 2);
    assert_eq!(v.children[0].children.len(), 1);
    assert_eq!(v.children[0].children[0].path, "usc/title_7/chapter_1/section_2");
    assert!(v.blame.is_none());
}

#[test]
fn changes_pane_this_version_lists_the_annotations() {
    let mut s = AppState::new();
    assert!(matches!(s.render_changes_content(), ChangesContent::NoDataset));
    s.update(Message::DatasetLoaded(Box::new(dataset())));
    assert!(matches!(s.render_changes_content(), ChangesContent::NoPrevious));
    s.update(Message::NextVersion);
    match s.render_changes_content() {
        ChangesContent::VersionAnnotations(lines) => assert_eq!(
            lines,
            vec!["Bill hr-7024-118: struck and inserted".to_string(), "Bill s-12-118: added".to_string()]
        ),
        other => panic!("unexpected {:?}", other),
    }
}

#[test]
fn changes_pane_all_paths_lists_sorted_short_names() {
    let mut s = at_second_version();
    s.update(Message::SetChangesTab(ChangesTab::AllPaths));
    s.update(Message::SelectPath("usc/title_7/chapter_1/section_2".to_string()));
    match s.render_changes_content() {
        ChangesContent::ChangedPaths(es) => {
            assert_eq!(es.len(), 1);
            assert_eq!(es[0].path, "usc/title_7/chapter_1/section_2");
            assert_eq!(es[0].short_name, "section 2");
            assert!(es[0].selected);
        }
        other => panic!("unexpected {:?}", other),
    }
    s.update(Message::PrevVersion);
    assert!(matches!(s.render_changes_content(), ChangesContent::NoChanges));
}

#[test]
fn changes_pane_lifetime_lists_bills_of_the_selection() {
    let mut s = at_second_version();
    s.update(Message::SetChangesTab(ChangesTab::Lifetime));
    assert!(matches!(s.render_changes_content(), ChangesContent::NoSelection));
    s.update(Message::SelectPath("usc/title_7/chapter_2".to_string()));
    assert!(matches!(s.render_changes_content(), ChangesContent::NoHistory));
    s.update(Message::SelectPath("usc/title_7/chapter_1/section_2".to_string()));
    match s.render_changes_content() {
        ChangesContent::History(lines) => assert_eq!(lines, vec!["Bill hr-7024-118".to_string()]),
        other => panic!("unexpected {:?}", other),
    }
}

#[test]
fn timeline_names_the_version_and_its_place() {
    let mut s = AppState::new();
    assert!(matches!(s.view_timeline(), TimelineView::NoDataset));
    s.update(Message::DatasetLoaded(Box::new(dataset())));
    match s.view_timeline() {
        TimelineView::Shown { info, scrubber } => {
            assert_eq!(info, "2024-01-01 - Before (1/2)");
            assert_eq!(scrubber, Some((1, 0)));
        }
        other => panic!("unexpected {:?}", other),
    }
    s.update(Message::NextVersion);
    match s.view_timeline() {
        TimelineView::Shown { info, .. } => assert_eq!(info, "2024-06-01 (2/2)"),
        other => panic!("unexpected {:?}", other),
    }
    let mut empty = dataset();
    empty.versions.clear();
    let mut e = AppState::new();
    e.update(Message::DatasetLoaded(Box::new(empty)));
    assert!(matches!(e.view_timeline(), TimelineView::NoVersions));
}

#[test]
fn timeline_counts_past_nine_in_decimal() {
    let mut d = dataset();
    d.versions.clear();
    for k in 0..12 {
        let label = if k == 11 { Some(String::new()) } else { None };
        d.versions.push(VersionSnapshot { date: format!("d{}", k), label, element: tree("same", None) });
    }
    let mut s = AppState::new();
    s.update(Message::DatasetLoaded(Box::new(d)));
    s.update(Message::VersionChange(11));
    match s.view_timeline() {
        TimelineView::Shown { info, scrubber } => {
            assert_eq!(info, "d11 (12/12)");
            assert_eq!(scrubber, Some((11, 11)));
        }
        other => panic!("unexpected {:?}", other),
    }
}

#[test]
fn blame_of_a_path_uses_the_sponsors_party() {
    let s = at_second_version();
    let b = s.get_blame_for_path(&"usc/title_7/chapter_1/section_2".to_string()).unwrap();
    assert_eq!(b.bill_label, "hr·7024·118");
    assert_eq!(b.tone, Tone::PartyRepublican);
    let other = s.get_blame_for_path(&"usc/title_7/chapter_9".to_string()).unwrap();
    assert_eq!(other.bill_label, "s·12·118");
    assert_eq!(other.tone, Tone::TextSecondary);
    assert!(s.get_blame_for_path(&"usc/title_7".to_string()).is_none());
    assert!(AppState::new().get_blame_for_path(&"usc/title_7".to_string()).is_none());
}

#[test]
fn blame_tooltip_summarizes_the_first_annotation() {
    let s = at_second_version();
    match s.build_blame_tooltip(&"usc/title_7/chapter_1/section_2".to_string()) {
        BlameTooltip::Summary { header, status, preview } => {
            assert_eq!(header, "hr-7024-118 — struck and inserted");
            assert_eq!(status, "Verified");
            assert_eq!(preview.as_deref(), Some("Section 2 is amended by striking \"old\"."));
        }
        other => panic!("unexpected {:?}", other),
    }
    assert!(matches!(s.build_blame_tooltip(&"usc/title_7".to_string()), BlameTooltip::NoAnnotation));
    assert!(matches!(AppState::new().build_blame_tooltip(&"x".to_string()), BlameTooltip::NoData));
}

#[test]
fn blame_detail_tells_the_whole_annotation() {
    let s = at_second_version();
    match s.render_blame_detail(&"usc/title_7/chapter_1/section_2".to_string()) {
        BlameDetail::Detail(d) => {
            assert_eq!(d.header, "hr-7024-118 — struck and inserted");
            assert_eq!(d.status, "Verified");
            assert_eq!(d.status_tone, Tone::InsertForeground);
            assert_eq!(d.confidence.as_deref(), Some("Confidence: 87%"));
            assert_eq!(d.annotator, "Annotator: staff");
            assert_eq!(d.reasoning.as_deref(), Some("matches the text"));
            assert!(d.notes.is_none());
        }
        other => panic!("unexpected {:?}", other),
    }
    assert!(matches!(s.render_blame_detail(&"usc/title_7".to_string()), BlameDetail::NoAnnotation));
    assert!(matches!(AppState::new().render_blame_detail(&"x".to_string()), BlameDetail::NoDataset));
}

#[test]
fn window_shows_at_most_one_overlay() {
    let mut s = at_second_version();
    let w = s.view();
    assert!(w.search.is_none() && w.loader.is_none());
    assert_eq!(w.changes.active_tab, ChangesTab::ThisVersion);
    s.update(Message::SearchQueryChanged("rule".to_string()));
    s.update(Message::ToggleSearch);
    let w = s.view();
    assert_eq!(w.search.unwrap().query, "rule");
    assert!(w.loader.is_none());
    s.update(Message::LoaderPathChanged("/tmp/x.json".to_string()));
    s.update(Message::ToggleLoader);
    let w = s.view();
    assert!(w.search.is_none());
    assert_eq!(w.loader.unwrap().path, "/tmp/x.json");
}

#[test]
fn changed_root_is_marked_in_the_tree() {
    let mut d = dataset();
    d.versions[1].element.heading = Some("Agriculture and Food".to_string());
    let mut s = AppState::new();
    s.update(Message::DatasetLoaded(Box::new(d)));
    s.update(Message::NextVersion);
    let TreePane::Tree(root) = s.view_tree_pane() else { panic!("expected a tree") };
    assert_eq!(root.row.badge, Badge::Changed);
    s.update(Message::SelectPath("usc/title_7".to_string()));
    let ReadingPane::Element(v) = s.view_reading_pane() else { panic!("expected the element") };
    match &v.fields[0].body {
        FieldBody::Marked(words) => {
            let old: String = words.iter().filter(|w| w.tag != ChangeTag::Insert).map(|w| w.value.as_str()).collect();
            let new: String = words.iter().filter(|w| w.tag != ChangeTag::Delete).map(|w| w.value.as_str()).collect();
            assert_eq!(old, "Agriculture");
            assert_eq!(new, "Agriculture and Food");
        }
        _ => panic!("the heading changed"),
    }
}

#[test]
fn changes_below_need_a_descendant_not_a_sibling() {
    let mut a = node("t", "", None, None);
    a.children = vec![node("t/section_1", "1", None, None), node("t/section_10", "10", None, Some("old"))];
    a.children[0].children = vec![node("t/section_1/a", "a", None, None)];
    let mut b = node("t", "", None, None);
    b.children = vec![node("t/section_1", "1", None, None), node("t/section_10", "10", None, Some("new"))];
    b.children[0].children = vec![node("t/section_1/a", "a", None, None)];
    let d = Dataset {
        versions: vec![
            VersionSnapshot { date: "d1".to_string(), label: None, element: a },
            VersionSnapshot { date: "d2".to_string(), label: None, element: b },
        ],
        diff_annotations: Vec::new(),
        members: Vec::new(),
        sponsors: Vec::new(),
    };
    let mut s = AppState::new();
    s.update(Message::DatasetLoaded(Box::new(d)));
    s.update(Message::NextVersion);
    assert!(!s.has_descendant_changes(&"t/section_1".to_string()));
    assert!(s.has_descendant_changes(&"t/section_10".to_string()));
    assert!(s.has_descendant_changes(&"t".to_string()));
    s.update(Message::TreeToggle("t".to_string()));
    let TreePane::Tree(root) = s.view_tree_pane() else { panic!("expected a tree") };
    assert_eq!(root.row.badge, Badge::ChangesBelow);
    s.update(Message::TreeToggle("t".to_string()));
    let TreePane::Tree(root) = s.view_tree_pane() else { panic!("expected a tree") };
    assert_eq!(root.children[0].row.expander, Expander::Collapsed);
    assert_eq!(root.children[0].row.badge, Badge::NoBadge);
    assert_eq!(root.children[1].row.badge, Badge::Changed);
}

#[test]
fn overlays_carry_their_messages() {
    let mut s = AppState::new();
    s.update(Message::LoaderPathChanged("/tmp/x.json".to_string()));
    let m = s.view_loader_modal();
    match m.submit {
        Message::LoadDataset(p) => assert_eq!(p, "/tmp/x.json"),
        other => panic!("unexpected {:?}", other),
    }
    assert!(matches!(m.dismiss, Message::CloseOverlays));
    let q = s.view_search_modal();
    assert!(matches!(q.submit, Message::SearchSubmit));
    assert!(matches!(q.dismiss, Message::CloseOverlays));
}
