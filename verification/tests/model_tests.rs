use sleuth::annotation::{
    annotation_header, causative_preview, operation_label, status_label, status_short_label,
    status_tone, AnnotationDisplay, Tone,
};
use sleuth::model::{
    find, AmendingAction, AnnotationGroup, AnnotationStatus, ChangeAnnotation, Dataset, ElementNode,
    Lookup, Member, Party, SponsorInfo,
};

fn node(path: &str, children: Vec<ElementNode>) -> ElementNode {
    ElementNode {
        path: path.to_string(),
        number_display: String::new(),
        verbose_name: String::new(),
        heading: None,
        chapeau: None,
        proviso: None,
        content: None,
        continuation: None,
        children,
    }
}

fn annotation(bill: &str, op: AmendingAction, paths: &[&str]) -> ChangeAnnotation {
    ChangeAnnotation {
        operation: op,
        bill_id: bill.to_string(),
        causative_text: String::new(),
        paths: paths.iter().map(|p| p.to_string()).collect(),
        status: AnnotationStatus::Pending,
        confidence_percent: None,
        annotator: "a".to_string(),
        notes: None,
        reasoning: None,
    }
}

fn dataset() -> Dataset {
    Dataset {
        versions: Vec::new(),
        diff_annotations: vec![
            AnnotationGroup {
                from_date: "d1".to_string(),
                to_date: "d2".to_string(),
                annotations: vec![
                    annotation("hr-1", AmendingAction::Amend, &["t/s_1", "t/s_2"]),
                    annotation("hr-2", AmendingAction::Repeal, &["t/s_3"]),
                ],
            },
            AnnotationGroup {
                from_date: "d2".to_string(),
                to_date: "d3".to_string(),
                annotations: vec![annotation("hr-3", AmendingAction::Move, &["t/s_1"])],
            },
        ],
        members: vec![
            Member { bioguide_id: "D1".to_string(), party: Party::Democrat },
            Member { bioguide_id: "O1".to_string(), party: Party::Other("Green".to_string()) },
        ],
        sponsors: vec![
            SponsorInfo { bill_id: "hr-1".to_string(), sponsor: "D1".to_string() },
            SponsorInfo { bill_id: "hr-1".to_string(), sponsor: "O1".to_string() },
        ],
    }
}

#[test]
fn find_walks_down_by_path_pieces() {
    let t = node("t", vec![node("t/c_1", vec![node("t/c_1/s_2", vec![])]), node("t/c_3", vec![])]);
    match find(&t, &"t/c_1/s_2".to_string()) {
        Lookup::Found(e) => assert_eq!(e.path, "t/c_1/s_2"),
        _ => panic!("expected to find t/c_1/s_2"),
    }
    assert!(matches!(find(&t, &"t".to_string()), Lookup::Found(_)));
    assert!(matches!(find(&t, &"u/c_1".to_string()), Lookup::Missing));
    assert!(matches!(find(&t, &"t/c_9".to_string()), Lookup::Missing));
    assert!(matches!(find(&t, &"t/c_1/s_9".to_string()), Lookup::Missing));
}

#[test]
fn find_reports_lookups_that_fail_a_check() {
    let t = node("t", vec![node("t/a_x", vec![]), node("t/b_x", vec![])]);
    assert!(matches!(find(&t, &"tz".to_string()), Lookup::Invalid));
    assert!(matches!(find(&t, &"t/x".to_string()), Lookup::Invalid));
    assert!(matches!(find(&t, &"t/a_x".to_string()), Lookup::Found(_)));
}

#[test]
fn annotations_are_looked_up_by_dates() {
    let d = dataset();
    let anns = d.get_annotations(&"d1".to_string(), &"d2".to_string()).unwrap();
    assert_eq!(anns.len(), 2);
    assert_eq!(anns[1].bill_id, "hr-2");
    assert!(d.get_annotations(&"d1".to_string(), &"d3".to_string()).is_none());
}

#[test]
fn annotations_for_a_path_come_group_by_group() {
    let d = dataset();
    let anns = d.annotations_for_path(&"t/s_1".to_string());
    let bills: Vec<&str> = anns.iter().map(|a| a.bill_id.as_str()).collect();
    assert_eq!(bills, vec!["hr-1", "hr-3"]);
    assert!(d.annotations_for_path(&"t/s_9".to_string()).is_empty());
}

#[test]
fn sponsor_and_member_lookups_take_the_first_match() {
    let d = dataset();
    assert_eq!(d.get_sponsor_info(&"hr-1".to_string()).unwrap().sponsor, "D1");
    assert!(d.get_sponsor_info(&"hr-9".to_string()).is_none());
    assert!(matches!(d.get_member(&"D1".to_string()).unwrap().party, Party::Democrat));
    assert!(d.get_member(&"X".to_string()).is_none());
}

#[test]
fn operation_labels_are_past_tense_verbs() {
    let all = [
        (AmendingAction::Amend, "amended"),
        (AmendingAction::Add, "added"),
        (AmendingAction::Delete, "deleted"),
        (AmendingAction::Insert, "inserted"),
        (AmendingAction::Redesignate, "redesignated"),
        (AmendingAction::Repeal, "repealed"),
        (AmendingAction::Move, "moved"),
        (AmendingAction::Strike, "struck"),
        (AmendingAction::StrikeAndInsert, "struck and inserted"),
    ];
    for (op, label) in all {
        assert_eq!(operation_label(op), label);
        assert_eq!(annotation("b", op, &[]).operation_display(), label);
    }
}

#[test]
fn status_labels_and_tones() {
    assert_eq!(status_label(AnnotationStatus::Pending), "Pending review");
    assert_eq!(status_short_label(AnnotationStatus::Pending), "Pending");
    assert_eq!(status_label(AnnotationStatus::Disputed), "Disputed");
    assert_eq!(status_label(AnnotationStatus::Rejected), "Rejected");
    assert_eq!(status_tone(AnnotationStatus::Verified), Tone::InsertForeground);
    assert_eq!(status_tone(AnnotationStatus::Rejected), Tone::DeleteForeground);
    assert_eq!(status_tone(AnnotationStatus::Disputed), Tone::BadgeChanged);
    assert_eq!(status_tone(AnnotationStatus::Pending), Tone::TextSecondary);
}

#[test]
fn header_joins_bill_and_operation() {
    assert_eq!(annotation_header(&annotation("hr-5", AmendingAction::Strike, &[])), "hr-5 — struck");
}

#[test]
fn preview_cuts_long_texts_at_one_hundred_characters() {
    let short = "a".repeat(100);
    assert_eq!(causative_preview(&short), short);
    let long = "b".repeat(101);
    assert_eq!(causative_preview(&long), format!("{}...", "b".repeat(100)));
    let wide = "é".repeat(60);
    assert_eq!(causative_preview(&wide), wide);
    let hundred = format!("§{}’", "c".repeat(98));
    assert_eq!(causative_preview(&hundred), hundred);
    let long_wide = "’".repeat(101);
    assert_eq!(causative_preview(&long_wide), format!("{}...", "’".repeat(100)));
    assert_eq!(causative_preview(&String::new()), "");
}

#[test]
fn unique_keys_are_checked() {
    let d = dataset();
    assert!(!d.has_unique_keys());
    let mut ok = dataset();
    ok.sponsors.pop();
    assert!(ok.has_unique_keys());
    let mut dup_group = dataset();
    dup_group.sponsors.pop();
    dup_group.diff_annotations[1].from_date = "d1".to_string();
    dup_group.diff_annotations[1].to_date = "d2".to_string();
    assert!(!dup_group.has_unique_keys());
    let mut dup_member = dataset();
    dup_member.sponsors.pop();
    dup_member.members[1].bioguide_id = "D1".to_string();
    assert!(!dup_member.has_unique_keys());
}

#[test]
fn lookups_with_unique_keys_find_the_keyed_record() {
    let mut d = dataset();
    d.sponsors.pop();
    assert!(d.has_unique_keys());
    assert_eq!(d.get_sponsor_info(&"hr-1".to_string()).unwrap().sponsor, "D1");
    assert!(matches!(d.get_member(&"O1".to_string()).unwrap().party, Party::Other(_)));
    let anns = d.get_annotations(&"d2".to_string(), &"d3".to_string()).unwrap();
    assert_eq!(anns[0].bill_id, "hr-3");
}
