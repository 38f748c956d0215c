//! How annotations read in the viewer: the verb of each operation, the
//! name of each review status, and the texts built from them.
use vstd::prelude::*;
use crate::model::{AmendingAction, AnnotationStatus, ChangeAnnotation};

verus! {

/// The verb that names an operation in the past tense.
pub open spec fn operation_text(op: AmendingAction) -> Seq<char> {
    match op {
        AmendingAction::Amend => "amended"@,
        AmendingAction::Add => "added"@,
        AmendingAction::Delete => "deleted"@,
        AmendingAction::Insert => "inserted"@,
        AmendingAction::Redesignate => "redesignated"@,
        AmendingAction::Repeal => "repealed"@,
        AmendingAction::Move => "moved"@,
        AmendingAction::Strike => "struck"@,
        AmendingAction::StrikeAndInsert => "struck and inserted"@,
    }
}

/// The verb that names an operation in the past tense.
pub fn operation_label(op: AmendingAction) -> (r: &'static str)
    ensures
        r@ == operation_text(op),
{
    match op {
        AmendingAction::Amend => "amended",
        AmendingAction::Add => "added",
        AmendingAction::Delete => "deleted",
        AmendingAction::Insert => "inserted",
        AmendingAction::Redesignate => "redesignated",
        AmendingAction::Repeal => "repealed",
        AmendingAction::Move => "moved",
        AmendingAction::Strike => "struck",
        AmendingAction::StrikeAndInsert => "struck and inserted",
    }
}

/// Display helper for annotations.
pub trait AnnotationDisplay {
    /// The verb of the annotation's operation.
    fn operation_display(&self) -> &'static str;
}

impl AnnotationDisplay for ChangeAnnotation {
    fn operation_display(&self) -> (r: &'static str)
        ensures
            r@ == operation_text(self.operation),
    {
        operation_label(self.operation)
    }
}

/// The name of a review status in the detail pane.
pub open spec fn status_text(s: AnnotationStatus) -> Seq<char> {
    match s {
        AnnotationStatus::Pending => "Pending review"@,
        AnnotationStatus::Verified => "Verified"@,
        AnnotationStatus::Disputed => "Disputed"@,
        AnnotationStatus::Rejected => "Rejected"@,
    }
}

/// The name of a review status in the detail pane.
pub fn status_label(s: AnnotationStatus) -> (r: &'static str)
    ensures
        r@ == status_text(s),
{
    match s {
        AnnotationStatus::Pending => "Pending review",
        AnnotationStatus::Verified => "Verified",
        AnnotationStatus::Disputed => "Disputed",
        AnnotationStatus::Rejected => "Rejected",
    }
}

/// The short name of a review status, in the tooltip.
pub open spec fn status_short_text(s: AnnotationStatus) -> Seq<char> {
    match s {
        AnnotationStatus::Pending => "Pending"@,
        AnnotationStatus::Verified => "Verified"@,
        AnnotationStatus::Disputed => "Disputed"@,
        AnnotationStatus::Rejected => "Rejected"@,
    }
}

/// The short name of a review status, in the tooltip.
pub fn status_short_label(s: AnnotationStatus) -> (r: &'static str)
    ensures
        r@ == status_short_text(s),
{
    match s {
        AnnotationStatus::Pending => "Pending",
        AnnotationStatus::Verified => "Verified",
        AnnotationStatus::Disputed => "Disputed",
        AnnotationStatus::Rejected => "Rejected",
    }
}

/// The role of a color of the viewer's palette.
#[derive(Clone, Copy, Debug, PartialEq, Eq, Structural)]
pub enum Tone {
    TextSecondary,
    InsertForeground,
    DeleteForeground,
    BadgeChanged,
    PartyRepublican,
    PartyDemocrat,
    PartyIndependent,
}

/// The color in which a review status is written.
pub open spec fn status_tone_spec(s: AnnotationStatus) -> Tone {
    match s {
        AnnotationStatus::Verified => Tone::InsertForeground,
        AnnotationStatus::Rejected => Tone::DeleteForeground,
        AnnotationStatus::Disputed => Tone::BadgeChanged,
        AnnotationStatus::Pending => Tone::TextSecondary,
    }
}

/// The color in which a review status is written.
pub fn status_tone(s: AnnotationStatus) -> (t: Tone)
    ensures
        t == status_tone_spec(s),
{
    match s {
        AnnotationStatus::Verified => Tone::InsertForeground,
        AnnotationStatus::Rejected => Tone::DeleteForeground,
        AnnotationStatus::Disputed => Tone::BadgeChanged,
        AnnotationStatus::Pending => Tone::TextSecondary,
    }
}

/// The first 100 characters of a causative text, with `...` after them
/// where the text is longer, so that a cut text is marked as cut.
pub open spec fn preview_text(t: Seq<char>) -> Seq<char> {
    if t.len() <= 100 {
        t
    } else {
        t.take(100) + "..."@
    }
}

/// The preview of a causative text shown in the tooltip.
pub fn causative_preview(t: &String) -> (r: String)
    ensures
        r@ == preview_text(t@),
{
    let cs = crate::text::chars_of(t.as_str());
    let n: usize = if cs.len() <= 100 {
        cs.len()
    } else {
        100
    };
    let mut head: Vec<char> = Vec::new();
    let mut i: usize = 0;
    while i < n
        invariant
            cs@ == t@,
            n <= cs@.len(),
            i <= n,
            head@ == cs@.take(i as int),
        decreases n - i,
    {
        head.push(cs[i]);
        assert(cs@.take(i + 1) =~= cs@.take(i as int).push(cs@[i as int]));
        i = i + 1;
    }
    assert(head@ =~= (if t@.len() <= 100 { t@ } else { t@.take(100) }));
    let mut r = crate::text::string_of(&head);
    if cs.len() > 100 {
        r.append("...");
    }
    r
}

/// `a`, a dash between spaces, then `b`: the head line of an annotation.
pub open spec fn dash_joined(a: Seq<char>, b: Seq<char>) -> Seq<char> {
    a + " — "@ + b
}

/// The head line of an annotation: the bill, a dash, and the operation.
pub fn annotation_header(a: &ChangeAnnotation) -> (r: String)
    ensures
        r@ == dash_joined(a.bill_id@, operation_text(a.operation)),
{
    let mut r = a.bill_id.clone();
    r.append(" — ");
    r.append(a.operation_display());
    r
}

} // verus!
