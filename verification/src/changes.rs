//! The changes pane on the right, with its three tabs, and the timeline at
//! the bottom of the window.
use vstd::prelude::*;
use crate::annotation::{operation_text, AnnotationDisplay};
use crate::model::{annotations_on_path, group_lookup, opt_text, ChangeAnnotation};
use crate::state::{AppState, ChangesTab};
use crate::text::{after_last_slash, decimal, decimal_string, last_segment, replace_all, replace_char, sorted, views};
use crate::views::is_selected;

verus! {

/// The line of the "This Version" tab for an annotation: the bill and the
/// operation.
pub open spec fn version_line(a: ChangeAnnotation) -> Seq<char> {
    "Bill "@ + a.bill_id@ + ": "@ + operation_text(a.operation)
}

/// The line of the "Lifetime" tab for an annotation: the bill.
pub open spec fn history_line(a: ChangeAnnotation) -> Seq<char> {
    "Bill "@ + a.bill_id@
}

/// The short name of a path in the "All Paths" tab: its last piece, with
/// spaces for underscores.
pub open spec fn short_name(p: Seq<char>) -> Seq<char> {
    replace_char(last_segment(p), '_', ' ')
}

/// One changed path in the "All Paths" tab.
#[derive(Debug)]
pub struct PathEntry {
    pub path: String,
    pub short_name: String,
    /// The path is the one selected.
    pub selected: bool,
}

/// What the changes pane shows under its tabs.
#[derive(Debug)]
pub enum ChangesContent {
    NoDataset,
    /// "This Version" at the first version, or with fewer than two versions.
    NoPrevious,
    /// "This Version" where the dataset holds no annotations for the pair of dates.
    NoAnnotations,
    /// "This Version": one line per annotation of the pair of dates.
    VersionAnnotations(Vec<String>),
    /// "All Paths" where nothing changed.
    NoChanges,
    /// "All Paths": the changed paths in ascending order.
    ChangedPaths(Vec<PathEntry>),
    /// "Lifetime" with no element selected.
    NoSelection,
    /// "Lifetime" where no annotation names the selected element.
    NoHistory,
    /// "Lifetime": one line per annotation that names the selected element.
    History(Vec<String>),
}

/// The entry shows the changed path `p`.
pub open spec fn entry_of(e: PathEntry, s: AppState, p: Seq<char>) -> bool {
    &&& e.path@ == p
    &&& e.short_name@ == short_name(p)
    &&& e.selected == is_selected(s, p)
}

/// The entries show the changed paths of `s` in ascending order, each once.
pub open spec fn entries_show(es: Seq<PathEntry>, s: AppState) -> bool {
    let ps = es.map_values(|e: PathEntry| e.path@);
    &&& sorted(ps)
    &&& ps.no_duplicates()
    &&& ps.to_set() == s.changed_paths@
    &&& forall|i: int| 0 <= i < es.len() ==> entry_of(#[trigger] es[i], s, es[i].path@)
}

/// The content of the changes pane for the state `s`.
pub open spec fn changes_shows(c: ChangesContent, s: AppState) -> bool {
    match s.dataset {
        None => c is NoDataset,
        Some(d) => match s.changes_tab {
            ChangesTab::ThisVersion => if d.versions@.len() < 2 || s.selected_version_index == 0 {
                c is NoPrevious
            } else {
                let i = s.selected_version_index as int;
                match group_lookup(d.diff_annotations@, d.versions@[i - 1].date@, d.versions@[i].date@) {
                    None => c is NoAnnotations,
                    Some(g) => c matches ChangesContent::VersionAnnotations(lines) && views(lines@)
                        == g.annotations@.map_values(|a: ChangeAnnotation| version_line(a)),
                }
            },
            ChangesTab::AllPaths => if s.changed_paths@.len() == 0 {
                c is NoChanges
            } else {
                c matches ChangesContent::ChangedPaths(es) && entries_show(es@, s)
            },
            ChangesTab::Lifetime => match s.selected_path {
                None => c is NoSelection,
                Some(p) => {
                    let anns = annotations_on_path(d.diff_annotations@, p@);
                    if anns.len() == 0 {
                        c is NoHistory
                    } else {
                        c matches ChangesContent::History(lines) && views(lines@) == anns.map_values(
                            |a: ChangeAnnotation| history_line(a),
                        )
                    }
                },
            },
        },
    }
}

/// The line of the "This Version" tab for `a`.
fn version_line_of(a: &ChangeAnnotation) -> (r: String)
    ensures
        r@ == version_line(*a),
{
    let mut r = String::from_str("Bill ");
    r.append(a.bill_id.as_str());
    r.append(": ");
    r.append(a.operation_display());
    r
}

/// The line of the "Lifetime" tab for `a`.
fn history_line_of(a: &ChangeAnnotation) -> (r: String)
    ensures
        r@ == history_line(*a),
{
    let mut r = String::from_str("Bill ");
    r.append(a.bill_id.as_str());
    r
}

/// The timeline at the bottom of the window.
#[derive(Debug)]
pub enum TimelineView {
    NoDataset,
    NoVersions,
    /// The line that names the version shown, and the scrubber's range
    /// (its last position and the current one) where there are at least two
    /// versions.
    Shown { info: String, scrubber: Option<(usize, usize)> },
}

/// The line above the timeline: the version's date (or `--`), its label
/// where it has a non-empty one, and its place among the versions.
pub open spec fn timeline_info(date: Seq<char>, label: Seq<char>, position: nat, count: nat) -> Seq<char> {
    let place = " ("@ + decimal(position) + "/"@ + decimal(count) + ")"@;
    if label.len() == 0 {
        date + place
    } else {
        date + " - "@ + label + place
    }
}

/// The timeline shows the state `s`.
pub open spec fn timeline_shows(t: TimelineView, s: AppState) -> bool {
    match s.dataset {
        None => t is NoDataset,
        Some(d) => {
            let count = d.versions@.len();
            let i = s.selected_version_index as int;
            if count == 0 {
                t is NoVersions
            } else {
                let date = if i < count { d.versions@[i].date@ } else { "--"@ };
                let label = if i < count {
                    opt_text(d.versions@[i].label)
                } else {
                    Seq::empty()
                };
                t matches TimelineView::Shown { info, scrubber } && info@ == timeline_info(
                    date,
                    label,
                    (i + 1) as nat,
                    count,
                ) && scrubber == (if count > 1 {
                    Some(((count - 1) as usize, s.selected_version_index))
                } else {
                    None
                })
            }
        },
    }
}

impl AppState {
    /// The content of the changes pane under the active tab.
    pub fn render_changes_content(&self) -> (c: ChangesContent)
        requires
            self.wf(),
        ensures
            changes_shows(c, *self),
    {
        let dataset = match &self.dataset {
            Some(d) => d,
            None => return ChangesContent::NoDataset,
        };
        match self.changes_tab {
            ChangesTab::ThisVersion => {
                let i = self.selected_version_index;
                if dataset.versions.len() < 2 || i == 0 {
                    return ChangesContent::NoPrevious;
                }
                let from_date = &dataset.versions[i - 1].date;
                let to_date = &dataset.versions[i].date;
                match dataset.get_annotations(from_date, to_date) {
                    None => ChangesContent::NoAnnotations,
                    Some(anns) => {
                        let mut lines: Vec<String> = Vec::new();
                        let mut k: usize = 0;
                        while k < anns.len()
                            invariant
                                k <= anns@.len(),
                                views(lines@) == anns@.take(k as int).map_values(
                                    |a: ChangeAnnotation| version_line(a),
                                ),
                            decreases anns.len() - k,
                        {
                            let ghost before = lines@;
                            lines.push(version_line_of(&anns[k]));
                            proof {
                                assert(anns@.take(k + 1) =~= anns@.take(k as int).push(anns@[k as int]));
                                assert(views(lines@) =~= views(before).push(version_line(anns@[k as int])));
                            }
                            k = k + 1;
                        }
                        assert(anns@.take(anns@.len() as int) =~= anns@);
                        ChangesContent::VersionAnnotations(lines)
                    },
                }
            },
            ChangesTab::AllPaths => {
                proof {
                    self.changed_paths.lemma_finite();
                    if self.changed_paths@.len() == 0 {
                        assert(self.changed_paths@ =~= Set::<Seq<char>>::empty());
                    }
                }
                if self.changed_paths.is_empty() {
                    return ChangesContent::NoChanges;
                }
                let paths = self.changed_paths.sorted_paths();
                let mut entries: Vec<PathEntry> = Vec::new();
                let mut k: usize = 0;
                while k < paths.len()
                    invariant
                        k <= paths@.len(),
                        entries@.len() == k,
                        forall|j: int| 0 <= j < k ==> entry_of(#[trigger] entries@[j], *self, paths@[j]@),
                    decreases paths.len() - k,
                {
                    let p = &paths[k];
                    let selected = match &self.selected_path {
                        Some(q) => *q == *p,
                        None => false,
                    };
                    let name = replace_all(&after_last_slash(p), '_', ' ');
                    let ghost before = entries@;
                    entries.push(PathEntry { path: p.clone(), short_name: name, selected });
                    proof {
                        assert forall|j: int| 0 <= j < k + 1 implies entry_of(#[trigger] entries@[j], *self, paths@[j]@) by {
                            if j < k {
                                assert(entries@[j] == before[j]);
                            }
                        }
                    }
                    k = k + 1;
                }
                proof {
                    let ps = entries@.map_values(|e: PathEntry| e.path@);
                    assert(ps =~= views(paths@));
                }
                ChangesContent::ChangedPaths(entries)
            },
            ChangesTab::Lifetime => {
                let path = match &self.selected_path {
                    Some(p) => p,
                    None => return ChangesContent::NoSelection,
                };
                let anns = dataset.annotations_for_path(path);
                if anns.len() == 0 {
                    return ChangesContent::NoHistory;
                }
                let ghost all = anns@.map_values(|a: &ChangeAnnotation| *a);
                let mut lines: Vec<String> = Vec::new();
                let mut k: usize = 0;
                while k < anns.len()
                    invariant
                        k <= anns@.len(),
                        all == anns@.map_values(|a: &ChangeAnnotation| *a),
                        views(lines@) == all.take(k as int).map_values(|a: ChangeAnnotation| history_line(a)),
                    decreases anns.len() - k,
                {
                    let ghost before = lines@;
                    lines.push(history_line_of(anns[k]));
                    proof {
                        assert(all[k as int] == *anns@[k as int]);
                        assert(all.take(k + 1) =~= all.take(k as int).push(all[k as int]));
                        assert(views(lines@) =~= views(before).push(history_line(all[k as int])));
                    }
                    k = k + 1;
                }
                assert(all.take(all.len() as int) =~= all);
                ChangesContent::History(lines)
            },
        }
    }

    /// The timeline at the bottom of the window.
    pub fn view_timeline(&self) -> (t: TimelineView)
        requires
            self.wf(),
        ensures
            timeline_shows(t, *self),
    {
        let dataset = match &self.dataset {
            Some(d) => d,
            None => return TimelineView::NoDataset,
        };
        let count = dataset.versions.len();
        if count == 0 {
            return TimelineView::NoVersions;
        }
        let i = self.selected_version_index;
        let v = &dataset.versions[i];
        let mut info = v.date.clone();
        let ghost label: Seq<char> = opt_text(v.label);
        if let Some(l) = &v.label {
            if !l.as_str().is_empty() {
                info.append(" - ");
                info.append(l.as_str());
            }
        }
        let ghost head = info@;
        assert(head == if label.len() == 0 { v.date@ } else { v.date@ + " - "@ + label });
        info.append(" (");
        info.append(decimal_string(i + 1).as_str());
        info.append("/");
        info.append(decimal_string(count).as_str());
        info.append(")");
        proof {
            let place = " ("@ + decimal((i + 1) as nat) + "/"@ + decimal(count as nat) + ")"@;
            assert(info@ =~= head + place);
        }
        let scrubber = if count > 1 {
            Some((count - 1, i))
        } else {
            None
        };
        TimelineView::Shown { info, scrubber }
    }
}

/// In the "All Paths" tab an entry is marked selected exactly when its
/// path is the selected path, and no other entry is.
pub proof fn law_all_paths_marks_only_the_selected_path(c: ChangesContent, s: AppState)
    requires
        changes_shows(c, s),
    ensures
        c matches ChangesContent::ChangedPaths(es) ==> forall|i: int|
            0 <= i < es@.len() ==> ((#[trigger] es@[i]).selected <==> (s.selected_path is Some
                && s.selected_path->0@ == es@[i].path@)),
{
    if let ChangesContent::ChangedPaths(es) = c {
        assert forall|i: int| 0 <= i < es@.len() implies ((#[trigger] es@[i]).selected <==> (
        s.selected_path is Some && s.selected_path->0@ == es@[i].path@)) by {
            assert(entry_of(es@[i], s, es@[i].path@));
        }
    }
}

} // verus!
