//! The tree pane on the left, and the attribution of a change to its bill:
//! the gutter label, its tooltip, and the detail of the annotation.
use vstd::prelude::*;
use crate::annotation::{
    annotation_header, causative_preview, dash_joined, operation_text, preview_text, status_label,
    status_short_label, status_short_text, status_text, status_tone, status_tone_spec, Tone,
};
use crate::model::{
    annotations_on_path, member_lookup, sponsor_lookup, ChangeAnnotation, Dataset, ElementNode, Party,
};
use crate::diff::{changed_in, child_path_set, fields_differ, law_root_changed_iff_text_or_children};
use crate::state::{has_previous, AppState};
use crate::text::{is_prefix, replace_all, replace_char};

verus! {

/// The control in front of a node of the tree.
#[derive(Clone, Copy, Debug, PartialEq, Eq, Structural)]
pub enum Expander {
    /// An expanded node with children.
    Expanded,
    /// A collapsed node with children.
    Collapsed,
    /// A node without children.
    Leaf,
}

/// The mark after a node of the tree.
#[derive(Clone, Copy, Debug, PartialEq, Eq, Structural)]
pub enum Badge {
    /// The element itself changed in the current diff.
    Changed,
    /// An element under this collapsed node changed.
    ChangesBelow,
    NoBadge,
}

/// One line of the tree pane.
#[derive(Debug)]
pub struct TreeRow {
    pub path: String,
    pub label: String,
    pub expander: Expander,
    pub selected: bool,
    pub badge: Badge,
}

/// A node of the tree pane, with the nodes shown under it.
#[derive(Debug)]
pub struct TreeNodeView {
    pub row: TreeRow,
    pub children: Vec<TreeNodeView>,
}

/// The name shown for an element: its number where it has one, else its
/// long name.
pub open spec fn node_label(n: ElementNode) -> Seq<char> {
    if n.number_display@.len() == 0 {
        n.verbose_name@
    } else {
        n.number_display@
    }
}

/// The element at `p` is the one selected.
pub open spec fn is_selected(s: AppState, p: Seq<char>) -> bool {
    s.selected_path matches Some(q) && q@ == p
}

/// `q` is the path `p` or the path of an element under it (it continues
/// `p` with a `/`).
pub open spec fn at_or_below(p: Seq<char>, q: Seq<char>) -> bool {
    q == p || is_prefix(p.push('/'), q)
}

/// The element at `p`, or one under it, changed.
pub open spec fn has_changes_under(s: AppState, p: Seq<char>) -> bool {
    exists|q: Seq<char>| s.changed_paths@.contains(q) && at_or_below(p, q)
}

/// The node's children are shown: it has some and it is expanded.
pub open spec fn shows_children(s: AppState, n: ElementNode) -> bool {
    n.children@.len() > 0 && s.tree_expanded@.contains(n.path@)
}

/// The control in front of the node.
pub open spec fn expander_of(s: AppState, n: ElementNode) -> Expander {
    if n.children@.len() == 0 {
        Expander::Leaf
    } else if s.tree_expanded@.contains(n.path@) {
        Expander::Expanded
    } else {
        Expander::Collapsed
    }
}

/// The mark after the node: changed where the element changed; else a dot
/// where it is collapsed and something under it changed.
pub open spec fn badge_of(s: AppState, n: ElementNode) -> Badge {
    if s.changed_paths@.contains(n.path@) {
        Badge::Changed
    } else if has_changes_under(s, n.path@) && !s.tree_expanded@.contains(n.path@) {
        Badge::ChangesBelow
    } else {
        Badge::NoBadge
    }
}

/// The row shows the node `n` in state `s`.
pub open spec fn row_shows(r: TreeRow, s: AppState, n: ElementNode) -> bool {
    &&& r.path@ == n.path@
    &&& r.label@ == node_label(n)
    &&& r.expander == expander_of(s, n)
    &&& r.selected == is_selected(s, n.path@)
    &&& r.badge == badge_of(s, n)
}

/// The view shows the node `n` and, where it is expanded, its children.
pub open spec fn tree_shows(v: TreeNodeView, s: AppState, n: ElementNode) -> bool
    decreases n, 1int,
{
    &&& row_shows(v.row, s, n)
    &&& if shows_children(s, n) {
        trees_show(v.children@, s, n.children@)
    } else {
        v.children@.len() == 0
    }
}

/// Each view of `vs` shows the node of `ns` at the same place.
pub open spec fn trees_show(vs: Seq<TreeNodeView>, s: AppState, ns: Seq<ElementNode>) -> bool
    decreases ns, 0int,
{
    &&& vs.len() == ns.len()
    &&& ns.len() > 0 ==> trees_show(vs.drop_last(), s, ns.drop_last()) && tree_shows(
        vs.last(),
        s,
        ns.last(),
    )
}

/// The left pane: a hint where no dataset is loaded or the version shown
/// does not exist, else the tree of the version shown.
#[derive(Debug)]
pub enum TreePane {
    NoDataset,
    NoVersion,
    Tree(TreeNodeView),
}

/// The tree pane shows the state `s`.
pub open spec fn tree_pane_shows(p: TreePane, s: AppState) -> bool {
    match s.dataset {
        None => p is NoDataset,
        Some(d) => if s.selected_version_index < d.versions@.len() {
            p matches TreePane::Tree(v) && tree_shows(
                v,
                s,
                d.versions@[s.selected_version_index as int].element,
            )
        } else {
            p is NoVersion
        },
    }
}

impl AppState {
    /// Whether the element at `path`, or one under it, changed in the
    /// current diff.
    pub fn has_descendant_changes(&self, path: &String) -> (b: bool)
        ensures
            b == has_changes_under(*self, path@),
    {
        if self.changed_paths.contains(path) {
            assert(self.changed_paths@.contains(path@) && at_or_below(path@, path@));
            return true;
        }
        let mut below = path.clone();
        below.append("/");
        proof {
            reveal_strlit("/");
            assert(below@ =~= path@.push('/'));
        }
        let b = self.changed_paths.any_starts_with(&below);
        proof {
            if b {
                let q = choose|q: Seq<char>| self.changed_paths@.contains(q) && is_prefix(below@, q);
                assert(self.changed_paths@.contains(q) && at_or_below(path@, q));
            } else {
                assert forall|q: Seq<char>| self.changed_paths@.contains(q) implies !at_or_below(path@, q) by {
                    assert(!is_prefix(below@, q));
                }
            }
        }
        b
    }

    /// The row of the tree pane for the element `n`.
    fn tree_row(&self, n: &ElementNode) -> (r: TreeRow)
        requires
            self.wf(),
        ensures
            row_shows(r, *self, *n),
    {
        let expanded = self.tree_expanded.contains(&n.path);
        let selected = match &self.selected_path {
            Some(p) => *p == n.path,
            None => false,
        };
        let expander = if n.children.len() == 0 {
            Expander::Leaf
        } else if expanded {
            Expander::Expanded
        } else {
            Expander::Collapsed
        };
        let badge = if self.changed_paths.contains(&n.path) {
            Badge::Changed
        } else if self.has_descendant_changes(&n.path) && !expanded {
            Badge::ChangesBelow
        } else {
            Badge::NoBadge
        };
        let label = if n.number_display.as_str().is_empty() {
            n.verbose_name.clone()
        } else {
            n.number_display.clone()
        };
        TreeRow { path: n.path.clone(), label, expander, selected, badge }
    }

    /// The node of the tree pane for the element `n` and, where it is
    /// expanded, the nodes of its children.
    pub fn render_tree_node(&self, n: &ElementNode) -> (v: TreeNodeView)
        requires
            self.wf(),
        ensures
            tree_shows(v, *self, *n),
        decreases n,
    {
        let row = self.tree_row(n);
        let mut children: Vec<TreeNodeView> = Vec::new();
        if n.children.len() > 0 && self.tree_expanded.contains(&n.path) {
            let mut i: usize = 0;
            assert(trees_show(children@, *self, n.children@.take(0)));
            while i < n.children.len()
                invariant
                    self.wf(),
                    i <= n.children@.len(),
                    trees_show(children@, *self, n.children@.take(i as int)),
                decreases n.children.len() - i,
            {
                let c = self.render_tree_node(&n.children[i]);
                let ghost before = children@;
                children.push(c);
                proof {
                    assert(children@.drop_last() =~= before);
                    assert(n.children@.take(i + 1).drop_last() =~= n.children@.take(i as int));
                }
                i = i + 1;
            }
            assert(n.children@.take(n.children@.len() as int) =~= n.children@);
        }
        TreeNodeView { row, children }
    }

    /// The left pane.
    pub fn view_tree_pane(&self) -> (p: TreePane)
        requires
            self.wf(),
        ensures
            tree_pane_shows(p, *self),
    {
        match &self.dataset {
            None => TreePane::NoDataset,
            Some(d) => {
                if self.selected_version_index < d.versions.len() {
                    TreePane::Tree(self.render_tree_node(&d.versions[self.selected_version_index].element))
                } else {
                    TreePane::NoVersion
                }
            },
        }
    }
}


/// The view of an optional string.
pub open spec fn opt_view(o: Option<String>) -> Option<Seq<char>> {
    match o {
        Some(t) => Some(t@),
        None => None,
    }
}

/// The color of a party.
pub open spec fn party_tone(p: Party) -> Tone {
    match p {
        Party::Republican => Tone::PartyRepublican,
        Party::Democrat => Tone::PartyDemocrat,
        Party::Independent => Tone::PartyIndependent,
        Party::Other(_) => Tone::PartyIndependent,
    }
}

/// The color of the party of the sponsor of the bill `bill`; the secondary
/// text color where the dataset does not know the sponsor or the member.
pub open spec fn sponsor_tone(d: Dataset, bill: Seq<char>) -> Tone {
    match sponsor_lookup(d.sponsors@, bill) {
        Some(info) => match member_lookup(d.members@, info.sponsor@) {
            Some(m) => party_tone(m.party),
            None => Tone::TextSecondary,
        },
        None => Tone::TextSecondary,
    }
}

/// The first annotation that names the element at `path`.
pub open spec fn first_annotation(d: Dataset, path: Seq<char>) -> Option<ChangeAnnotation> {
    let anns = annotations_on_path(d.diff_annotations@, path);
    if anns.len() == 0 {
        None
    } else {
        Some(anns[0])
    }
}

/// The attribution of a change in the gutter of the reading pane: the bill
/// (its `-` written as `·`) in the color of its sponsor's party.
#[derive(Debug)]
pub struct Blame {
    pub bill_label: String,
    pub tone: Tone,
}

/// The attribution of the element at `path`: that of the first annotation
/// that names it, where there is one.
pub open spec fn blame_of(s: AppState, path: Seq<char>) -> Option<(Seq<char>, Tone)> {
    match s.dataset {
        None => None,
        Some(d) => match first_annotation(d, path) {
            None => None,
            Some(a) => Some((replace_char(a.bill_id@, '-', '·'), sponsor_tone(d, a.bill_id@))),
        },
    }
}

/// The tooltip over the attribution gutter.
#[derive(Debug)]
pub enum BlameTooltip {
    NoData,
    NoAnnotation,
    /// The head line, the short status, and the start of the causative
    /// text where there is one.
    Summary { header: String, status: &'static str, preview: Option<String> },
}

/// The tooltip shows the first annotation of the element at `path`.
pub open spec fn tooltip_shows(t: BlameTooltip, s: AppState, path: Seq<char>) -> bool {
    match s.dataset {
        None => t is NoData,
        Some(d) => match first_annotation(d, path) {
            None => t is NoAnnotation,
            Some(a) => t matches BlameTooltip::Summary { header, status, preview } && header@
                == dash_joined(a.bill_id@, operation_text(a.operation)) && status@ == status_short_text(
                a.status,
            ) && opt_view(preview) == (if a.causative_text@.len() == 0 {
                None
            } else {
                Some(preview_text(a.causative_text@))
            }),
        },
    }
}

/// Everything that the detail pane tells of an annotation.
#[derive(Debug)]
pub struct AnnotationDetail {
    pub header: String,
    pub status: &'static str,
    pub status_tone: Tone,
    pub causative_text: Option<String>,
    pub confidence: Option<String>,
    pub annotator: String,
    pub reasoning: Option<String>,
    pub notes: Option<String>,
}

/// The detail pane of the attribution of an element.
#[derive(Debug)]
pub enum BlameDetail {
    NoDataset,
    NoAnnotation,
    Detail(AnnotationDetail),
}

/// The detail tells the annotation `a`.
pub open spec fn detail_tells(x: AnnotationDetail, a: ChangeAnnotation) -> bool {
    &&& x.header@ == dash_joined(a.bill_id@, operation_text(a.operation))
    &&& x.status@ == status_text(a.status)
    &&& x.status_tone == status_tone_spec(a.status)
    &&& opt_view(x.causative_text) == (if a.causative_text@.len() == 0 {
        None
    } else {
        Some(a.causative_text@)
    })
    &&& opt_view(x.confidence) == match a.confidence_percent {
        Some(c) => Some("Confidence: "@ + c@ + "%"@),
        None => None,
    }
    &&& x.annotator@ == "Annotator: "@ + a.annotator@
    &&& opt_view(x.reasoning) == opt_view(a.reasoning)
    &&& opt_view(x.notes) == opt_view(a.notes)
}

/// The detail pane shows the first annotation of the element at `path`.
pub open spec fn detail_shows(x: BlameDetail, s: AppState, path: Seq<char>) -> bool {
    match s.dataset {
        None => x is NoDataset,
        Some(d) => match first_annotation(d, path) {
            None => x is NoAnnotation,
            Some(a) => x matches BlameDetail::Detail(det) && detail_tells(det, a),
        },
    }
}

fn copy_opt(o: &Option<String>) -> (r: Option<String>)
    ensures
        opt_view(r) == opt_view(*o),
{
    match o {
        Some(t) => Some(t.clone()),
        None => None,
    }
}

/// `prefix`, then `t`, then `suffix`.
fn framed(prefix: &str, t: &String, suffix: &str) -> (r: String)
    ensures
        r@ == prefix@ + t@ + suffix@,
{
    let mut r = String::from_str(prefix);
    r.append(t.as_str());
    r.append(suffix);
    r
}

/// `prefix`, then `t`.
fn prefixed(prefix: &str, t: &String) -> (r: String)
    ensures
        r@ == prefix@ + t@,
{
    let mut r = String::from_str(prefix);
    r.append(t.as_str());
    r
}

impl AppState {
    /// The attribution of the element at `path`, for the gutter of the
    /// reading pane.
    pub fn get_blame_for_path(&self, path: &String) -> (r: Option<Blame>)
        ensures
            match r {
                Some(b) => blame_of(*self, path@) == Some((b.bill_label@, b.tone)),
                None => blame_of(*self, path@) is None,
            },
    {
        let dataset = match &self.dataset {
            Some(d) => d,
            None => return None,
        };
        let annotations = dataset.annotations_for_path(path);
        if annotations.len() == 0 {
            return None;
        }
        let ann = annotations[0];
        proof {
            assert(annotations@.map_values(|a: &ChangeAnnotation| *a)[0] == *ann);
        }
        let label = replace_all(&ann.bill_id, '-', '·');
        let tone = match dataset.get_sponsor_info(&ann.bill_id) {
            Some(info) => match dataset.get_member(&info.sponsor) {
                Some(member) => match &member.party {
                    Party::Republican => Tone::PartyRepublican,
                    Party::Democrat => Tone::PartyDemocrat,
                    Party::Independent => Tone::PartyIndependent,
                    Party::Other(_) => Tone::PartyIndependent,
                },
                None => Tone::TextSecondary,
            },
            None => Tone::TextSecondary,
        };
        Some(Blame { bill_label: label, tone })
    }

    /// The tooltip over the attribution gutter of the element at `path`.
    pub fn build_blame_tooltip(&self, path: &String) -> (t: BlameTooltip)
        ensures
            tooltip_shows(t, *self, path@),
    {
        let dataset = match &self.dataset {
            Some(d) => d,
            None => return BlameTooltip::NoData,
        };
        let annotations = dataset.annotations_for_path(path);
        if annotations.len() == 0 {
            return BlameTooltip::NoAnnotation;
        }
        let ann = annotations[0];
        proof {
            assert(annotations@.map_values(|a: &ChangeAnnotation| *a)[0] == *ann);
        }
        let preview = if ann.causative_text.as_str().is_empty() {
            None
        } else {
            Some(causative_preview(&ann.causative_text))
        };
        BlameTooltip::Summary {
            header: annotation_header(ann),
            status: status_short_label(ann.status),
            preview,
        }
    }

    /// The detail pane of the attribution of the element at `path`.
    pub fn render_blame_detail(&self, path: &String) -> (x: BlameDetail)
        ensures
            detail_shows(x, *self, path@),
    {
        let dataset = match &self.dataset {
            Some(d) => d,
            None => return BlameDetail::NoDataset,
        };
        let annotations = dataset.annotations_for_path(path);
        if annotations.len() == 0 {
            return BlameDetail::NoAnnotation;
        }
        let ann = annotations[0];
        proof {
            assert(annotations@.map_values(|a: &ChangeAnnotation| *a)[0] == *ann);
        }
        let causative_text = if ann.causative_text.as_str().is_empty() {
            None
        } else {
            Some(ann.causative_text.clone())
        };
        let confidence = match &ann.confidence_percent {
            Some(c) => Some(framed("Confidence: ", c, "%")),
            None => None,
        };
        BlameDetail::Detail(AnnotationDetail {
            header: annotation_header(ann),
            status: status_label(ann.status),
            status_tone: status_tone(ann.status),
            causative_text,
            confidence,
            annotator: prefixed("Annotator: ", &ann.annotator),
            reasoning: copy_opt(&ann.reasoning),
            notes: copy_opt(&ann.notes),
        })
    }
}

/// At a version that has a previous one, the tree marks the document's
/// root element changed where one of its fields reads differently from the
/// previous version or the set of its children changed.
pub proof fn law_changed_root_is_marked(s: AppState)
    requires
        s.wf(),
        has_previous(s, s.selected_version_index as int),
        ({
            let vs = s.dataset->0.versions@;
            let i = s.selected_version_index as int;
            fields_differ(vs[i - 1].element, vs[i].element) || child_path_set(vs[i - 1].element)
                != child_path_set(vs[i].element)
        }),
    ensures
        badge_of(s, s.dataset->0.versions@[s.selected_version_index as int].element) == Badge::Changed,
{
    let vs = s.dataset->0.versions@;
    let i = s.selected_version_index as int;
    let d = s.current_diff->0;
    law_root_changed_iff_text_or_children(d, vs[i - 1].element, vs[i].element);
    assert(changed_in(d, d.root_path@));
    assert(s.changed_paths@.contains(d.root_path@));
}

/// The attribution of a changed element names the bill of the first
/// annotation that names the element (its `-` written as `·`), in the color
/// of its sponsor's own party: Democrats in the Democratic color,
/// Republicans in the Republican one, independents and other parties in
/// the independent one; where the dataset knows no sponsor or no member for
/// the bill, in the secondary text color.
pub proof fn law_gutter_color_is_the_sponsors_party(s: AppState, path: Seq<char>, label: Seq<char>, tone: Tone)
    requires
        blame_of(s, path) == Some((label, tone)),
    ensures
        s.dataset is Some,
        annotations_on_path(s.dataset->0.diff_annotations@, path).len() > 0,
        ({
            let d = s.dataset->0;
            let a = annotations_on_path(d.diff_annotations@, path)[0];
            &&& label == replace_char(a.bill_id@, '-', '·')
            &&& match sponsor_lookup(d.sponsors@, a.bill_id@) {
                None => tone == Tone::TextSecondary,
                Some(info) => match member_lookup(d.members@, info.sponsor@) {
                    None => tone == Tone::TextSecondary,
                    Some(m) => {
                        &&& m.party is Democrat ==> tone == Tone::PartyDemocrat
                        &&& m.party is Republican ==> tone == Tone::PartyRepublican
                        &&& (m.party is Independent || m.party is Other) ==> tone == Tone::PartyIndependent
                    },
                },
            }
        }),
{
}

/// The detail pane shows the annotation's causative text, as it is, exactly
/// when that text is not empty; the tooltip shows its start under the same
/// condition: all of it where it has at most 100 characters, else its first
/// 100 characters and `...`.
pub proof fn law_causative_text_shown_when_present(x: BlameDetail, t: BlameTooltip, s: AppState, path: Seq<char>)
    requires
        detail_shows(x, s, path),
        tooltip_shows(t, s, path),
    ensures
        x matches BlameDetail::Detail(det) ==> ({
            let a = annotations_on_path(s.dataset->0.diff_annotations@, path)[0];
            &&& a.causative_text@.len() > 0 ==> det.causative_text is Some
                && det.causative_text->0@ == a.causative_text@
            &&& a.causative_text@.len() == 0 ==> det.causative_text is None
        }),
        t matches BlameTooltip::Summary { preview, .. } ==> ({
            let a = annotations_on_path(s.dataset->0.diff_annotations@, path)[0];
            &&& a.causative_text@.len() == 0 ==> preview is None
            &&& 0 < a.causative_text@.len() <= 100 ==> preview is Some && preview->0@ == a.causative_text@
            &&& a.causative_text@.len() > 100 ==> preview is Some && preview->0@.len() == 103
                && preview->0@.take(100) == a.causative_text@.take(100)
        }),
{
    if let BlameTooltip::Summary { preview, .. } = t {
        let a = annotations_on_path(s.dataset->0.diff_annotations@, path)[0];
        if a.causative_text@.len() > 100 {
            assert((a.causative_text@.take(100) + "..."@).take(100) =~= a.causative_text@.take(100)) by {
                reveal_strlit("...");
            }
            reveal_strlit("...");
        }
    }
}

/// A row of the tree names its element by its number where it has one and
/// else by its long name, is selected exactly when its path is the selected
/// path, shows an expander exactly when the element has children (open
/// exactly when the path is expanded), and is marked changed exactly when
/// its path is among the changed paths.
pub proof fn law_tree_row_shows_the_node(r: TreeRow, s: AppState, n: ElementNode)
    requires
        row_shows(r, s, n),
    ensures
        r.path@ == n.path@,
        n.number_display@.len() > 0 ==> r.label@ == n.number_display@,
        n.number_display@.len() == 0 ==> r.label@ == n.verbose_name@,
        r.selected <==> (s.selected_path is Some && s.selected_path->0@ == n.path@),
        (r.expander is Leaf) <==> n.children@.len() == 0,
        (r.expander is Expanded) <==> (n.children@.len() > 0 && s.tree_expanded@.contains(n.path@)),
        (r.badge is Changed) <==> s.changed_paths@.contains(n.path@),
        r.badge is ChangesBelow ==> !s.tree_expanded@.contains(n.path@) && exists|q: Seq<char>|
            s.changed_paths@.contains(q) && q != n.path@ && is_prefix(n.path@.push('/'), q),
{
    if r.badge is ChangesBelow {
        let q = choose|q: Seq<char>| s.changed_paths@.contains(q) && at_or_below(n.path@, q);
        assert(q != n.path@);
    }
}

} // verus!
