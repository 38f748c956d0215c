//! The dataset that the viewer shows: versions of an element tree, the
//! annotations that tie changes to bills, and the members of Congress who
//! sponsored them, held as plain values.
use vstd::prelude::*;
use crate::text::{
    ends_with, is_prefix, lemma_suffix_matches_bounded, second_piece, step_toward, suffix_matches,
    views, PathStep,
};

verus! {

/// The result of a lookup by path in a tree: the node, no such node, or a
/// path on which the lookup stops with a failed check (the tree's own
/// lookup asserts that the rest of the path holds a separator and that
/// exactly one child matches it).
pub enum Lookup<T> {
    Found(T),
    Missing,
    Invalid,
}

/// One element of a legal document with its text fields and children.
#[derive(Debug)]
pub struct ElementNode {
    pub path: String,
    pub number_display: String,
    pub verbose_name: String,
    pub heading: Option<String>,
    pub chapeau: Option<String>,
    pub proviso: Option<String>,
    pub content: Option<String>,
    pub continuation: Option<String>,
    pub children: Vec<ElementNode>,
}

/// The text of an optional string, empty where there is none.
pub open spec fn opt_text(o: Option<String>) -> Seq<char> {
    match o {
        Some(t) => t@,
        None => Seq::empty(),
    }
}

/// The paths of the children of `node`.
pub open spec fn child_paths(node: ElementNode) -> Seq<Seq<char>> {
    node.children@.map_values(|c: ElementNode| c.path@)
}

/// The lookup of `path` in the tree under `node`: the node whose path it is,
/// reached by following, at each level, the one child whose path ends with
/// the next piece of the path.
pub open spec fn element_find(node: ElementNode, path: Seq<char>) -> Lookup<ElementNode>
    decreases node,
{
    if path == node.path@ {
        Lookup::Found(node)
    } else if !is_prefix(node.path@, path) {
        Lookup::Missing
    } else {
        match second_piece(path.skip(node.path@.len() as int)) {
            None => Lookup::Invalid,
            Some(id) => {
                let m = suffix_matches(child_paths(node), id);
                if m.len() == 0 {
                    Lookup::Missing
                } else if m.len() > 1 {
                    Lookup::Invalid
                } else {
                    proof {
                        lemma_suffix_matches_bounded(child_paths(node), id);
                    }
                    element_find(node.children@[m[0]], path)
                }
            },
        }
    }
}

/// Counts the children of `children` whose path ends with `id`, and gives
/// the index of the first one.
fn count_suffix_matches(children: &Vec<ElementNode>, id: &String) -> (r: (usize, usize))
    ensures
        ({
            let m = suffix_matches(children@.map_values(|c: ElementNode| c.path@), id@);
            &&& r.0 == m.len()
            &&& r.0 > 0 ==> r.1 == m[0]
        }),
{
    let ghost paths = children@.map_values(|c: ElementNode| c.path@);
    let mut count: usize = 0;
    let mut first: usize = 0;
    let mut i: usize = 0;
    while i < children.len()
        invariant
            i <= children.len(),
            paths == children@.map_values(|c: ElementNode| c.path@),
            count == suffix_matches(paths.take(i as int), id@).len(),
            count > 0 ==> first == suffix_matches(paths.take(i as int), id@)[0],
            count <= i,
        decreases children.len() - i,
    {
        proof {
            assert(paths.take(i + 1).drop_last() =~= paths.take(i as int));
            assert(paths.take(i + 1).last() == children@[i as int].path@);
        }
        if ends_with(&children[i].path, id) {
            if count == 0 {
                first = i;
            }
            count = count + 1;
        }
        i = i + 1;
    }
    proof {
        assert(paths.take(children.len() as int) =~= paths);
    }
    (count, first)
}

/// Finds the element whose path is `path` in the tree under `node`.
pub fn find<'a>(node: &'a ElementNode, path: &String) -> (r: Lookup<&'a ElementNode>)
    ensures
        match r {
            Lookup::Found(e) => element_find(*node, path@) == Lookup::Found(*e),
            Lookup::Missing => element_find(*node, path@) == Lookup::<ElementNode>::Missing,
            Lookup::Invalid => element_find(*node, path@) == Lookup::<ElementNode>::Invalid,
        },
    decreases node,
{
    match step_toward(&node.path, path) {
        PathStep::Here => Lookup::Found(node),
        PathStep::Outside => Lookup::Missing,
        PathStep::NoSeparator => Lookup::Invalid,
        PathStep::Child(id) => {
            let (count, first) = count_suffix_matches(&node.children, &id);
            if count == 0 {
                Lookup::Missing
            } else if count > 1 {
                Lookup::Invalid
            } else {
                proof {
                    lemma_suffix_matches_bounded(child_paths(*node), id@);
                }
                find(&node.children[first], path)
            }
        },
    }
}


/// The kind of legal operation by which a bill changed the text.
#[derive(Clone, Copy, Debug, PartialEq, Eq, Structural)]
pub enum AmendingAction {
    Amend,
    Add,
    Delete,
    Insert,
    Redesignate,
    Repeal,
    Move,
    Strike,
    StrikeAndInsert,
}

/// How far an annotation has been reviewed.
#[derive(Clone, Copy, Debug, PartialEq, Eq, Structural)]
pub enum AnnotationStatus {
    Pending,
    Verified,
    Disputed,
    Rejected,
}

/// An annotation that ties a change of the text to the bill that made it.
#[derive(Debug)]
pub struct ChangeAnnotation {
    pub operation: AmendingAction,
    pub bill_id: String,
    pub causative_text: String,
    /// The paths of the elements whose change the annotation explains.
    pub paths: Vec<String>,
    pub status: AnnotationStatus,
    /// The confidence as a whole percentage, written out in decimal digits.
    pub confidence_percent: Option<String>,
    pub annotator: String,
    pub notes: Option<String>,
    pub reasoning: Option<String>,
}

/// The annotations of the changes between two versions, by their dates.
#[derive(Debug)]
pub struct AnnotationGroup {
    pub from_date: String,
    pub to_date: String,
    pub annotations: Vec<ChangeAnnotation>,
}

/// A member's party.
#[derive(Debug)]
pub enum Party {
    Democrat,
    Republican,
    Independent,
    Other(String),
}

/// A member of Congress.
#[derive(Debug)]
pub struct Member {
    pub bioguide_id: String,
    pub party: Party,
}

/// Who sponsored a bill.
#[derive(Debug)]
pub struct SponsorInfo {
    pub bill_id: String,
    pub sponsor: String,
}

/// The element tree as it stood at one date.
#[derive(Debug)]
pub struct VersionSnapshot {
    pub date: String,
    pub label: Option<String>,
    pub element: ElementNode,
}

/// Versions of a document in date order, with the annotations between
/// versions and the members who sponsored the bills.
#[derive(Debug)]
pub struct Dataset {
    pub versions: Vec<VersionSnapshot>,
    pub diff_annotations: Vec<AnnotationGroup>,
    pub members: Vec<Member>,
    pub sponsors: Vec<SponsorInfo>,
}

/// The annotation names the element at `path` among its paths.
pub open spec fn annotation_covers(a: ChangeAnnotation, path: Seq<char>) -> bool {
    views(a.paths@).contains(path)
}

/// All annotations of `groups` that name `path`, group by group.
pub open spec fn annotations_on_path(groups: Seq<AnnotationGroup>, path: Seq<char>) -> Seq<
    ChangeAnnotation,
>
    decreases groups.len(),
{
    if groups.len() == 0 {
        Seq::empty()
    } else {
        annotations_on_path(groups.drop_last(), path) + groups.last().annotations@.filter(
            |a: ChangeAnnotation| annotation_covers(a, path),
        )
    }
}

fn covers(a: &ChangeAnnotation, path: &String) -> (b: bool)
    ensures
        b == annotation_covers(*a, path@),
{
    let mut i: usize = 0;
    while i < a.paths.len()
        invariant
            i <= a.paths@.len(),
            forall|j: int| 0 <= j < i ==> #[trigger] a.paths@[j]@ != path@,
        decreases a.paths.len() - i,
    {
        if a.paths[i] == *path {
            assert(views(a.paths@)[i as int] == path@);
            return true;
        }
        i = i + 1;
    }
    proof {
        if views(a.paths@).contains(path@) {
            let k = choose|k: int| 0 <= k < views(a.paths@).len() && views(a.paths@)[k] == path@;
            assert(a.paths@[k]@ == path@);
        }
    }
    false
}

/// The first group of `groups` that holds the annotations between `from` and `to`.
pub open spec fn group_lookup(groups: Seq<AnnotationGroup>, from: Seq<char>, to: Seq<char>) -> Option<
    AnnotationGroup,
>
    decreases groups.len(),
{
    if groups.len() == 0 {
        None
    } else if groups[0].from_date@ == from && groups[0].to_date@ == to {
        Some(groups[0])
    } else {
        group_lookup(groups.drop_first(), from, to)
    }
}

/// The first sponsor record of `sponsors` for the bill `bill`.
pub open spec fn sponsor_lookup(sponsors: Seq<SponsorInfo>, bill: Seq<char>) -> Option<SponsorInfo>
    decreases sponsors.len(),
{
    if sponsors.len() == 0 {
        None
    } else if sponsors[0].bill_id@ == bill {
        Some(sponsors[0])
    } else {
        sponsor_lookup(sponsors.drop_first(), bill)
    }
}

/// The first member of `members` whose bioguide id is `id`.
pub open spec fn member_lookup(members: Seq<Member>, id: Seq<char>) -> Option<Member>
    decreases members.len(),
{
    if members.len() == 0 {
        None
    } else if members[0].bioguide_id@ == id {
        Some(members[0])
    } else {
        member_lookup(members.drop_first(), id)
    }
}

/// No two places of `ks` hold the same key.
pub open spec fn keys_distinct<K>(ks: Seq<K>) -> bool {
    forall|i: int, j: int| 0 <= i < j < ks.len() ==> #[trigger] ks[i] != #[trigger] ks[j]
}

/// The pairs of dates of the annotation groups.
pub open spec fn group_keys(gs: Seq<AnnotationGroup>) -> Seq<(Seq<char>, Seq<char>)> {
    gs.map_values(|g: AnnotationGroup| (g.from_date@, g.to_date@))
}

/// The ids of the members.
pub open spec fn member_keys(ms: Seq<Member>) -> Seq<Seq<char>> {
    ms.map_values(|m: Member| m.bioguide_id@)
}

/// The bills of the sponsor records.
pub open spec fn sponsor_keys(ss: Seq<SponsorInfo>) -> Seq<Seq<char>> {
    ss.map_values(|s: SponsorInfo| s.bill_id@)
}

fn group_keys_distinct(gs: &Vec<AnnotationGroup>) -> (b: bool)
    ensures
        b == keys_distinct(group_keys(gs@)),
{
    let ghost ks = group_keys(gs@);
    let mut i: usize = 0;
    while i < gs.len()
        invariant
            ks == group_keys(gs@),
            i <= gs@.len(),
            forall|a: int, c: int| 0 <= a < c < ks.len() && a < i ==> #[trigger] ks[a] != #[trigger] ks[c],
        decreases gs.len() - i,
    {
        let mut j: usize = i + 1;
        while j < gs.len()
            invariant
                ks == group_keys(gs@),
                i < gs@.len(),
                i + 1 <= j <= gs@.len(),
                forall|a: int, c: int| 0 <= a < c < ks.len() && a < i ==> #[trigger] ks[a] != #[trigger] ks[c],
                forall|c: int| i < c < j ==> ks[i as int] != #[trigger] ks[c],
            decreases gs.len() - j,
        {
            if gs[i].from_date == gs[j].from_date && gs[i].to_date == gs[j].to_date {
                assert(ks[i as int] == ks[j as int]);
                return false;
            }
            j = j + 1;
        }
        i = i + 1;
    }
    true
}

fn strings_distinct(v: &Vec<&String>) -> (b: bool)
    ensures
        b == keys_distinct(v@.map_values(|s: &String| s@)),
{
    let ghost ks = v@.map_values(|s: &String| s@);
    let mut i: usize = 0;
    while i < v.len()
        invariant
            ks == v@.map_values(|s: &String| s@),
            i <= v@.len(),
            forall|a: int, c: int| 0 <= a < c < ks.len() && a < i ==> #[trigger] ks[a] != #[trigger] ks[c],
        decreases v.len() - i,
    {
        let mut j: usize = i + 1;
        while j < v.len()
            invariant
                ks == v@.map_values(|s: &String| s@),
                i < v@.len(),
                i + 1 <= j <= v@.len(),
                forall|a: int, c: int| 0 <= a < c < ks.len() && a < i ==> #[trigger] ks[a] != #[trigger] ks[c],
                forall|c: int| i < c < j ==> ks[i as int] != #[trigger] ks[c],
            decreases v.len() - j,
        {
            if *v[i] == *v[j] {
                assert(ks[i as int] == ks[j as int]);
                return false;
            }
            j = j + 1;
        }
        i = i + 1;
    }
    true
}

impl Dataset {
    /// Each key is held once: one annotation group per pair of dates, one
    /// member per id, one sponsor record per bill (the dataset keeps each of
    /// them in a map by that key).
    pub open spec fn keys_unique(&self) -> bool {
        &&& keys_distinct(group_keys(self.diff_annotations@))
        &&& keys_distinct(member_keys(self.members@))
        &&& keys_distinct(sponsor_keys(self.sponsors@))
    }

    /// Whether each key is held once (see `keys_unique`).
    pub fn has_unique_keys(&self) -> (b: bool)
        ensures
            b == self.keys_unique(),
    {
        if !group_keys_distinct(&self.diff_annotations) {
            return false;
        }
        let mut ids: Vec<&String> = Vec::new();
        let mut i: usize = 0;
        while i < self.members.len()
            invariant
                i <= self.members@.len(),
                ids@.map_values(|s: &String| s@) == member_keys(self.members@).take(i as int),
            decreases self.members.len() - i,
        {
            let ghost before = ids@;
            ids.push(&self.members[i].bioguide_id);
            proof {
                assert(ids@ =~= before.push(&self.members@[i as int].bioguide_id));
                assert(member_keys(self.members@).take(i + 1) =~= member_keys(self.members@).take(
                    i as int,
                ).push(self.members@[i as int].bioguide_id@));
                assert(ids@.map_values(|s: &String| s@) =~= before.map_values(|s: &String| s@).push(
                    self.members@[i as int].bioguide_id@,
                ));
            }
            i = i + 1;
        }
        assert(member_keys(self.members@).take(self.members@.len() as int) =~= member_keys(self.members@));
        if !strings_distinct(&ids) {
            return false;
        }
        let mut bills: Vec<&String> = Vec::new();
        let mut k: usize = 0;
        while k < self.sponsors.len()
            invariant
                k <= self.sponsors@.len(),
                bills@.map_values(|s: &String| s@) == sponsor_keys(self.sponsors@).take(k as int),
            decreases self.sponsors.len() - k,
        {
            let ghost before = bills@;
            bills.push(&self.sponsors[k].bill_id);
            proof {
                assert(bills@ =~= before.push(&self.sponsors@[k as int].bill_id));
                assert(sponsor_keys(self.sponsors@).take(k + 1) =~= sponsor_keys(self.sponsors@).take(
                    k as int,
                ).push(self.sponsors@[k as int].bill_id@));
                assert(bills@.map_values(|s: &String| s@) =~= before.map_values(|s: &String| s@).push(
                    self.sponsors@[k as int].bill_id@,
                ));
            }
            k = k + 1;
        }
        assert(sponsor_keys(self.sponsors@).take(self.sponsors@.len() as int) =~= sponsor_keys(self.sponsors@));
        strings_distinct(&bills)
    }

    /// The annotations of the changes from the version dated `from` to the
    /// one dated `to`; `None` where the dataset holds none for that pair.
    pub fn get_annotations(&self, from: &String, to: &String) -> (r: Option<&Vec<ChangeAnnotation>>)
        ensures
            match r {
                Some(v) => group_lookup(self.diff_annotations@, from@, to@) matches Some(g) && g.annotations == *v,
                None => group_lookup(self.diff_annotations@, from@, to@) is None,
            },
    {
        let mut i: usize = 0;
        assert(self.diff_annotations@.skip(0) =~= self.diff_annotations@);
        while i < self.diff_annotations.len()
            invariant
                i <= self.diff_annotations@.len(),
                group_lookup(self.diff_annotations@, from@, to@) == group_lookup(
                    self.diff_annotations@.skip(i as int),
                    from@,
                    to@,
                ),
            decreases self.diff_annotations.len() - i,
        {
            let g = &self.diff_annotations[i];
            assert(self.diff_annotations@.skip(i as int)[0] == *g);
            if g.from_date == *from && g.to_date == *to {
                return Some(&g.annotations);
            }
            assert(self.diff_annotations@.skip(i as int).drop_first() =~= self.diff_annotations@.skip(
                i + 1,
            ));
            i = i + 1;
        }
        None
    }

    /// Every annotation that names the element at `path`, group by group.
    pub fn annotations_for_path(&self, path: &String) -> (r: Vec<&ChangeAnnotation>)
        ensures
            r@.map_values(|a: &ChangeAnnotation| *a) == annotations_on_path(self.diff_annotations@, path@),
    {
        let ghost groups = self.diff_annotations@;
        let mut out: Vec<&ChangeAnnotation> = Vec::new();
        let mut i: usize = 0;
        assert(out@.map_values(|a: &ChangeAnnotation| *a) =~= annotations_on_path(groups.take(0), path@));
        while i < self.diff_annotations.len()
            invariant
                groups == self.diff_annotations@,
                i <= groups.len(),
                out@.map_values(|a: &ChangeAnnotation| *a) == annotations_on_path(groups.take(i as int), path@),
            decreases self.diff_annotations.len() - i,
        {
            let g = &self.diff_annotations[i];
            let ghost pred = |a: ChangeAnnotation| annotation_covers(a, path@);
            let ghost before = out@.map_values(|a: &ChangeAnnotation| *a);
            let mut j: usize = 0;
            assert(g.annotations@.take(0).filter(pred) =~= Seq::<ChangeAnnotation>::empty());
            assert(before + g.annotations@.take(0).filter(pred) =~= before);
            while j < g.annotations.len()
                invariant
                    pred == (|a: ChangeAnnotation| annotation_covers(a, path@)),
                    j <= g.annotations@.len(),
                    out@.map_values(|a: &ChangeAnnotation| *a) == before + g.annotations@.take(j as int).filter(pred),
                decreases g.annotations.len() - j,
            {
                let a = &g.annotations[j];
                let ghost s1 = g.annotations@.take(j + 1);
                proof {
                    assert(s1.drop_last() =~= g.annotations@.take(j as int));
                    assert(s1.last() == *a);
                    assert(s1.len() > 0);
                    reveal(Seq::filter);
                    assert(s1.filter(pred) == (if pred(s1.last()) {
                        s1.drop_last().filter(pred).push(s1.last())
                    } else {
                        s1.drop_last().filter(pred)
                    }));
                    assert(pred(*a) == annotation_covers(*a, path@));
                }
                if covers(a, path) {
                    let ghost prev = out@;
                    out.push(a);
                    proof {
                        assert(out@.map_values(|a: &ChangeAnnotation| *a) =~= prev.map_values(
                            |a: &ChangeAnnotation| *a,
                        ).push(*a));
                        assert(before + g.annotations@.take(j + 1).filter(pred) =~= (before
                            + g.annotations@.take(j as int).filter(pred)).push(*a));
                    }
                } else {
                    assert(g.annotations@.take(j + 1).filter(pred) =~= g.annotations@.take(
                        j as int,
                    ).filter(pred));
                }
                j = j + 1;
            }
            proof {
                assert(g.annotations@.take(g.annotations@.len() as int) =~= g.annotations@);
                assert(groups.take(i + 1).drop_last() =~= groups.take(i as int));
                assert(groups.take(i + 1).last() == *g);
            }
            i = i + 1;
        }
        proof {
            assert(groups.take(groups.len() as int) =~= groups);
        }
        out
    }

    /// Who sponsored the bill `bill_id`; `None` where the dataset does not say.
    pub fn get_sponsor_info(&self, bill_id: &String) -> (r: Option<&SponsorInfo>)
        ensures
            match r {
                Some(info) => sponsor_lookup(self.sponsors@, bill_id@) == Some(*info),
                None => sponsor_lookup(self.sponsors@, bill_id@) is None,
            },
    {
        let mut i: usize = 0;
        assert(self.sponsors@.skip(0) =~= self.sponsors@);
        while i < self.sponsors.len()
            invariant
                i <= self.sponsors@.len(),
                sponsor_lookup(self.sponsors@, bill_id@) == sponsor_lookup(self.sponsors@.skip(i as int), bill_id@),
            decreases self.sponsors.len() - i,
        {
            assert(self.sponsors@.skip(i as int)[0] == self.sponsors@[i as int]);
            if self.sponsors[i].bill_id == *bill_id {
                return Some(&self.sponsors[i]);
            }
            assert(self.sponsors@.skip(i as int).drop_first() =~= self.sponsors@.skip(i + 1));
            i = i + 1;
        }
        None
    }

    /// The member whose bioguide id is `id`; `None` where the dataset has none.
    pub fn get_member(&self, id: &String) -> (r: Option<&Member>)
        ensures
            match r {
                Some(m) => member_lookup(self.members@, id@) == Some(*m),
                None => member_lookup(self.members@, id@) is None,
            },
    {
        let mut i: usize = 0;
        assert(self.members@.skip(0) =~= self.members@);
        while i < self.members.len()
            invariant
                i <= self.members@.len(),
                member_lookup(self.members@, id@) == member_lookup(self.members@.skip(i as int), id@),
            decreases self.members.len() - i,
        {
            assert(self.members@.skip(i as int)[0] == self.members@[i as int]);
            if self.members[i].bioguide_id == *id {
                return Some(&self.members[i]);
            }
            assert(self.members@.skip(i as int).drop_first() =~= self.members@.skip(i + 1));
            i = i + 1;
        }
        None
    }
}

proof fn lemma_sponsor_lookup_finds(ss: Seq<SponsorInfo>, bill: Seq<char>, k: int)
    requires
        keys_distinct(sponsor_keys(ss)),
        0 <= k < ss.len(),
        ss[k].bill_id@ == bill,
    ensures
        sponsor_lookup(ss, bill) == Some(ss[k]),
    decreases k,
{
    if k > 0 {
        assert(sponsor_keys(ss)[0] != sponsor_keys(ss)[k]);
        let rest = ss.drop_first();
        assert forall|i: int, j: int| 0 <= i < j < sponsor_keys(rest).len() implies #[trigger] sponsor_keys(rest)[i]
            != #[trigger] sponsor_keys(rest)[j] by {
            assert(sponsor_keys(ss)[i + 1] != sponsor_keys(ss)[j + 1]);
        }
        lemma_sponsor_lookup_finds(rest, bill, k - 1);
    }
}

proof fn lemma_member_lookup_finds(ms: Seq<Member>, id: Seq<char>, k: int)
    requires
        keys_distinct(member_keys(ms)),
        0 <= k < ms.len(),
        ms[k].bioguide_id@ == id,
    ensures
        member_lookup(ms, id) == Some(ms[k]),
    decreases k,
{
    if k > 0 {
        assert(member_keys(ms)[0] != member_keys(ms)[k]);
        let rest = ms.drop_first();
        assert forall|i: int, j: int| 0 <= i < j < member_keys(rest).len() implies #[trigger] member_keys(rest)[i]
            != #[trigger] member_keys(rest)[j] by {
            assert(member_keys(ms)[i + 1] != member_keys(ms)[j + 1]);
        }
        lemma_member_lookup_finds(rest, id, k - 1);
    }
}

proof fn lemma_group_lookup_finds(gs: Seq<AnnotationGroup>, from: Seq<char>, to: Seq<char>, k: int)
    requires
        keys_distinct(group_keys(gs)),
        0 <= k < gs.len(),
        gs[k].from_date@ == from,
        gs[k].to_date@ == to,
    ensures
        group_lookup(gs, from, to) == Some(gs[k]),
    decreases k,
{
    if k > 0 {
        assert(group_keys(gs)[0] != group_keys(gs)[k]);
        let rest = gs.drop_first();
        assert forall|i: int, j: int| 0 <= i < j < group_keys(rest).len() implies #[trigger] group_keys(rest)[i]
            != #[trigger] group_keys(rest)[j] by {
            assert(group_keys(gs)[i + 1] != group_keys(gs)[j + 1]);
        }
        lemma_group_lookup_finds(rest, from, to, k - 1);
    }
}

/// In a dataset whose keys are unique, a lookup by key finds the one record
/// that holds the key, as a lookup in a map by that key does.
pub proof fn law_lookups_find_the_keyed_record(d: Dataset)
    requires
        d.keys_unique(),
    ensures
        forall|k: int|
            0 <= k < d.sponsors@.len() ==> sponsor_lookup(d.sponsors@, #[trigger] d.sponsors@[k].bill_id@)
                == Some(d.sponsors@[k]),
        forall|k: int|
            0 <= k < d.members@.len() ==> member_lookup(d.members@, #[trigger] d.members@[k].bioguide_id@)
                == Some(d.members@[k]),
        forall|k: int|
            0 <= k < d.diff_annotations@.len() ==> group_lookup(
                d.diff_annotations@,
                #[trigger] d.diff_annotations@[k].from_date@,
                d.diff_annotations@[k].to_date@,
            ) == Some(d.diff_annotations@[k]),
{
    assert forall|k: int| 0 <= k < d.sponsors@.len() implies sponsor_lookup(
        d.sponsors@,
        #[trigger] d.sponsors@[k].bill_id@,
    ) == Some(d.sponsors@[k]) by {
        lemma_sponsor_lookup_finds(d.sponsors@, d.sponsors@[k].bill_id@, k);
    }
    assert forall|k: int| 0 <= k < d.members@.len() implies member_lookup(
        d.members@,
        #[trigger] d.members@[k].bioguide_id@,
    ) == Some(d.members@[k]) by {
        lemma_member_lookup_finds(d.members@, d.members@[k].bioguide_id@, k);
    }
    assert forall|k: int| 0 <= k < d.diff_annotations@.len() implies group_lookup(
        d.diff_annotations@,
        #[trigger] d.diff_annotations@[k].from_date@,
        d.diff_annotations@[k].to_date@,
    ) == Some(d.diff_annotations@[k]) by {
        lemma_group_lookup_finds(
            d.diff_annotations@,
            d.diff_annotations@[k].from_date@,
            d.diff_annotations@[k].to_date@,
            k,
        );
    }
}

} // verus!
