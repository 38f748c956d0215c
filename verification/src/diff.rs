//! The difference between two versions of an element tree, as the viewer
//! reads it: which fields of which elements changed, word by word, and
//! which elements came or went.
use vstd::prelude::*;
use crate::model::{child_paths, opt_text, ElementNode, Lookup};
use crate::pathset::PathSet;
use crate::text::{
    ends_with, is_prefix, lemma_suffix_matches_bounded, second_piece, step_toward, suffix_matches,
    views, PathStep,
};
use words_to_data::diff::{FieldChangeEvent, TreeDiff};
use words_to_data::uslm::{DocumentType, ElementData, ElementType, USCType, USLMElement};

verus! {

/// One of the text fields of an element.
#[derive(Clone, Copy, Debug, PartialEq, Eq, Structural)]
pub enum TextField {
    Heading,
    Chapeau,
    Proviso,
    Content,
    Continuation,
}

/// Whether a word was inserted, deleted, or kept.
#[derive(Clone, Copy, Debug, PartialEq, Eq, Structural)]
pub enum ChangeTag {
    Insert,
    Delete,
    Equal,
}

/// One word (or run of white space) of a word-level diff.
#[derive(Debug)]
pub struct WordChange {
    pub value: String,
    pub tag: ChangeTag,
}

/// The word-level diff of one text field of an element.
#[derive(Debug)]
pub struct FieldChange {
    pub field_name: TextField,
    pub changes: Vec<WordChange>,
}

/// The diff of an element between two versions: its changed fields, the
/// paths of the children added and removed, and the diffs of the children
/// present in both versions that changed.
#[derive(Debug)]
pub struct DiffNode {
    pub root_path: String,
    pub changes: Vec<FieldChange>,
    pub added: Vec<String>,
    pub removed: Vec<String>,
    pub child_diffs: Vec<DiffNode>,
}

#[verifier::external_type_specification]
#[verifier::external_body]
pub struct ExUslmElement(words_to_data::uslm::USLMElement);

#[verifier::external_type_specification]
#[verifier::external_body]
pub struct ExTreeDiff(words_to_data::diff::TreeDiff);

#[verifier::external_type_specification]
#[verifier::external_body]
pub struct ExElementData(words_to_data::uslm::ElementData);

#[verifier::external_type_specification]
#[verifier::external_body]
pub struct ExFieldChangeEvent(words_to_data::diff::FieldChangeEvent);

#[verifier::external_type_specification]
#[verifier::external_body]
pub struct ExTextContentField(words_to_data::uslm::TextContentField);

#[verifier::external_type_specification]
#[verifier::external_body]
pub struct ExTextChangeType(words_to_data::diff::TextChangeType);

/// words_to_data's element data for the element `n`: its path, names and
/// text fields as they are, and a fixed element type, document type and
/// date, which the diff does not read (it asserts only that the two element
/// types compared are equal).
#[verifier::external_body]
fn element_data_of(n: &ElementNode) -> ElementData {
    ElementData {
        path: n.path.clone(), element_type: ElementType::Level,
        document_type: DocumentType::USCode { usc_type: USCType::Title }, date: time::Date::MIN,
        number_value: String::new(), number_display: n.number_display.clone(),
        verbose_name: n.verbose_name.clone(), heading: n.heading.clone(), chapeau: n.chapeau.clone(),
        proviso: n.proviso.clone(), content: n.content.clone(), continuation: n.continuation.clone(),
        uslm_id: None, uslm_uuid: None, source_credits: Vec::new(),
    }
}

/// words_to_data's element tree for the tree under `n`, node for node.
#[verifier::external_body]
fn uslm_of(n: &ElementNode) -> USLMElement {
    USLMElement { data: element_data_of(n), children: n.children.iter().map(uslm_of).collect() }
}

/// The library's name for words_to_data's text field `f`.
#[verifier::external_body]
fn field_of(f: words_to_data::uslm::TextContentField) -> TextField {
    match f {
        words_to_data::uslm::TextContentField::Heading => TextField::Heading,
        words_to_data::uslm::TextContentField::Chapeau => TextField::Chapeau,
        words_to_data::uslm::TextContentField::Proviso => TextField::Proviso,
        words_to_data::uslm::TextContentField::Content => TextField::Content,
        words_to_data::uslm::TextContentField::Continuation => TextField::Continuation,
    }
}

/// The library's name for words_to_data's kind of word change `t`.
#[verifier::external_body]
fn tag_of(t: words_to_data::diff::TextChangeType) -> ChangeTag {
    match t {
        words_to_data::diff::TextChangeType::Insert => ChangeTag::Insert,
        words_to_data::diff::TextChangeType::Delete => ChangeTag::Delete,
        words_to_data::diff::TextChangeType::Equal => ChangeTag::Equal,
    }
}

/// The library's field change for words_to_data's `c`: its field and its
/// words with their kinds, in order.
#[verifier::external_body]
fn field_change_of(c: &FieldChangeEvent) -> FieldChange {
    FieldChange {
        field_name: field_of(c.field_name),
        changes: c.changes.iter().map(|t| WordChange { value: t.value.clone(), tag: tag_of(t.tag) }).collect(),
    }
}

/// Reads words_to_data's `TreeDiff` into the library's diff, node for node.
#[verifier::external_body]
fn diff_node_of(d: &TreeDiff) -> DiffNode {
    DiffNode {
        root_path: d.root_path.clone(),
        changes: d.changes.iter().map(field_change_of).collect(),
        added: d.added.iter().map(|e| e.path.clone()).collect(),
        removed: d.removed.iter().map(|e| e.path.clone()).collect(),
        child_diffs: d.child_diffs.iter().map(diff_node_of).collect(),
    }
}

/// The text of the field `f` of `n`; a field that the element lacks reads
/// as empty.
pub open spec fn field_text(n: ElementNode, f: TextField) -> Seq<char> {
    match f {
        TextField::Heading => opt_text(n.heading),
        TextField::Chapeau => opt_text(n.chapeau),
        TextField::Proviso => opt_text(n.proviso),
        TextField::Content => opt_text(n.content),
        TextField::Continuation => opt_text(n.continuation),
    }
}

/// The place of a field in the order in which a diff lists field changes.
pub open spec fn field_rank(f: TextField) -> int {
    match f {
        TextField::Heading => 0,
        TextField::Chapeau => 1,
        TextField::Proviso => 2,
        TextField::Content => 3,
        TextField::Continuation => 4,
    }
}

/// The old text that a word diff spells: its kept and deleted words.
pub open spec fn old_words(cs: Seq<WordChange>) -> Seq<char>
    decreases cs.len(),
{
    if cs.len() == 0 {
        Seq::empty()
    } else {
        old_words(cs.drop_last()) + if cs.last().tag is Insert {
            Seq::empty()
        } else {
            cs.last().value@
        }
    }
}

/// The new text that a word diff spells: its kept and inserted words.
pub open spec fn new_words(cs: Seq<WordChange>) -> Seq<char>
    decreases cs.len(),
{
    if cs.len() == 0 {
        Seq::empty()
    } else {
        new_words(cs.drop_last()) + if cs.last().tag is Delete {
            Seq::empty()
        } else {
            cs.last().value@
        }
    }
}

/// The word changes of `cs` as plain values.
pub open spec fn changes_view(cs: Seq<WordChange>) -> Seq<(Seq<char>, ChangeTag)> {
    cs.map_values(|t: WordChange| (t.value@, t.tag))
}

/// The word diff of `similar` (`TextDiff::from_words`) from the text `old`
/// to the text `new`: its words and runs of white space, each kept,
/// deleted or inserted.
pub uninterp spec fn word_diff(old: Seq<char>, new: Seq<char>) -> Seq<(Seq<char>, ChangeTag)>;

/// `cs` are the field changes from `a` to `b`: one for each field whose
/// text differs and for no other, in the order heading, chapeau, proviso,
/// content, continuation, each the word diff of the field's old text and
/// its new text (`word_diff`), which spells the one and the other.
pub open spec fn field_changes_of(cs: Seq<FieldChange>, a: ElementNode, b: ElementNode) -> bool {
    &&& forall|i: int, j: int|
        0 <= i < j < cs.len() ==> field_rank(#[trigger] cs[i].field_name) < field_rank(
            #[trigger] cs[j].field_name,
        )
    &&& forall|f: TextField|
        (exists|i: int| 0 <= i < cs.len() && #[trigger] cs[i].field_name == f) <==> field_text(a, f)
            != field_text(b, f)
    &&& forall|i: int|
        0 <= i < cs.len() ==> old_words(#[trigger] cs[i].changes@) == field_text(a, cs[i].field_name)
            && new_words(cs[i].changes@) == field_text(b, cs[i].field_name)
    &&& forall|i: int|
        0 <= i < cs.len() ==> changes_view(#[trigger] cs[i].changes@) == word_diff(
            field_text(a, cs[i].field_name),
            field_text(b, cs[i].field_name),
        )
}

/// The set of the paths of the children of `n`.
pub open spec fn child_path_set(n: ElementNode) -> Set<Seq<char>> {
    child_paths(n).to_set()
}

/// The last element of `ns` whose path is `p`.
pub open spec fn last_with_path(ns: Seq<ElementNode>, p: Seq<char>) -> Option<ElementNode>
    decreases ns.len(),
{
    if ns.len() == 0 {
        None
    } else if ns.last().path@ == p {
        Some(ns.last())
    } else {
        last_with_path(ns.drop_last(), p)
    }
}

/// Some field of `a` and `b` reads differently.
pub open spec fn fields_differ(a: ElementNode, b: ElementNode) -> bool {
    exists|f: TextField| field_text(a, f) != field_text(b, f)
}

/// Some text differs between `a` and `b`: a field, or one of the children
/// that both have, matched by path (the last child of each with the path).
pub open spec fn subtree_differs(a: ElementNode, b: ElementNode) -> bool
    decreases a, 1int,
{
    fields_differ(a, b) || some_child_differs(a.children@, a.children@, b.children@)
}

/// Some element of `cs` is the last of `a_all` with its path, and differs
/// from the last element of `b_all` with that path.
pub open spec fn some_child_differs(
    cs: Seq<ElementNode>,
    a_all: Seq<ElementNode>,
    b_all: Seq<ElementNode>,
) -> bool
    decreases cs, 0int,
{
    cs.len() > 0 && (some_child_differs(cs.drop_last(), a_all, b_all) || (last_with_path(
        a_all,
        cs.last().path@,
    ) == Some(cs.last()) && match last_with_path(b_all, cs.last().path@) {
        Some(y) => subtree_differs(cs.last(), y),
        None => false,
    }))
}

/// The paths of the children that `a` and `b` both have and whose text
/// differs somewhere.
pub open spec fn differing_children(a: ElementNode, b: ElementNode) -> Set<Seq<char>> {
    Set::new(
        |p: Seq<char>|
            child_path_set(a).contains(p) && child_path_set(b).contains(p) && subtree_differs(
                last_with_path(a.children@, p)->0,
                last_with_path(b.children@, p)->0,
            ),
    )
}

/// `d` is the diff from the element `a` to the element `b`: it is rooted at
/// their path; it holds their field changes; its added and removed paths are
/// those of the children that only `b` has and that only `a` has, each
/// once; and it holds, once each, the diffs of the children that both have
/// and whose text differs somewhere (with duplicate paths, the last child
/// of each with the path).
pub open spec fn diff_of(d: DiffNode, a: ElementNode, b: ElementNode) -> bool
    decreases d, 1int,
{
    &&& d.root_path@ == a.path@
    &&& d.root_path@ == b.path@
    &&& field_changes_of(d.changes@, a, b)
    &&& views(d.added@).no_duplicates()
    &&& views(d.added@).to_set() == child_path_set(b).difference(child_path_set(a))
    &&& views(d.removed@).no_duplicates()
    &&& views(d.removed@).to_set() == child_path_set(a).difference(child_path_set(b))
    &&& child_diff_paths(d).no_duplicates()
    &&& child_diff_paths(d).to_set() == differing_children(a, b)
    &&& diffs_of(d.child_diffs@, a.children@, b.children@)
}

/// Each diff of `ds` is the diff between the last children of `a_all` and
/// of `b_all` with its root path.
pub open spec fn diffs_of(ds: Seq<DiffNode>, a_all: Seq<ElementNode>, b_all: Seq<ElementNode>) -> bool
    decreases ds, 0int,
{
    ds.len() > 0 ==> diffs_of(ds.drop_last(), a_all, b_all) && match (
        last_with_path(a_all, ds.last().root_path@),
        last_with_path(b_all, ds.last().root_path@),
    ) {
        (Some(x), Some(y)) => diff_of(ds.last(), x, y),
        _ => false,
    }
}

/// words_to_data's `TreeDiff::from_elements`: the diff between two versions
/// of the same element. It needs the two paths equal (it asserts that they
/// are). The claim is what its documentation and source show of every
/// outcome (`diff_of`): the root path; one change for each field whose text
/// differs, in the order in which it walks the fields, each the word diff
/// of `similar` (`TextDiff::from_words`, named `word_diff`: with no deadline
/// set it depends on the two texts alone), whose kept and deleted words
/// spell the old text and whose kept and inserted words spell the new one;
/// the paths of the children added and removed, each once; and the diffs of the
/// children matched by path whose text differs somewhere (it keys the
/// children by path in a hash map, so the last child with a path stands for
/// it). The order of the added and removed paths and of the child diffs is
/// not stated: they come in the order in which a hash map is walked.
#[verifier::external_body]
fn tree_diff(from: &ElementNode, to: &ElementNode) -> (d: DiffNode)
    requires
        from.path@ == to.path@,
    ensures
        diff_of(d, *from, *to),
        forall|i: int|
            0 <= i < d.changes@.len() ==> changes_view(#[trigger] d.changes@[i].changes@) == word_diff(
                field_text(*from, d.changes@[i].field_name),
                field_text(*to, d.changes@[i].field_name),
            ),
{
    diff_node_of(&TreeDiff::from_elements(&uslm_of(from), &uslm_of(to)))
}

/// The diff between two versions of an element whose path is the same.
pub fn diff_versions(from: &ElementNode, to: &ElementNode) -> (d: DiffNode)
    requires
        from.path@ == to.path@,
    ensures
        diff_of(d, *from, *to),
{
    tree_diff(from, to)
}

/// The paths of the children of a diff.
pub open spec fn child_diff_paths(d: DiffNode) -> Seq<Seq<char>> {
    d.child_diffs@.map_values(|c: DiffNode| c.root_path@)
}

/// The lookup of `path` in the diff tree under `d`, level by level as in
/// the lookup of elements.
pub open spec fn diff_find(d: DiffNode, path: Seq<char>) -> Lookup<DiffNode>
    decreases d,
{
    if path == d.root_path@ {
        Lookup::Found(d)
    } else if !is_prefix(d.root_path@, path) {
        Lookup::Missing
    } else {
        match second_piece(path.skip(d.root_path@.len() as int)) {
            None => Lookup::Invalid,
            Some(id) => {
                let m = suffix_matches(child_diff_paths(d), id);
                if m.len() == 0 {
                    Lookup::Missing
                } else if m.len() > 1 {
                    Lookup::Invalid
                } else {
                    proof {
                        lemma_suffix_matches_bounded(child_diff_paths(d), id);
                    }
                    diff_find(d.child_diffs@[m[0]], path)
                }
            },
        }
    }
}

fn count_diff_matches(children: &Vec<DiffNode>, id: &String) -> (r: (usize, usize))
    ensures
        ({
            let m = suffix_matches(children@.map_values(|c: DiffNode| c.root_path@), id@);
            &&& r.0 == m.len()
            &&& r.0 > 0 ==> r.1 == m[0]
        }),
{
    let ghost paths = children@.map_values(|c: DiffNode| c.root_path@);
    let mut count: usize = 0;
    let mut first: usize = 0;
    let mut i: usize = 0;
    while i < children.len()
        invariant
            i <= children.len(),
            paths == children@.map_values(|c: DiffNode| c.root_path@),
            count == suffix_matches(paths.take(i as int), id@).len(),
            count > 0 ==> first == suffix_matches(paths.take(i as int), id@)[0],
            count <= i,
        decreases children.len() - i,
    {
        proof {
            assert(paths.take(i + 1).drop_last() =~= paths.take(i as int));
            assert(paths.take(i + 1).last() == children@[i as int].root_path@);
        }
        if ends_with(&children[i].root_path, id) {
            if count == 0 {
                first = i;
            }
            count = count + 1;
        }
        i = i + 1;
    }
    proof {
        assert(paths.take(children.len() as int) =~= paths);
    }
    (count, first)
}

/// Finds the diff of the element at `path` in the diff tree under `d`.
pub fn find_diff<'a>(d: &'a DiffNode, path: &String) -> (r: Lookup<&'a DiffNode>)
    ensures
        match r {
            Lookup::Found(x) => diff_find(*d, path@) == Lookup::Found(*x),
            Lookup::Missing => diff_find(*d, path@) == Lookup::<DiffNode>::Missing,
            Lookup::Invalid => diff_find(*d, path@) == Lookup::<DiffNode>::Invalid,
        },
    decreases d,
{
    match step_toward(&d.root_path, path) {
        PathStep::Here => Lookup::Found(d),
        PathStep::Outside => Lookup::Missing,
        PathStep::NoSeparator => Lookup::Invalid,
        PathStep::Child(id) => {
            let (count, first) = count_diff_matches(&d.child_diffs, &id);
            if count == 0 {
                Lookup::Missing
            } else if count > 1 {
                Lookup::Invalid
            } else {
                proof {
                    lemma_suffix_matches_bounded(child_diff_paths(*d), id@);
                }
                find_diff(&d.child_diffs[first], path)
            }
        },
    }
}

/// The element of this diff node changed: a field, or an added or removed child.
pub open spec fn node_changed(d: DiffNode) -> bool {
    d.changes@.len() > 0 || d.added@.len() > 0 || d.removed@.len() > 0
}

/// `p` is the path of a changed node of the diff tree under `d`.
pub open spec fn changed_in(d: DiffNode, p: Seq<char>) -> bool
    decreases d, 1int,
{
    (node_changed(d) && d.root_path@ == p) || changed_in_any(d.child_diffs@, p)
}

/// `p` is the path of a changed node in one of the trees of `ds`.
pub open spec fn changed_in_any(ds: Seq<DiffNode>, p: Seq<char>) -> bool
    decreases ds, 0int,
{
    if ds.len() == 0 {
        false
    } else {
        changed_in_any(ds.drop_last(), p) || changed_in(ds.last(), p)
    }
}

/// The paths of the changed nodes of the diff tree under `d`.
pub open spec fn changed_paths_of(d: DiffNode) -> Set<Seq<char>> {
    Set::new(|p: Seq<char>| changed_in(d, p))
}

/// Adds to `acc` the path of every node of the diff tree under `d` whose
/// element changed.
pub fn collect_changed_paths(d: &DiffNode, acc: &mut PathSet)
    requires
        old(acc).wf(),
    ensures
        final(acc).wf(),
        final(acc)@ == old(acc)@.union(changed_paths_of(*d)),
    decreases d,
{
    if d.changes.len() > 0 || d.added.len() > 0 || d.removed.len() > 0 {
        acc.insert(d.root_path.clone());
    }
    let ghost own = if node_changed(*d) { set![d.root_path@] } else { Set::<Seq<char>>::empty() };
    let ghost start = old(acc)@;
    assert(acc@ == start.union(own));
    let mut i: usize = 0;
    while i < d.child_diffs.len()
        invariant
            acc.wf(),
            i <= d.child_diffs@.len(),
            acc@ == start.union(own).union(
                Set::new(|p: Seq<char>| changed_in_any(d.child_diffs@.take(i as int), p)),
            ),
        decreases d.child_diffs.len() - i,
    {
        collect_changed_paths(&d.child_diffs[i], acc);
        proof {
            let s1 = d.child_diffs@.take(i + 1);
            assert(s1.drop_last() =~= d.child_diffs@.take(i as int));
            assert(s1.last() == d.child_diffs@[i as int]);
            assert(forall|p: Seq<char>| changed_in_any(s1, p) == (changed_in_any(s1.drop_last(), p) || changed_in(s1.last(), p)));
            assert(acc@ =~= start.union(own).union(
                Set::new(|p: Seq<char>| changed_in_any(d.child_diffs@.take(i + 1), p)),
            ));
        }
        i = i + 1;
    }
    proof {
        assert(d.child_diffs@.take(d.child_diffs@.len() as int) =~= d.child_diffs@);
        assert(acc@ =~= start.union(changed_paths_of(*d)));
    }
}

/// A diff marks its root element changed exactly where one of the
/// element's fields reads differently or the set of its children's paths
/// changed.
pub proof fn law_root_changed_iff_text_or_children(d: DiffNode, a: ElementNode, b: ElementNode)
    requires
        diff_of(d, a, b),
    ensures
        node_changed(d) <==> (fields_differ(a, b) || child_path_set(a) != child_path_set(b)),
{
    let sa = child_path_set(a);
    let sb = child_path_set(b);
    if fields_differ(a, b) {
        let f = choose|f: TextField| field_text(a, f) != field_text(b, f);
        let i = choose|i: int| 0 <= i < d.changes@.len() && #[trigger] d.changes@[i].field_name == f;
        assert(d.changes@.len() > 0);
    }
    if d.changes@.len() > 0 {
        let f = d.changes@[0].field_name;
        assert(field_text(a, f) != field_text(b, f));
    }
    if sa != sb {
        if sa.difference(sb) =~= Set::empty() && sb.difference(sa) =~= Set::empty() {
            assert forall|p: Seq<char>| sa.contains(p) <==> sb.contains(p) by {
                if sa.contains(p) && !sb.contains(p) {
                    assert(sa.difference(sb).contains(p));
                }
                if sb.contains(p) && !sa.contains(p) {
                    assert(sb.difference(sa).contains(p));
                }
            }
            assert(sa =~= sb);
        }
        if !(sb.difference(sa) =~= Set::empty()) {
            let p = sb.difference(sa).choose();
            assert(views(d.added@).to_set().contains(p));
            assert(views(d.added@).len() > 0);
        } else {
            let p = sa.difference(sb).choose();
            assert(views(d.removed@).to_set().contains(p));
            assert(views(d.removed@).len() > 0);
        }
    }
    if d.added@.len() > 0 {
        assert(views(d.added@).to_set().contains(views(d.added@)[0]));
    }
    if d.removed@.len() > 0 {
        assert(views(d.removed@).to_set().contains(views(d.removed@)[0]));
    }
}

/// Some element of the tree under `n` has the path `p`.
pub open spec fn occurs_in(n: ElementNode, p: Seq<char>) -> bool
    decreases n, 1int,
{
    n.path@ == p || occurs_in_any(n.children@, p)
}

/// Some element of one of the trees of `ns` has the path `p`.
pub open spec fn occurs_in_any(ns: Seq<ElementNode>, p: Seq<char>) -> bool
    decreases ns, 0int,
{
    ns.len() > 0 && (occurs_in_any(ns.drop_last(), p) || occurs_in(ns.last(), p))
}

proof fn lemma_last_with_path_occurs(ns: Seq<ElementNode>, q: Seq<char>, x: ElementNode, p: Seq<char>)
    requires
        last_with_path(ns, q) == Some(x),
        occurs_in(x, p),
    ensures
        occurs_in_any(ns, p),
    decreases ns.len(),
{
    if ns.last().path@ != q {
        lemma_last_with_path_occurs(ns.drop_last(), q, x, p);
    }
}

proof fn lemma_changed_occurs(d: DiffNode, a: ElementNode, b: ElementNode, p: Seq<char>)
    requires
        diff_of(d, a, b),
        changed_in(d, p),
    ensures
        occurs_in(a, p),
        occurs_in(b, p),
    decreases d, 1int,
{
    if !(node_changed(d) && d.root_path@ == p) {
        lemma_changed_occurs_any(d.child_diffs@, a.children@, b.children@, p);
    }
}

proof fn lemma_changed_occurs_any(ds: Seq<DiffNode>, a_all: Seq<ElementNode>, b_all: Seq<ElementNode>, p: Seq<char>)
    requires
        diffs_of(ds, a_all, b_all),
        changed_in_any(ds, p),
    ensures
        occurs_in_any(a_all, p),
        occurs_in_any(b_all, p),
    decreases ds, 0int,
{
    if changed_in_any(ds.drop_last(), p) {
        lemma_changed_occurs_any(ds.drop_last(), a_all, b_all, p);
    } else {
        let c = ds.last();
        let x = last_with_path(a_all, c.root_path@)->0;
        let y = last_with_path(b_all, c.root_path@)->0;
        lemma_changed_occurs(c, x, y, p);
        lemma_last_with_path_occurs(a_all, c.root_path@, x, p);
        lemma_last_with_path_occurs(b_all, c.root_path@, y, p);
    }
}

/// Every element that a diff marks changed is in both trees compared: each
/// changed path is the path of an element of the old tree and of one of
/// the new tree.
pub proof fn law_changed_paths_occur_in_both(d: DiffNode, a: ElementNode, b: ElementNode)
    requires
        diff_of(d, a, b),
    ensures
        forall|p: Seq<char>| #[trigger] changed_paths_of(d).contains(p) ==> occurs_in(a, p) && occurs_in(b, p),
{
    assert forall|p: Seq<char>| #[trigger] changed_paths_of(d).contains(p) implies occurs_in(a, p)
        && occurs_in(b, p) by {
        lemma_changed_occurs(d, a, b, p);
    }
}

/// `x` is the element `n` or one in the tree under it.
pub open spec fn within(n: ElementNode, x: ElementNode) -> bool
    decreases n, 1int,
{
    n == x || within_any(n.children@, x)
}

/// `x` is in one of the trees of `ns`.
pub open spec fn within_any(ns: Seq<ElementNode>, x: ElementNode) -> bool
    decreases ns, 0int,
{
    ns.len() > 0 && (within_any(ns.drop_last(), x) || within(ns.last(), x))
}

proof fn lemma_last_with_path_within(ns: Seq<ElementNode>, q: Seq<char>, x: ElementNode, z: ElementNode)
    requires
        last_with_path(ns, q) == Some(x),
        within(x, z),
    ensures
        within_any(ns, z),
    decreases ns.len(),
{
    if ns.last().path@ != q {
        lemma_last_with_path_within(ns.drop_last(), q, x, z);
    }
}

proof fn lemma_diffs_of_index(ds: Seq<DiffNode>, a_all: Seq<ElementNode>, b_all: Seq<ElementNode>, k: int)
    requires
        diffs_of(ds, a_all, b_all),
        0 <= k < ds.len(),
    ensures
        match (last_with_path(a_all, ds[k].root_path@), last_with_path(b_all, ds[k].root_path@)) {
            (Some(x), Some(y)) => diff_of(ds[k], x, y),
            _ => false,
        },
    decreases ds.len(),
{
    if k < ds.len() - 1 {
        lemma_diffs_of_index(ds.drop_last(), a_all, b_all, k);
        assert(ds.drop_last()[k] == ds[k]);
    }
}

/// The diff that a lookup finds in the diff from `a` to `b` is the diff
/// between an element of the tree under `a` and one of the tree under `b`,
/// both at the path looked up.
pub proof fn lemma_found_diff_elements(d: DiffNode, a: ElementNode, b: ElementNode, p: Seq<char>) -> (r: (
    ElementNode,
    ElementNode,
))
    requires
        diff_of(d, a, b),
        diff_find(d, p) is Found,
    ensures
        diff_of(diff_find(d, p)->0, r.0, r.1),
        within(a, r.0),
        within(b, r.1),
        r.0.path@ == p,
        r.1.path@ == p,
    decreases d,
{
    if p == d.root_path@ {
        (a, b)
    } else {
        let id = second_piece(p.skip(d.root_path@.len() as int))->0;
        let m = suffix_matches(child_diff_paths(d), id);
        lemma_suffix_matches_bounded(child_diff_paths(d), id);
        let k = m[0];
        let c = d.child_diffs@[k];
        lemma_diffs_of_index(d.child_diffs@, a.children@, b.children@, k);
        let x = last_with_path(a.children@, c.root_path@)->0;
        let y = last_with_path(b.children@, c.root_path@)->0;
        let r = lemma_found_diff_elements(c, x, y, p);
        lemma_last_with_path_within(a.children@, c.root_path@, x, r.0);
        lemma_last_with_path_within(b.children@, c.root_path@, y, r.1);
        r
    }
}

proof fn lemma_changed_in_any_index(ds: Seq<DiffNode>, p: Seq<char>)
    ensures
        changed_in_any(ds, p) <==> exists|k: int| 0 <= k < ds.len() && #[trigger] changed_in(ds[k], p),
    decreases ds.len(),
{
    if ds.len() > 0 {
        lemma_changed_in_any_index(ds.drop_last(), p);
        if exists|k: int| 0 <= k < ds.len() && #[trigger] changed_in(ds[k], p) {
            let k = choose|k: int| 0 <= k < ds.len() && #[trigger] changed_in(ds[k], p);
            if k < ds.len() - 1 {
                assert(ds.drop_last()[k] == ds[k]);
            }
        }
        if changed_in_any(ds.drop_last(), p) {
            let k = choose|k: int| 0 <= k < ds.drop_last().len() && #[trigger] changed_in(ds.drop_last()[k], p);
            assert(ds[k] == ds.drop_last()[k]);
        }
        if changed_in(ds.last(), p) {
            assert(changed_in(ds[ds.len() - 1], p));
        }
    }
}

proof fn lemma_changed_in_same(d1: DiffNode, d2: DiffNode, a: ElementNode, b: ElementNode, p: Seq<char>)
    requires
        diff_of(d1, a, b),
        diff_of(d2, a, b),
        changed_in(d1, p),
    ensures
        changed_in(d2, p),
    decreases d1,
{
    law_root_changed_iff_text_or_children(d1, a, b);
    law_root_changed_iff_text_or_children(d2, a, b);
    if !(node_changed(d1) && d1.root_path@ == p) {
        lemma_changed_in_any_index(d1.child_diffs@, p);
        lemma_changed_in_any_index(d2.child_diffs@, p);
        let k1 = choose|k: int| 0 <= k < d1.child_diffs@.len() && #[trigger] changed_in(d1.child_diffs@[k], p);
        let c1 = d1.child_diffs@[k1];
        let r = c1.root_path@;
        assert(child_diff_paths(d1)[k1] == r);
        assert(child_diff_paths(d1).to_set().contains(r));
        assert(child_diff_paths(d2).to_set().contains(r));
        let k2 = choose|k: int| 0 <= k < child_diff_paths(d2).len() && child_diff_paths(d2)[k] == r;
        let c2 = d2.child_diffs@[k2];
        assert(c2.root_path@ == r);
        lemma_diffs_of_index(d1.child_diffs@, a.children@, b.children@, k1);
        lemma_diffs_of_index(d2.child_diffs@, a.children@, b.children@, k2);
        let x = last_with_path(a.children@, r)->0;
        let y = last_with_path(b.children@, r)->0;
        lemma_changed_in_same(c1, c2, x, y, p);
        assert(changed_in(d2.child_diffs@[k2], p));
    }
}

/// The paths that a diff marks changed depend on the two trees compared
/// alone: two diffs of the same trees, whatever order their parts come in,
/// mark the same paths.
pub proof fn law_changed_paths_depend_on_trees_alone(d1: DiffNode, d2: DiffNode, a: ElementNode, b: ElementNode)
    requires
        diff_of(d1, a, b),
        diff_of(d2, a, b),
    ensures
        changed_paths_of(d1) == changed_paths_of(d2),
{
    assert forall|p: Seq<char>| changed_paths_of(d1).contains(p) <==> changed_paths_of(d2).contains(p) by {
        if changed_in(d1, p) {
            lemma_changed_in_same(d1, d2, a, b, p);
        }
        if changed_in(d2, p) {
            lemma_changed_in_same(d2, d1, a, b, p);
        }
    }
    assert(changed_paths_of(d1) =~= changed_paths_of(d2));
}

} // verus!
