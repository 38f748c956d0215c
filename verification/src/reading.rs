//! The reading pane: the selected element with its text fields, each one
//! marked word by word where the current diff changed it, the attribution
//! gutter of a changed element, and the elements under it.
use vstd::prelude::*;
use crate::annotation::Tone;
use crate::diff::{
    changes_view, diff_find, field_text, find_diff, lemma_found_diff_elements, new_words, old_words, within,
    ChangeTag, DiffNode, FieldChange, TextField, WordChange,
};
use crate::model::{element_find, find, ElementNode, Lookup};
use crate::state::{has_previous, AppState};
use crate::views::{blame_of, Blame};

verus! {

/// The lookup of the diff of the element at `path` in the current diff.
pub open spec fn diff_lookup(s: AppState, path: Seq<char>) -> Lookup<DiffNode> {
    match s.current_diff {
        Some(d) => diff_find(d, path),
        None => Lookup::Missing,
    }
}

/// The first change of `cs` that is to the field `f`.
pub open spec fn first_field_change(cs: Seq<FieldChange>, f: TextField) -> Option<FieldChange>
    decreases cs.len(),
{
    if cs.len() == 0 {
        None
    } else if cs[0].field_name == f {
        Some(cs[0])
    } else {
        first_field_change(cs.drop_first(), f)
    }
}

/// The change to the field `f` of the element at `path` that the reading
/// pane marks: the first one in the element's diff, where it has one.
pub open spec fn marked_change(s: AppState, path: Seq<char>, f: TextField) -> Option<FieldChange> {
    match diff_lookup(s, path) {
        Lookup::Found(d) => first_field_change(d.changes@, f),
        _ => None,
    }
}

/// How a text field is shown: as it reads, or word by word with the words
/// that the diff inserted and deleted.
#[derive(Debug)]
pub enum FieldBody {
    Plain(String),
    Marked(Vec<WordChange>),
}

/// One text field of an element in the reading pane.
#[derive(Debug)]
pub struct FieldView {
    pub field: TextField,
    pub body: FieldBody,
}

/// The view shows the field `f` of the element at `path`, whose text is `text`.
pub open spec fn field_shows(
    v: FieldView,
    s: AppState,
    path: Seq<char>,
    f: TextField,
    text: Seq<char>,
) -> bool {
    &&& v.field == f
    &&& match marked_change(s, path, f) {
        Some(c) => v.body matches FieldBody::Marked(cs) && changes_view(cs@) == changes_view(
            c.changes@,
        ),
        None => v.body matches FieldBody::Plain(t) && t@ == text,
    }
}

/// The field `f` with its text, where the element has it.
pub open spec fn opt_field(f: TextField, o: Option<String>) -> Seq<(TextField, Seq<char>)> {
    match o {
        Some(t) => seq![(f, t@)],
        None => Seq::empty(),
    }
}

/// The fields shown above an element's children, in the order heading,
/// chapeau, content, proviso; those that the element lacks are left out.
pub open spec fn text_fields(n: ElementNode) -> Seq<(TextField, Seq<char>)> {
    opt_field(TextField::Heading, n.heading) + opt_field(TextField::Chapeau, n.chapeau)
        + opt_field(TextField::Content, n.content) + opt_field(
        TextField::Proviso,
        n.proviso,
    )
}

/// The place of a field in the reading pane, top to bottom.
pub open spec fn reading_rank(f: TextField) -> int {
    match f {
        TextField::Heading => 0,
        TextField::Chapeau => 1,
        TextField::Content => 2,
        TextField::Proviso => 3,
        TextField::Continuation => 4,
    }
}

/// The number of the fields heading, chapeau, content and proviso that `n`
/// has.
pub open spec fn upper_field_count(n: ElementNode) -> int {
    (if n.heading is Some { 1int } else { 0int }) + (if n.chapeau is Some { 1int } else { 0int }) + (
    if n.content is Some { 1int } else { 0int }) + (if n.proviso is Some { 1int } else { 0int })
}

proof fn lemma_text_fields(n: ElementNode)
    ensures
        ({
            let fs = text_fields(n);
            &&& fs.len() == upper_field_count(n)
            &&& forall|i: int| 0 <= i < fs.len() ==> (#[trigger] fs[i]).0 != TextField::Continuation
            &&& forall|i: int, j: int|
                0 <= i < j < fs.len() ==> reading_rank((#[trigger] fs[i]).0) < reading_rank((#[trigger] fs[j]).0)
        }),
        ({ let fs = text_fields(n); n.heading is Some <==> exists|i: int| 0 <= i < fs.len() && #[trigger] fs[i].0 == TextField::Heading }),
        ({ let fs = text_fields(n); n.chapeau is Some <==> exists|i: int| 0 <= i < fs.len() && #[trigger] fs[i].0 == TextField::Chapeau }),
        ({ let fs = text_fields(n); n.content is Some <==> exists|i: int| 0 <= i < fs.len() && #[trigger] fs[i].0 == TextField::Content }),
        ({ let fs = text_fields(n); n.proviso is Some <==> exists|i: int| 0 <= i < fs.len() && #[trigger] fs[i].0 == TextField::Proviso }),
        ({ let fs = text_fields(n); forall|i: int| 0 <= i < fs.len() && #[trigger] fs[i].0 == TextField::Heading ==> (n.heading is Some && fs[i].1 == n.heading->0@) }),
        ({ let fs = text_fields(n); forall|i: int| 0 <= i < fs.len() && #[trigger] fs[i].0 == TextField::Chapeau ==> (n.chapeau is Some && fs[i].1 == n.chapeau->0@) }),
        ({ let fs = text_fields(n); forall|i: int| 0 <= i < fs.len() && #[trigger] fs[i].0 == TextField::Content ==> (n.content is Some && fs[i].1 == n.content->0@) }),
        ({ let fs = text_fields(n); forall|i: int| 0 <= i < fs.len() && #[trigger] fs[i].0 == TextField::Proviso ==> (n.proviso is Some && fs[i].1 == n.proviso->0@) }),
{
    if n.heading is Some && n.chapeau is Some && n.content is Some && n.proviso is Some {
        assert(text_fields(n) =~= seq![(TextField::Heading, n.heading->0@), (TextField::Chapeau, n.chapeau->0@), (TextField::Content, n.content->0@), (TextField::Proviso, n.proviso->0@)]);
        assert(text_fields(n)[0].0 == TextField::Heading);
        assert(text_fields(n)[1].0 == TextField::Chapeau);
        assert(text_fields(n)[2].0 == TextField::Content);
        assert(text_fields(n)[3].0 == TextField::Proviso);
    }
    if n.heading is Some && n.chapeau is Some && n.content is Some && n.proviso is None {
        assert(text_fields(n) =~= seq![(TextField::Heading, n.heading->0@), (TextField::Chapeau, n.chapeau->0@), (TextField::Content, n.content->0@)]);
        assert(text_fields(n)[0].0 == TextField::Heading);
        assert(text_fields(n)[1].0 == TextField::Chapeau);
        assert(text_fields(n)[2].0 == TextField::Content);
    }
    if n.heading is Some && n.chapeau is Some && n.content is None && n.proviso is Some {
        assert(text_fields(n) =~= seq![(TextField::Heading, n.heading->0@), (TextField::Chapeau, n.chapeau->0@), (TextField::Proviso, n.proviso->0@)]);
        assert(text_fields(n)[0].0 == TextField::Heading);
        assert(text_fields(n)[1].0 == TextField::Chapeau);
        assert(text_fields(n)[2].0 == TextField::Proviso);
    }
    if n.heading is Some && n.chapeau is Some && n.content is None && n.proviso is None {
        assert(text_fields(n) =~= seq![(TextField::Heading, n.heading->0@), (TextField::Chapeau, n.chapeau->0@)]);
        assert(text_fields(n)[0].0 == TextField::Heading);
        assert(text_fields(n)[1].0 == TextField::Chapeau);
    }
    if n.heading is Some && n.chapeau is None && n.content is Some && n.proviso is Some {
        assert(text_fields(n) =~= seq![(TextField::Heading, n.heading->0@), (TextField::Content, n.content->0@), (TextField::Proviso, n.proviso->0@)]);
        assert(text_fields(n)[0].0 == TextField::Heading);
        assert(text_fields(n)[1].0 == TextField::Content);
        assert(text_fields(n)[2].0 == TextField::Proviso);
    }
    if n.heading is Some && n.chapeau is None && n.content is Some && n.proviso is None {
        assert(text_fields(n) =~= seq![(TextField::Heading, n.heading->0@), (TextField::Content, n.content->0@)]);
        assert(text_fields(n)[0].0 == TextField::Heading);
        assert(text_fields(n)[1].0 == TextField::Content);
    }
    if n.heading is Some && n.chapeau is None && n.content is None && n.proviso is Some {
        assert(text_fields(n) =~= seq![(TextField::Heading, n.heading->0@), (TextField::Proviso, n.proviso->0@)]);
        assert(text_fields(n)[0].0 == TextField::Heading);
        assert(text_fields(n)[1].0 == TextField::Proviso);
    }
    if n.heading is Some && n.chapeau is None && n.content is None && n.proviso is None {
        assert(text_fields(n) =~= seq![(TextField::Heading, n.heading->0@)]);
        assert(text_fields(n)[0].0 == TextField::Heading);
    }
    if n.heading is None && n.chapeau is Some && n.content is Some && n.proviso is Some {
        assert(text_fields(n) =~= seq![(TextField::Chapeau, n.chapeau->0@), (TextField::Content, n.content->0@), (TextField::Proviso, n.proviso->0@)]);
        assert(text_fields(n)[0].0 == TextField::Chapeau);
        assert(text_fields(n)[1].0 == TextField::Content);
        assert(text_fields(n)[2].0 == TextField::Proviso);
    }
    if n.heading is None && n.chapeau is Some && n.content is Some && n.proviso is None {
        assert(text_fields(n) =~= seq![(TextField::Chapeau, n.chapeau->0@), (TextField::Content, n.content->0@)]);
        assert(text_fields(n)[0].0 == TextField::Chapeau);
        assert(text_fields(n)[1].0 == TextField::Content);
    }
    if n.heading is None && n.chapeau is Some && n.content is None && n.proviso is Some {
        assert(text_fields(n) =~= seq![(TextField::Chapeau, n.chapeau->0@), (TextField::Proviso, n.proviso->0@)]);
        assert(text_fields(n)[0].0 == TextField::Chapeau);
        assert(text_fields(n)[1].0 == TextField::Proviso);
    }
    if n.heading is None && n.chapeau is Some && n.content is None && n.proviso is None {
        assert(text_fields(n) =~= seq![(TextField::Chapeau, n.chapeau->0@)]);
        assert(text_fields(n)[0].0 == TextField::Chapeau);
    }
    if n.heading is None && n.chapeau is None && n.content is Some && n.proviso is Some {
        assert(text_fields(n) =~= seq![(TextField::Content, n.content->0@), (TextField::Proviso, n.proviso->0@)]);
        assert(text_fields(n)[0].0 == TextField::Content);
        assert(text_fields(n)[1].0 == TextField::Proviso);
    }
    if n.heading is None && n.chapeau is None && n.content is Some && n.proviso is None {
        assert(text_fields(n) =~= seq![(TextField::Content, n.content->0@)]);
        assert(text_fields(n)[0].0 == TextField::Content);
    }
    if n.heading is None && n.chapeau is None && n.content is None && n.proviso is Some {
        assert(text_fields(n) =~= seq![(TextField::Proviso, n.proviso->0@)]);
        assert(text_fields(n)[0].0 == TextField::Proviso);
    }
    if n.heading is None && n.chapeau is None && n.content is None && n.proviso is None {
        assert(text_fields(n) =~= Seq::<(TextField, Seq<char>)>::empty());
    }
}

/// Each view of `vs` shows the field at the same place of `fs`.
pub open spec fn fields_show(
    vs: Seq<FieldView>,
    s: AppState,
    path: Seq<char>,
    fs: Seq<(TextField, Seq<char>)>,
) -> bool {
    &&& vs.len() == fs.len()
    &&& forall|i: int| 0 <= i < vs.len() ==> #[trigger] field_shows(vs[i], s, path, fs[i].0, fs[i].1)
}

/// The element at `path` has a diff that changed one of its fields.
pub open spec fn has_text_changes(s: AppState, path: Seq<char>) -> bool {
    diff_lookup(s, path) matches Lookup::Found(d) && d.changes@.len() > 0
}

/// The attribution in the gutter of the element at `path`: shown where the
/// element's fields changed, the gutter is on, and an annotation names it.
pub open spec fn gutter_of(s: AppState, path: Seq<char>) -> Option<(Seq<char>, Tone)> {
    if has_text_changes(s, path) && s.show_blame {
        blame_of(s, path)
    } else {
        None
    }
}

/// An element in the reading pane: its fields, the attribution gutter, the
/// elements under it, and its continuation text, which follows them.
#[derive(Debug)]
pub struct ElementView {
    pub path: String,
    pub fields: Vec<FieldView>,
    pub blame: Option<Blame>,
    pub children: Vec<ElementView>,
    pub continuation: Option<FieldView>,
}

/// The view shows the element `n` and everything under it.
pub open spec fn element_shows(v: ElementView, s: AppState, n: ElementNode) -> bool
    decreases n, 1int,
{
    &&& v.path@ == n.path@
    &&& fields_show(v.fields@, s, n.path@, text_fields(n))
    &&& match gutter_of(s, n.path@) {
        Some(g) => v.blame matches Some(b) && b.bill_label@ == g.0 && b.tone == g.1,
        None => v.blame is None,
    }
    &&& elements_show(v.children@, s, n.children@)
    &&& match n.continuation {
        Some(c) => v.continuation matches Some(fv) && field_shows(
            fv,
            s,
            n.path@,
            TextField::Continuation,
            c@,
        ),
        None => v.continuation is None,
    }
}

/// Each view of `vs` shows the element at the same place of `ns`.
pub open spec fn elements_show(vs: Seq<ElementView>, s: AppState, ns: Seq<ElementNode>) -> bool
    decreases ns, 0int,
{
    &&& vs.len() == ns.len()
    &&& ns.len() > 0 ==> elements_show(vs.drop_last(), s, ns.drop_last()) && element_shows(
        vs.last(),
        s,
        ns.last(),
    )
}

/// The element `n` and all under it can be shown: the lookup of none of
/// their diffs fails a check of the diff tree.
pub open spec fn renders(s: AppState, n: ElementNode) -> bool
    decreases n, 1int,
{
    !(diff_lookup(s, n.path@) is Invalid) && renders_all(s, n.children@)
}

/// Every element of `ns` can be shown.
pub open spec fn renders_all(s: AppState, ns: Seq<ElementNode>) -> bool
    decreases ns, 0int,
{
    ns.len() > 0 ==> renders_all(s, ns.drop_last()) && renders(s, ns.last())
}

/// The center pane: a hint where there is nothing to show, the selected
/// element, or `Malformed` where a lookup by path fails a check of the tree
/// (the element's path does not continue with a separator, or two children
/// match one piece of it).
#[derive(Debug)]
pub enum ReadingPane {
    NoDataset,
    NoSelection,
    NoVersion,
    NotFound,
    Malformed,
    Element(ElementView),
}

/// The reading pane shows the state `s`.
pub open spec fn reading_pane_shows(p: ReadingPane, s: AppState) -> bool {
    match s.dataset {
        None => p is NoDataset,
        Some(d) => match s.selected_path {
            None => p is NoSelection,
            Some(path) => if s.selected_version_index < d.versions@.len() {
                match element_find(d.versions@[s.selected_version_index as int].element, path@) {
                    Lookup::Found(e) => if renders(s, e) {
                        p matches ReadingPane::Element(v) && element_shows(v, s, e)
                    } else {
                        p is Malformed
                    },
                    Lookup::Missing => p is NotFound,
                    Lookup::Invalid => p is Malformed,
                }
            } else {
                p is NoVersion
            },
        },
    }
}

/// The first change of `cs` to the field `f`.
fn find_field_change<'a>(cs: &'a Vec<FieldChange>, f: TextField) -> (r: Option<&'a FieldChange>)
    ensures
        match r {
            Some(c) => first_field_change(cs@, f) == Some(*c),
            None => first_field_change(cs@, f) is None,
        },
{
    let mut i: usize = 0;
    assert(cs@.skip(0) =~= cs@);
    while i < cs.len()
        invariant
            i <= cs@.len(),
            first_field_change(cs@, f) == first_field_change(cs@.skip(i as int), f),
        decreases cs.len() - i,
    {
        assert(cs@.skip(i as int)[0] == cs@[i as int]);
        if cs[i].field_name == f {
            return Some(&cs[i]);
        }
        assert(cs@.skip(i as int).drop_first() =~= cs@.skip(i + 1));
        i = i + 1;
    }
    None
}

/// A copy of the word changes `cs`.
fn copy_changes(cs: &Vec<WordChange>) -> (r: Vec<WordChange>)
    ensures
        changes_view(r@) == changes_view(cs@),
{
    let mut out: Vec<WordChange> = Vec::new();
    let mut i: usize = 0;
    while i < cs.len()
        invariant
            i <= cs@.len(),
            changes_view(out@) == changes_view(cs@.take(i as int)),
        decreases cs.len() - i,
    {
        let t = &cs[i];
        let ghost before = out@;
        out.push(WordChange { value: t.value.clone(), tag: t.tag });
        proof {
            assert(cs@.take(i + 1) =~= cs@.take(i as int).push(*t));
            assert(out@ =~= before.push(out@.last()));
            assert(changes_view(out@) =~= changes_view(before).push((t.value@, t.tag)));
            assert(changes_view(cs@.take(i + 1)) =~= changes_view(cs@.take(i as int)).push(
                (t.value@, t.tag),
            ));
        }
        i = i + 1;
    }
    assert(cs@.take(cs@.len() as int) =~= cs@);
    out
}

impl AppState {
    /// The diff of the element at `path` in the current diff.
    pub fn get_diff_for_path(&self, path: &String) -> (r: Lookup<&DiffNode>)
        ensures
            match r {
                Lookup::Found(d) => diff_lookup(*self, path@) == Lookup::Found(*d),
                Lookup::Missing => diff_lookup(*self, path@) == Lookup::<DiffNode>::Missing,
                Lookup::Invalid => diff_lookup(*self, path@) == Lookup::<DiffNode>::Invalid,
            },
    {
        match &self.current_diff {
            Some(d) => find_diff(d, path),
            None => Lookup::Missing,
        }
    }

    /// The field `f` of the element at `path`, whose text is `text`, given
    /// the element's diff where there is one.
    fn render_field(&self, diff: Option<&DiffNode>, path: &String, f: TextField, text: &String) -> (v: FieldView)
        requires
            match diff {
                Some(d) => diff_lookup(*self, path@) == Lookup::Found(*d),
                None => !(diff_lookup(*self, path@) is Found),
            },
        ensures
            field_shows(v, *self, path@, f, text@),
    {
        if let Some(d) = diff {
            if let Some(c) = find_field_change(&d.changes, f) {
                return FieldView { field: f, body: FieldBody::Marked(copy_changes(&c.changes)) };
            }
        }
        FieldView { field: f, body: FieldBody::Plain(text.clone()) }
    }

    /// The element `n` and everything under it, for the reading pane;
    /// `None` where the lookup of the diff of one of them fails a check.
    pub fn render_element_content(&self, n: &ElementNode) -> (r: Option<ElementView>)
        ensures
            r is Some <==> renders(*self, *n),
            r matches Some(v) ==> element_shows(v, *self, *n),
        decreases n,
    {
        let lookup = self.get_diff_for_path(&n.path);
        let diff = match lookup {
            Lookup::Found(d) => Some(d),
            Lookup::Missing => None,
            Lookup::Invalid => {
                return None;
            },
        };
        let has_changes = match diff {
            Some(d) => d.changes.len() > 0,
            None => false,
        };
        let mut fields: Vec<FieldView> = Vec::new();
        let ghost path = n.path@;
        let ghost fs = text_fields(*n);
        let ghost k0: int = opt_field(TextField::Heading, n.heading).len() as int;
        let ghost k1: int = k0 + opt_field(TextField::Chapeau, n.chapeau).len();
        let ghost k2: int = k1 + opt_field(TextField::Content, n.content).len();
        if let Some(t) = &n.heading {
            fields.push(self.render_field(diff, &n.path, TextField::Heading, t));
        }
        assert(fields_show(fields@, *self, path, fs.take(k0)));
        if let Some(t) = &n.chapeau {
            fields.push(self.render_field(diff, &n.path, TextField::Chapeau, t));
        }
        assert(fields_show(fields@, *self, path, fs.take(k1)));
        if let Some(t) = &n.content {
            fields.push(self.render_field(diff, &n.path, TextField::Content, t));
        }
        assert(fields_show(fields@, *self, path, fs.take(k2)));
        if let Some(t) = &n.proviso {
            fields.push(self.render_field(diff, &n.path, TextField::Proviso, t));
        }
        assert(fs.take(fs.len() as int) =~= fs);
        let blame = if has_changes && self.show_blame {
            self.get_blame_for_path(&n.path)
        } else {
            None
        };
        let mut children: Vec<ElementView> = Vec::new();
        let mut i: usize = 0;
        assert(elements_show(children@, *self, n.children@.take(0)));
        assert(renders_all(*self, n.children@.take(0)));
        while i < n.children.len()
            invariant
                i <= n.children@.len(),
                elements_show(children@, *self, n.children@.take(i as int)),
                renders_all(*self, n.children@.take(i as int)),
            decreases n.children.len() - i,
        {
            let c = self.render_element_content(&n.children[i]);
            proof {
                assert(n.children@.take(i + 1).drop_last() =~= n.children@.take(i as int));
                assert(n.children@.take(i + 1).last() == n.children@[i as int]);
            }
            match c {
                Some(v) => {
                    let ghost before = children@;
                    children.push(v);
                    assert(children@.drop_last() =~= before);
                },
                None => {
                    proof {
                        lemma_renders_all_prefix(*self, n.children@, i as int);
                    }
                    return None;
                },
            }
            i = i + 1;
        }
        assert(n.children@.take(n.children@.len() as int) =~= n.children@);
        let continuation = match &n.continuation {
            Some(t) => Some(self.render_field(diff, &n.path, TextField::Continuation, t)),
            None => None,
        };
        Some(ElementView { path: n.path.clone(), fields, blame, children, continuation })
    }

    /// The center pane.
    pub fn view_reading_pane(&self) -> (p: ReadingPane)
        ensures
            reading_pane_shows(p, *self),
    {
        let dataset = match &self.dataset {
            Some(d) => d,
            None => return ReadingPane::NoDataset,
        };
        let path = match &self.selected_path {
            Some(p) => p,
            None => return ReadingPane::NoSelection,
        };
        if self.selected_version_index >= dataset.versions.len() {
            return ReadingPane::NoVersion;
        }
        match find(&dataset.versions[self.selected_version_index].element, path) {
            Lookup::Found(e) => match self.render_element_content(e) {
                Some(v) => ReadingPane::Element(v),
                None => ReadingPane::Malformed,
            },
            Lookup::Missing => ReadingPane::NotFound,
            Lookup::Invalid => ReadingPane::Malformed,
        }
    }
}

/// Where an element of `ns` at or after `i` cannot be shown, not all of `ns` can.
proof fn lemma_renders_all_prefix(s: AppState, ns: Seq<ElementNode>, i: int)
    requires
        0 <= i < ns.len(),
        !renders(s, ns[i]),
    ensures
        !renders_all(s, ns),
    decreases ns.len(),
{
    if i < ns.len() - 1 {
        assert(ns.drop_last()[i] == ns[i]);
        lemma_renders_all_prefix(s, ns.drop_last(), i);
    }
}

/// The first change to `f` in `cs` is one of `cs`, and there is one
/// exactly where some change of `cs` is to `f`.
proof fn lemma_first_field_change(cs: Seq<FieldChange>, f: TextField)
    ensures
        first_field_change(cs, f) is Some <==> exists|i: int| 0 <= i < cs.len() && #[trigger] cs[i].field_name == f,
        first_field_change(cs, f) matches Some(c) ==> exists|i: int| 0 <= i < cs.len() && #[trigger] cs[i] == c
            && c.field_name == f,
    decreases cs.len(),
{
    if cs.len() > 0 {
        lemma_first_field_change(cs.drop_first(), f);
        if cs[0].field_name != f {
            if exists|i: int| 0 <= i < cs.len() && #[trigger] cs[i].field_name == f {
                let i = choose|i: int| 0 <= i < cs.len() && #[trigger] cs[i].field_name == f;
                assert(cs.drop_first()[i - 1].field_name == f);
            }
            if let Some(c) = first_field_change(cs, f) {
                let i = choose|i: int| 0 <= i < cs.drop_first().len() && #[trigger] cs.drop_first()[i] == c
                    && c.field_name == f;
                assert(cs[i + 1] == c);
            }
        }
    }
}

/// At a version that has a previous one, the reading pane marks a field of
/// the document's root element exactly where the field's text changed from
/// the previous version, and the marked words spell the old text and the
/// new text.
pub proof fn law_marks_follow_text_changes(s: AppState, f: TextField)
    requires
        s.wf(),
        has_previous(s, s.selected_version_index as int),
    ensures
        ({
            let vs = s.dataset->0.versions@;
            let i = s.selected_version_index as int;
            let from = vs[i - 1].element;
            let to = vs[i].element;
            &&& marked_change(s, to.path@, f) is Some <==> field_text(from, f) != field_text(to, f)
            &&& marked_change(s, to.path@, f) matches Some(c) ==> old_words(c.changes@) == field_text(
                from,
                f,
            ) && new_words(c.changes@) == field_text(to, f)
        }),
{
    let d = s.current_diff->0;
    let cs = d.changes@;
    lemma_first_field_change(cs, f);
    assert(diff_lookup(s, s.dataset->0.versions@[s.selected_version_index as int].element.path@)
        == Lookup::Found(d));
}

/// The change `c` to the field `f` of the element at `p` is one between
/// the element `x` of the previous version and the element `y` of the
/// version shown: both are at `p`, their texts of the field differ, and the
/// words of `c` spell the old text and the new text.
pub open spec fn spells_change(s: AppState, p: Seq<char>, f: TextField, c: FieldChange, x: ElementNode, y: ElementNode) -> bool {
    let vs = s.dataset->0.versions@;
    let i = s.selected_version_index as int;
    &&& within(vs[i - 1].element, x)
    &&& within(vs[i].element, y)
    &&& x.path@ == p
    &&& y.path@ == p
    &&& field_text(x, f) != field_text(y, f)
    &&& old_words(c.changes@) == field_text(x, f)
    &&& new_words(c.changes@) == field_text(y, f)
}

/// Every word diff that the reading pane marks spells a real change: for
/// the element at `p`, there are elements at `p` in the previous version
/// and in the version shown whose texts of the field differ, and the marked
/// words spell the old text and the new text.
pub proof fn law_marked_words_spell_a_change(s: AppState, p: Seq<char>, f: TextField)
    requires
        s.wf(),
        marked_change(s, p, f) is Some,
    ensures
        exists|x: ElementNode, y: ElementNode| #[trigger] spells_change(s, p, f, marked_change(s, p, f)->0, x, y),
{
    let vs = s.dataset->0.versions@;
    let i = s.selected_version_index as int;
    let d = s.current_diff->0;
    let (x, y) = lemma_found_diff_elements(d, vs[i - 1].element, vs[i].element, p);
    let node = diff_find(d, p)->0;
    lemma_first_field_change(node.changes@, f);
    let c = marked_change(s, p, f)->0;
    let k = choose|k: int| 0 <= k < node.changes@.len() && #[trigger] node.changes@[k] == c
        && c.field_name == f;
    assert(node.changes@[k].field_name == f);
    assert(spells_change(s, p, f, c, x, y));
}

proof fn lemma_fields_follow(v: ElementView, s: AppState, n: ElementNode)
    requires
        element_shows(v, s, n),
    ensures
        v.fields@.len() == text_fields(n).len(),
        forall|i: int|
            #![trigger v.fields@[i]]
            0 <= i < v.fields@.len() ==> field_shows(
                v.fields@[i],
                s,
                n.path@,
                text_fields(n)[i].0,
                text_fields(n)[i].1,
            ) && v.fields@[i].field == text_fields(n)[i].0,
{
    assert(fields_show(v.fields@, s, n.path@, text_fields(n)));
}

proof fn lemma_shown_fields_present(v: ElementView, s: AppState, n: ElementNode)
    requires
        element_shows(v, s, n),
    ensures
        v.fields@.len() == upper_field_count(n),
        n.heading is Some <==> exists|i: int| 0 <= i < v.fields@.len() && #[trigger] v.fields@[i].field == TextField::Heading,
        n.chapeau is Some <==> exists|i: int| 0 <= i < v.fields@.len() && #[trigger] v.fields@[i].field == TextField::Chapeau,
        n.content is Some <==> exists|i: int| 0 <= i < v.fields@.len() && #[trigger] v.fields@[i].field == TextField::Content,
        n.proviso is Some <==> exists|i: int| 0 <= i < v.fields@.len() && #[trigger] v.fields@[i].field == TextField::Proviso,
        forall|i: int|
            0 <= i < v.fields@.len() ==> (#[trigger] v.fields@[i]).field != TextField::Continuation,
        forall|i: int, j: int|
            0 <= i < j < v.fields@.len() ==> reading_rank((#[trigger] v.fields@[i]).field) < reading_rank(
                (#[trigger] v.fields@[j]).field,
            ),
{
    lemma_text_fields(n);
    lemma_fields_follow(v, s, n);
    let fs = text_fields(n);
    assert forall|i: int| 0 <= i < v.fields@.len() && #[trigger] v.fields@[i].field == TextField::Heading implies exists|j: int| 0 <= j < fs.len() && #[trigger] fs[j].0 == TextField::Heading by { assert(fs[i].0 == TextField::Heading); }
    assert forall|i: int| 0 <= i < v.fields@.len() && #[trigger] v.fields@[i].field == TextField::Chapeau implies exists|j: int| 0 <= j < fs.len() && #[trigger] fs[j].0 == TextField::Chapeau by { assert(fs[i].0 == TextField::Chapeau); }
    assert forall|i: int| 0 <= i < v.fields@.len() && #[trigger] v.fields@[i].field == TextField::Content implies exists|j: int| 0 <= j < fs.len() && #[trigger] fs[j].0 == TextField::Content by { assert(fs[i].0 == TextField::Content); }
    assert forall|i: int| 0 <= i < v.fields@.len() && #[trigger] v.fields@[i].field == TextField::Proviso implies exists|j: int| 0 <= j < fs.len() && #[trigger] fs[j].0 == TextField::Proviso by { assert(fs[i].0 == TextField::Proviso); }
    if n.heading is Some { let j = choose|j: int| 0 <= j < fs.len() && #[trigger] fs[j].0 == TextField::Heading; assert(v.fields@[j].field == TextField::Heading); }
    if n.chapeau is Some { let j = choose|j: int| 0 <= j < fs.len() && #[trigger] fs[j].0 == TextField::Chapeau; assert(v.fields@[j].field == TextField::Chapeau); }
    if n.content is Some { let j = choose|j: int| 0 <= j < fs.len() && #[trigger] fs[j].0 == TextField::Content; assert(v.fields@[j].field == TextField::Content); }
    if n.proviso is Some { let j = choose|j: int| 0 <= j < fs.len() && #[trigger] fs[j].0 == TextField::Proviso; assert(v.fields@[j].field == TextField::Proviso); }
    assert forall|i: int, j: int| 0 <= i < j < v.fields@.len() implies reading_rank((#[trigger] v.fields@[i]).field)
        < reading_rank((#[trigger] v.fields@[j]).field) by {
        assert(reading_rank(fs[i].0) < reading_rank(fs[j].0));
    }
    assert forall|i: int| 0 <= i < v.fields@.len() implies (#[trigger] v.fields@[i]).field != TextField::Continuation by {
        assert(fs[i].0 != TextField::Continuation);
    }
}

proof fn lemma_shown_field_texts(v: ElementView, s: AppState, n: ElementNode)
    requires
        element_shows(v, s, n),
    ensures
        forall|i: int|
            0 <= i < v.fields@.len() && #[trigger] v.fields@[i].field == TextField::Heading ==> n.heading is Some && (
            v.fields@[i].body matches FieldBody::Plain(t) ==> t@ == n.heading->0@),
        forall|i: int|
            0 <= i < v.fields@.len() && #[trigger] v.fields@[i].field == TextField::Chapeau ==> n.chapeau is Some && (
            v.fields@[i].body matches FieldBody::Plain(t) ==> t@ == n.chapeau->0@),
        forall|i: int|
            0 <= i < v.fields@.len() && #[trigger] v.fields@[i].field == TextField::Content ==> n.content is Some && (
            v.fields@[i].body matches FieldBody::Plain(t) ==> t@ == n.content->0@),
        forall|i: int|
            0 <= i < v.fields@.len() && #[trigger] v.fields@[i].field == TextField::Proviso ==> n.proviso is Some && (
            v.fields@[i].body matches FieldBody::Plain(t) ==> t@ == n.proviso->0@),
{
    lemma_text_fields(n);
    lemma_fields_follow(v, s, n);
    let fs = text_fields(n);
    assert forall|i: int|
        0 <= i < v.fields@.len() && #[trigger] v.fields@[i].field == TextField::Heading implies n.heading is Some && (
        v.fields@[i].body matches FieldBody::Plain(t) ==> t@ == n.heading->0@) by {
        assert(fs[i].0 == TextField::Heading);
    }
    assert forall|i: int|
        0 <= i < v.fields@.len() && #[trigger] v.fields@[i].field == TextField::Chapeau implies n.chapeau is Some && (
        v.fields@[i].body matches FieldBody::Plain(t) ==> t@ == n.chapeau->0@) by {
        assert(fs[i].0 == TextField::Chapeau);
    }
    assert forall|i: int|
        0 <= i < v.fields@.len() && #[trigger] v.fields@[i].field == TextField::Content implies n.content is Some && (
        v.fields@[i].body matches FieldBody::Plain(t) ==> t@ == n.content->0@) by {
        assert(fs[i].0 == TextField::Content);
    }
    assert forall|i: int|
        0 <= i < v.fields@.len() && #[trigger] v.fields@[i].field == TextField::Proviso implies n.proviso is Some && (
        v.fields@[i].body matches FieldBody::Plain(t) ==> t@ == n.proviso->0@) by {
        assert(fs[i].0 == TextField::Proviso);
    }
}

proof fn lemma_shown_field_marks(v: ElementView, s: AppState, n: ElementNode)
    requires
        element_shows(v, s, n),
    ensures
        forall|i: int|
            0 <= i < v.fields@.len() ==> ((#[trigger] v.fields@[i]).body is Marked <==> (diff_lookup(
                s,
                n.path@,
            ) matches Lookup::Found(d) && exists|k: int|
                0 <= k < d.changes@.len() && #[trigger] d.changes@[k].field_name == v.fields@[i].field)),
        n.continuation is Some <==> v.continuation is Some,
        v.continuation matches Some(c) ==> c.field == TextField::Continuation && (c.body matches FieldBody::Plain(
            t,
        ) ==> t@ == n.continuation->0@),
{
    lemma_fields_follow(v, s, n);
    let fs = text_fields(n);
    assert forall|i: int| 0 <= i < v.fields@.len() implies ((#[trigger] v.fields@[i]).body is Marked <==> (
    diff_lookup(s, n.path@) matches Lookup::Found(d) && exists|k: int|
        0 <= k < d.changes@.len() && #[trigger] d.changes@[k].field_name == v.fields@[i].field)) by {
        if let Lookup::Found(d) = diff_lookup(s, n.path@) {
            lemma_first_field_change(d.changes@, v.fields@[i].field);
        }
    }
    if n.continuation is Some {
        if let Lookup::Found(d) = diff_lookup(s, n.path@) {
            lemma_first_field_change(d.changes@, TextField::Continuation);
        }
    }
}

/// The element's own fields decide what the reading pane shows of it: one
/// view for each of its fields heading, chapeau, content and proviso that
/// it has, in that order and for no other field; each shows the field's own
/// text where it is not marked, and it is marked exactly where the element's
/// diff holds a change to that field. The continuation is shown after the
/// children exactly where the element has one.
pub proof fn law_reading_pane_shows_every_field(v: ElementView, s: AppState, n: ElementNode)
    requires
        element_shows(v, s, n),
    ensures
        v.fields@.len() == upper_field_count(n),
        n.heading is Some <==> exists|i: int| 0 <= i < v.fields@.len() && #[trigger] v.fields@[i].field == TextField::Heading,
        n.chapeau is Some <==> exists|i: int| 0 <= i < v.fields@.len() && #[trigger] v.fields@[i].field == TextField::Chapeau,
        n.content is Some <==> exists|i: int| 0 <= i < v.fields@.len() && #[trigger] v.fields@[i].field == TextField::Content,
        n.proviso is Some <==> exists|i: int| 0 <= i < v.fields@.len() && #[trigger] v.fields@[i].field == TextField::Proviso,
        forall|i: int|
            0 <= i < v.fields@.len() && #[trigger] v.fields@[i].field == TextField::Heading ==> n.heading is Some && (
            v.fields@[i].body matches FieldBody::Plain(t) ==> t@ == n.heading->0@),
        forall|i: int|
            0 <= i < v.fields@.len() && #[trigger] v.fields@[i].field == TextField::Chapeau ==> n.chapeau is Some && (
            v.fields@[i].body matches FieldBody::Plain(t) ==> t@ == n.chapeau->0@),
        forall|i: int|
            0 <= i < v.fields@.len() && #[trigger] v.fields@[i].field == TextField::Content ==> n.content is Some && (
            v.fields@[i].body matches FieldBody::Plain(t) ==> t@ == n.content->0@),
        forall|i: int|
            0 <= i < v.fields@.len() && #[trigger] v.fields@[i].field == TextField::Proviso ==> n.proviso is Some && (
            v.fields@[i].body matches FieldBody::Plain(t) ==> t@ == n.proviso->0@),
        forall|i: int|
            0 <= i < v.fields@.len() ==> (#[trigger] v.fields@[i]).field != TextField::Continuation,
        forall|i: int, j: int|
            0 <= i < j < v.fields@.len() ==> reading_rank((#[trigger] v.fields@[i]).field) < reading_rank(
                (#[trigger] v.fields@[j]).field,
            ),
        forall|i: int|
            0 <= i < v.fields@.len() ==> ((#[trigger] v.fields@[i]).body is Marked <==> (diff_lookup(
                s,
                n.path@,
            ) matches Lookup::Found(d) && exists|k: int|
                0 <= k < d.changes@.len() && #[trigger] d.changes@[k].field_name == v.fields@[i].field)),
        n.continuation is Some <==> v.continuation is Some,
        v.continuation matches Some(c) ==> c.field == TextField::Continuation && (c.body matches FieldBody::Plain(
            t,
        ) ==> t@ == n.continuation->0@),
{
    lemma_shown_fields_present(v, s, n);
    lemma_shown_field_texts(v, s, n);
    lemma_shown_field_marks(v, s, n);
}

} // verus!
