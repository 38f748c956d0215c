//! The application's state and the rules by which each message changes it.
use vstd::prelude::*;
use crate::diff::{
    changed_paths_of, collect_changed_paths, diff_of, diff_versions,
    law_changed_paths_depend_on_trees_alone, law_changed_paths_occur_in_both,
    occurs_in, DiffNode,
};
use crate::model::Dataset;
use crate::pathset::PathSet;

verus! {

/// How the reading pane lays out the selected element.
#[derive(Clone, Copy, Debug, PartialEq, Eq, Structural)]
pub enum ViewMode {
    Reading,
    Structured,
}

/// How the timeline at the bottom of the window is drawn.
#[derive(Clone, Copy, Debug, PartialEq, Eq, Structural)]
pub enum TimelineStyle {
    Scrubber,
    Markers,
}

/// The tabs of the changes pane.
#[derive(Clone, Copy, Debug, PartialEq, Eq, Structural)]
pub enum ChangesTab {
    ThisVersion,
    AllPaths,
    Lifetime,
}

/// A key of the keyboard, as far as the shortcuts tell keys apart.
#[derive(Clone, Debug)]
pub enum Key {
    /// A key that types the given text.
    Character(String),
    Escape,
    Other,
}

/// The modifier keys held with a key press.
#[derive(Clone, Copy, Debug)]
pub struct Modifiers {
    /// The platform's command key (Ctrl, or Cmd on macOS).
    pub command: bool,
}

/// What the user or the loader tells the application.
#[derive(Debug)]
pub enum Message {
    TreeToggle(String),
    SelectPath(String),
    VersionChange(usize),
    NextVersion,
    PrevVersion,
    ToggleViewMode,
    ToggleBlame,
    SetTimelineStyle(TimelineStyle),
    SetChangesTab(ChangesTab),
    ToggleSearch,
    ToggleLoader,
    CloseOverlays,
    LoadDataset(String),
    DatasetLoaded(Box<Dataset>),
    DatasetError(String),
    SearchQueryChanged(String),
    SearchSubmit,
    LoaderPathChanged(String),
    KeyPressed(Key, Modifiers),
    /// An event that the viewer ignores.
    NoOp,
}

/// A keyboard event, as far as the viewer tells events apart.
#[derive(Debug)]
pub enum KeyEvent {
    /// A key went down with the given modifiers held.
    Pressed(Key, Modifiers),
    /// Any other keyboard event (a key released, the modifiers changed).
    Other,
}

/// The message that a keyboard event sends: a pressed key is handed on as
/// it is, and any other event is ignored.
pub open spec fn key_message(e: KeyEvent) -> Message {
    match e {
        KeyEvent::Pressed(k, mods) => Message::KeyPressed(k, mods),
        KeyEvent::Other => Message::NoOp,
    }
}

/// The message that a keyboard event sends (see `key_message`).
pub fn key_event_message(e: KeyEvent) -> (m: Message)
    ensures
        m == key_message(e),
{
    match e {
        KeyEvent::Pressed(k, mods) => Message::KeyPressed(k, mods),
        KeyEvent::Other => Message::NoOp,
    }
}

/// Work that the application's runtime does after a message: load the
/// dataset at a path (and answer with `DatasetLoaded` or `DatasetError`),
/// or report an error.
#[derive(Debug)]
pub enum Action {
    Nothing,
    LoadDataset(String),
    ReportError(String),
}

/// The whole state of the viewer.
pub struct AppState {
    /// The loaded dataset, once there is one.
    pub dataset: Option<Dataset>,
    /// The element shown in the reading pane.
    pub selected_path: Option<String>,
    /// The version shown, counted from 0.
    pub selected_version_index: usize,
    /// The diff from the previous version to the one shown, where there is one.
    pub current_diff: Option<DiffNode>,
    /// The paths of the elements that the current diff shows changed.
    pub changed_paths: PathSet,
    /// The paths of the expanded nodes of the tree pane.
    pub tree_expanded: PathSet,
    pub view_mode: ViewMode,
    pub show_blame: bool,
    pub timeline_style: TimelineStyle,
    pub changes_tab: ChangesTab,
    pub show_search: bool,
    pub show_loader: bool,
    pub search_query: String,
    pub loader_path: String,
}

/// The number of versions of the dataset, 0 where none is loaded.
pub open spec fn version_count(s: AppState) -> nat {
    match s.dataset {
        Some(d) => d.versions@.len(),
        None => 0,
    }
}

/// There is a version before the version at `index` to compare it with.
pub open spec fn has_previous(s: AppState, index: int) -> bool {
    s.dataset is Some && index > 0 && version_count(s) >= 2
}

/// The version at `index` and the one before it are the same element, so
/// that the two can be compared.
pub open spec fn comparable_at(d: Dataset, index: int) -> bool {
    d.versions@[index - 1].element.path@ == d.versions@[index].element.path@
}

/// The diff and the changed paths are those of the version shown: where
/// there is a previous version, the two versions are the same element, the
/// diff is the one between them, and the changed paths are those of that
/// diff; at the first version there is neither.
pub open spec fn diff_matches_version(s: AppState) -> bool {
    &&& s.changed_paths.wf()
    &&& if has_previous(s, s.selected_version_index as int) {
        match s.current_diff {
            Some(d) => {
                let vs = s.dataset->0.versions@;
                let i = s.selected_version_index as int;
                &&& comparable_at(s.dataset->0, i)
                &&& diff_of(d, vs[i - 1].element, vs[i].element)
                &&& s.changed_paths@ == changed_paths_of(d)
            },
            None => false,
        }
    } else {
        s.current_diff is None && s.changed_paths@ == Set::<Seq<char>>::empty()
    }
}

/// The version shown is one of the dataset's (or 0 where there are none).
pub open spec fn index_in_range(s: AppState) -> bool {
    match s.dataset {
        Some(d) => s.selected_version_index < d.versions@.len() || (d.versions@.len() == 0
            && s.selected_version_index == 0),
        None => s.selected_version_index == 0,
    }
}

/// The state of a freshly opened viewer: no dataset, the first version, no
/// diff, nothing expanded, the reading view with the blame gutter shown,
/// the scrubber, the "This Version" tab, no overlay, and empty inputs.
pub open spec fn is_initial(s: AppState) -> bool {
    &&& s.dataset is None
    &&& s.selected_path is None
    &&& s.selected_version_index == 0
    &&& s.current_diff is None
    &&& s.changed_paths@ == Set::<Seq<char>>::empty()
    &&& s.tree_expanded@ == Set::<Seq<char>>::empty()
    &&& s.view_mode == ViewMode::Reading
    &&& s.show_blame
    &&& s.timeline_style == TimelineStyle::Scrubber
    &&& s.changes_tab == ChangesTab::ThisVersion
    &&& !s.show_search
    &&& !s.show_loader
    &&& s.search_query@ == Seq::<char>::empty()
    &&& s.loader_path@ == Seq::<char>::empty()
}

impl Default for AppState {
    /// The state of a freshly opened viewer.
    fn default() -> (s: AppState)
        ensures
            s.wf(),
            is_initial(s),
    {
        AppState::new()
    }
}

impl AppState {
    /// The state is consistent: the path sets hold no path twice, the
    /// dataset holds each key once, the version shown is in range, and the
    /// diff is that of the version shown.
    pub open spec fn wf(&self) -> bool {
        &&& self.tree_expanded.wf()
        &&& self.dataset matches Some(d) ==> d.keys_unique()
        &&& index_in_range(*self)
        &&& diff_matches_version(*self)
    }

    /// The state of a freshly opened viewer (see `is_initial`).
    pub fn new() -> (s: AppState)
        ensures
            s.wf(),
            is_initial(s),
    {
        AppState {
            dataset: None,
            selected_path: None,
            selected_version_index: 0,
            current_diff: None,
            changed_paths: PathSet::new(),
            tree_expanded: PathSet::new(),
            view_mode: ViewMode::Reading,
            show_blame: true,
            timeline_style: TimelineStyle::Scrubber,
            changes_tab: ChangesTab::ThisVersion,
            show_search: false,
            show_loader: false,
            search_query: String::new(),
            loader_path: String::new(),
        }
    }

    /// Recomputes the diff between the version shown and the one before it,
    /// and the paths that it shows changed.
    fn recompute_diff(&mut self)
        requires
            old(self).changed_paths.wf(),
            index_in_range(*old(self)),
            has_previous(*old(self), old(self).selected_version_index as int) ==> comparable_at(
                old(self).dataset->0,
                old(self).selected_version_index as int,
            ),
        ensures
            diff_matches_version(*final(self)),
            final(self).dataset == old(self).dataset,
            final(self).selected_path == old(self).selected_path,
            final(self).selected_version_index == old(self).selected_version_index,
            final(self).tree_expanded == old(self).tree_expanded,
            final(self).view_mode == old(self).view_mode,
            final(self).show_blame == old(self).show_blame,
            final(self).timeline_style == old(self).timeline_style,
            final(self).changes_tab == old(self).changes_tab,
            final(self).show_search == old(self).show_search,
            final(self).show_loader == old(self).show_loader,
            final(self).search_query == old(self).search_query,
            final(self).loader_path == old(self).loader_path,
    {
        self.current_diff = None;
        self.changed_paths.clear();
        let index = self.selected_version_index;
        match &self.dataset {
            None => {},
            Some(dataset) => {
                if index == 0 || dataset.versions.len() < 2 {
                    return;
                }
                let from = &dataset.versions[index - 1].element;
                let to = &dataset.versions[index].element;
                let diff = diff_versions(from, to);
                collect_changed_paths(&diff, &mut self.changed_paths);
                proof {
                    assert(self.changed_paths@ =~= changed_paths_of(diff));
                }
                self.current_diff = Some(diff);
            },
        }
    }
}


/// `s` with `p` taken out where it holds it, and put in where it does not.
pub open spec fn toggled(s: Set<Seq<char>>, p: Seq<char>) -> Set<Seq<char>> {
    if s.contains(p) {
        s.remove(p)
    } else {
        s.insert(p)
    }
}

/// The other view mode.
pub open spec fn flipped(m: ViewMode) -> ViewMode {
    match m {
        ViewMode::Reading => ViewMode::Structured,
        ViewMode::Structured => ViewMode::Reading,
    }
}

/// Which overlays are open, search then loader, after a key press: with the
/// command key, `k` toggles the search overlay and closes the loader, `o`
/// toggles the loader and closes the search overlay; Escape closes both.
pub open spec fn overlays_after_key(search: bool, loader: bool, key: Key, mods: Modifiers) -> (bool, bool) {
    let shortcut = if mods.command {
        match key {
            Key::Character(c) => if c@ == "k"@ {
                (!search, false)
            } else if c@ == "o"@ {
                (false, !loader)
            } else {
                (search, loader)
            },
            _ => (search, loader),
        }
    } else {
        (search, loader)
    };
    if key is Escape {
        (false, false)
    } else {
        shortcut
    }
}

/// The display settings of `b` are the given ones.
pub open spec fn display_is(
    b: AppState,
    view_mode: ViewMode,
    show_blame: bool,
    timeline_style: TimelineStyle,
    changes_tab: ChangesTab,
    show_search: bool,
    show_loader: bool,
    search_query: Seq<char>,
    loader_path: Seq<char>,
) -> bool {
    &&& b.view_mode == view_mode
    &&& b.show_blame == show_blame
    &&& b.timeline_style == timeline_style
    &&& b.changes_tab == changes_tab
    &&& b.show_search == show_search
    &&& b.show_loader == show_loader
    &&& b.search_query@ == search_query
    &&& b.loader_path@ == loader_path
}

/// `b` shows the same as `a` with the overlays given.
pub open spec fn display_with_overlays(a: AppState, b: AppState, search: bool, loader: bool) -> bool {
    display_is(
        b,
        a.view_mode,
        a.show_blame,
        a.timeline_style,
        a.changes_tab,
        search,
        loader,
        a.search_query@,
        a.loader_path@,
    )
}

/// The display settings of `b` are those of `a`.
pub open spec fn display_same(a: AppState, b: AppState) -> bool {
    display_with_overlays(a, b, a.show_search, a.show_loader)
}

/// What `b` shows of the dataset is as given; where `recomputed` is false,
/// its diff and changed paths are those of `a`.
pub open spec fn content_is(
    a: AppState,
    b: AppState,
    dataset: Option<Dataset>,
    selected_path: Option<String>,
    index: usize,
    expanded: Set<Seq<char>>,
    recomputed: bool,
) -> bool {
    &&& b.dataset == dataset
    &&& b.selected_path == selected_path
    &&& b.selected_version_index == index
    &&& b.tree_expanded@ == expanded
    &&& !recomputed ==> b.current_diff == a.current_diff && b.changed_paths@ == a.changed_paths@
}

/// What `b` shows of the dataset is what `a` shows.
pub open spec fn content_same(a: AppState, b: AppState) -> bool {
    content_is(a, b, a.dataset, a.selected_path, a.selected_version_index, a.tree_expanded@, false)
}

/// `b` shows the version at `index` of what `a` shows, with the diff
/// recomputed.
pub open spec fn moved_to(a: AppState, b: AppState, index: usize) -> bool {
    content_is(a, b, a.dataset, a.selected_path, index, a.tree_expanded@, true)
}

/// The message `m` turns the state `a` into `b` and asks for the action `act`.
pub open spec fn transition(a: AppState, b: AppState, m: Message, act: Action) -> bool {
    match m {
        Message::TreeToggle(p) => content_is(
            a,
            b,
            a.dataset,
            a.selected_path,
            a.selected_version_index,
            toggled(a.tree_expanded@, p@),
            false,
        ) && display_same(a, b) && act is Nothing,
        Message::SelectPath(p) => content_is(
            a,
            b,
            a.dataset,
            Some(p),
            a.selected_version_index,
            a.tree_expanded@,
            false,
        ) && display_same(a, b) && act is Nothing,
        Message::VersionChange(i) => (if a.dataset is Some && i < version_count(a) {
            moved_to(a, b, i)
        } else {
            content_same(a, b)
        }) && display_same(a, b) && act is Nothing,
        Message::NextVersion => (if a.dataset is Some && a.selected_version_index + 1 < version_count(a) {
            moved_to(a, b, (a.selected_version_index + 1) as usize)
        } else {
            content_same(a, b)
        }) && display_same(a, b) && act is Nothing,
        Message::PrevVersion => (if a.selected_version_index > 0 {
            moved_to(a, b, (a.selected_version_index - 1) as usize)
        } else {
            content_same(a, b)
        }) && display_same(a, b) && act is Nothing,
        Message::ToggleViewMode => content_same(a, b) && display_is(
            b,
            flipped(a.view_mode),
            a.show_blame,
            a.timeline_style,
            a.changes_tab,
            a.show_search,
            a.show_loader,
            a.search_query@,
            a.loader_path@,
        ) && act is Nothing,
        Message::ToggleBlame => content_same(a, b) && display_is(
            b,
            a.view_mode,
            !a.show_blame,
            a.timeline_style,
            a.changes_tab,
            a.show_search,
            a.show_loader,
            a.search_query@,
            a.loader_path@,
        ) && act is Nothing,
        Message::SetTimelineStyle(t) => content_same(a, b) && display_is(
            b,
            a.view_mode,
            a.show_blame,
            t,
            a.changes_tab,
            a.show_search,
            a.show_loader,
            a.search_query@,
            a.loader_path@,
        ) && act is Nothing,
        Message::SetChangesTab(t) => content_same(a, b) && display_is(
            b,
            a.view_mode,
            a.show_blame,
            a.timeline_style,
            t,
            a.show_search,
            a.show_loader,
            a.search_query@,
            a.loader_path@,
        ) && act is Nothing,
        Message::ToggleSearch => content_same(a, b) && display_with_overlays(
            a,
            b,
            !a.show_search,
            if !a.show_search { false } else { a.show_loader },
        ) && act is Nothing,
        Message::ToggleLoader => content_same(a, b) && display_with_overlays(
            a,
            b,
            if !a.show_loader { false } else { a.show_search },
            !a.show_loader,
        ) && act is Nothing,
        Message::CloseOverlays => content_same(a, b) && display_with_overlays(a, b, false, false)
            && act is Nothing,
        Message::LoadDataset(p) => content_same(a, b) && display_with_overlays(a, b, a.show_search, false)
            && act == Action::LoadDataset(p),
        Message::DatasetLoaded(d) => content_is(
            a,
            b,
            Some(*d),
            None,
            0,
            if d.versions@.len() > 0 {
                a.tree_expanded@.insert(d.versions@[0].element.path@)
            } else {
                a.tree_expanded@
            },
            true,
        ) && display_same(a, b) && act is Nothing,
        Message::DatasetError(e) => content_same(a, b) && display_same(a, b) && act
            == Action::ReportError(e),
        Message::SearchQueryChanged(q) => content_same(a, b) && display_is(
            b,
            a.view_mode,
            a.show_blame,
            a.timeline_style,
            a.changes_tab,
            a.show_search,
            a.show_loader,
            q@,
            a.loader_path@,
        ) && act is Nothing,
        Message::SearchSubmit => content_same(a, b) && display_same(a, b) && act is Nothing,
        Message::NoOp => content_same(a, b) && display_same(a, b) && act is Nothing,
        Message::LoaderPathChanged(p) => content_same(a, b) && display_is(
            b,
            a.view_mode,
            a.show_blame,
            a.timeline_style,
            a.changes_tab,
            a.show_search,
            a.show_loader,
            a.search_query@,
            p@,
        ) && act is Nothing,
        Message::KeyPressed(k, mods) => {
            let o = overlays_after_key(a.show_search, a.show_loader, k, mods);
            content_same(a, b) && display_with_overlays(a, b, o.0, o.1) && act is Nothing
        },
    }
}

/// The message `m` can be handled in state `s`: where it moves to a version
/// that has a previous one, the two versions are the same element (the diff
/// between them asserts that they are); a loaded dataset holds each key
/// once (it was read from maps by those keys).
pub open spec fn accepts(s: AppState, m: Message) -> bool {
    match m {
        Message::VersionChange(i) => (s.dataset is Some && i < version_count(s) && has_previous(s, i as int))
            ==> comparable_at(s.dataset->0, i as int),
        Message::NextVersion => (s.dataset is Some && s.selected_version_index + 1 < version_count(s))
            ==> comparable_at(s.dataset->0, s.selected_version_index + 1),
        Message::PrevVersion => (s.selected_version_index > 0 && has_previous(
            s,
            s.selected_version_index - 1,
        )) ==> comparable_at(s.dataset->0, s.selected_version_index - 1),
        Message::DatasetLoaded(d) => d.keys_unique(),
        _ => true,
    }
}

/// Whether the versions at `index - 1` and `index` are the same element.
fn versions_comparable(d: &Dataset, index: usize) -> (b: bool)
    requires
        0 < index < d.versions@.len(),
    ensures
        b == comparable_at(*d, index as int),
{
    d.versions[index - 1].element.path == d.versions[index].element.path
}

/// Whether the string is exactly `lit`.
fn is_text(s: &String, lit: &str) -> (b: bool)
    ensures
        b == (s@ == lit@),
{
    let l = String::from_str(lit);
    *s == l
}

impl AppState {
    /// Whether the message can be handled in this state (see `accepts`).
    pub fn can_handle(&self, m: &Message) -> (b: bool)
        requires
            self.wf(),
        ensures
            b == accepts(*self, *m),
    {
        let index = self.selected_version_index;
        match m {
            Message::VersionChange(i) => match &self.dataset {
                Some(d) => {
                    if *i < d.versions.len() && *i > 0 && d.versions.len() >= 2 {
                        versions_comparable(d, *i)
                    } else {
                        true
                    }
                },
                None => true,
            },
            Message::NextVersion => match &self.dataset {
                Some(d) => {
                    if d.versions.len() > 0 && index < d.versions.len() - 1 {
                        versions_comparable(d, index + 1)
                    } else {
                        true
                    }
                },
                None => true,
            },
            Message::PrevVersion => match &self.dataset {
                Some(d) => {
                    if index > 1 && d.versions.len() >= 2 {
                        versions_comparable(d, index - 1)
                    } else {
                        true
                    }
                },
                None => true,
            },
            Message::DatasetLoaded(d) => d.has_unique_keys(),
            _ => true,
        }
    }

    /// Changes the state in answer to a message, and says what the runtime
    /// is to do next.
    #[verifier::rlimit(100)]
    #[verifier::spinoff_prover]
    pub fn update(&mut self, m: Message) -> (act: Action)
        requires
            old(self).wf(),
            accepts(*old(self), m),
        ensures
            final(self).wf(),
            transition(*old(self), *final(self), m, act),
    {
        let ghost m0 = m;
        match m {
            Message::TreeToggle(path) => {
                if self.tree_expanded.contains(&path) {
                    self.tree_expanded.remove(&path);
                } else {
                    self.tree_expanded.insert(path);
                }
                Action::Nothing
            },
            Message::SelectPath(path) => {
                self.selected_path = Some(path);
                Action::Nothing
            },
            Message::VersionChange(idx) => {
                let fits = match &self.dataset {
                    Some(d) => idx < d.versions.len(),
                    None => false,
                };
                if fits {
                    self.selected_version_index = idx;
                    self.recompute_diff();
                }
                Action::Nothing
            },
            Message::NextVersion => {
                let fits = match &self.dataset {
                    Some(d) => d.versions.len() > 0 && self.selected_version_index < d.versions.len()
                        - 1,
                    None => false,
                };
                if fits {
                    self.selected_version_index = self.selected_version_index + 1;
                    self.recompute_diff();
                }
                Action::Nothing
            },
            Message::PrevVersion => {
                if self.selected_version_index > 0 {
                    self.selected_version_index = self.selected_version_index - 1;
                    self.recompute_diff();
                }
                Action::Nothing
            },
            Message::ToggleViewMode => {
                self.view_mode = match self.view_mode {
                    ViewMode::Reading => ViewMode::Structured,
                    ViewMode::Structured => ViewMode::Reading,
                };
                Action::Nothing
            },
            Message::ToggleBlame => {
                self.show_blame = !self.show_blame;
                Action::Nothing
            },
            Message::SetTimelineStyle(style) => {
                self.timeline_style = style;
                Action::Nothing
            },
            Message::SetChangesTab(tab) => {
                self.changes_tab = tab;
                Action::Nothing
            },
            Message::ToggleSearch => {
                self.show_search = !self.show_search;
                if self.show_search {
                    self.show_loader = false;
                }
                Action::Nothing
            },
            Message::ToggleLoader => {
                self.show_loader = !self.show_loader;
                if self.show_loader {
                    self.show_search = false;
                }
                Action::Nothing
            },
            Message::CloseOverlays => {
                self.show_search = false;
                self.show_loader = false;
                Action::Nothing
            },
            Message::LoadDataset(path) => {
                self.show_loader = false;
                Action::LoadDataset(path)
            },
            Message::DatasetLoaded(dataset) => {
                if dataset.versions.len() > 0 {
                    let root_path = dataset.versions[0].element.path.clone();
                    self.tree_expanded.insert(root_path);
                }
                self.dataset = Some(*dataset);
                self.selected_version_index = 0;
                self.selected_path = None;
                self.recompute_diff();
                Action::Nothing
            },
            Message::DatasetError(err) => Action::ReportError(err),
            Message::SearchQueryChanged(query) => {
                self.search_query = query;
                Action::Nothing
            },
            Message::SearchSubmit => Action::Nothing,
            Message::NoOp => Action::Nothing,
            Message::LoaderPathChanged(path) => {
                self.loader_path = path;
                Action::Nothing
            },
            Message::KeyPressed(key, modifiers) => {
                if modifiers.command {
                    match &key {
                        Key::Character(c) => {
                            if is_text(c, "k") {
                                self.show_search = !self.show_search;
                                self.show_loader = false;
                            } else if is_text(c, "o") {
                                self.show_loader = !self.show_loader;
                                self.show_search = false;
                            }
                        },
                        _ => {},
                    }
                }
                match key {
                    Key::Escape => {
                        self.show_search = false;
                        self.show_loader = false;
                    },
                    _ => {},
                }
                Action::Nothing
            },
        }
    }
}


/// The search overlay and the loader overlay are never open together: no
/// message opens one while the other stays open.
pub proof fn law_overlays_exclusive(a: AppState, b: AppState, m: Message, act: Action)
    requires
        transition(a, b, m, act),
        !(a.show_search && a.show_loader),
    ensures
        !(b.show_search && b.show_loader),
{
}

/// Toggling the same tree node twice leaves the expanded nodes as they were.
pub proof fn law_tree_toggle_twice(
    a: AppState,
    b: AppState,
    c: AppState,
    p: String,
    q: String,
    act1: Action,
    act2: Action,
)
    requires
        p@ == q@,
        transition(a, b, Message::TreeToggle(p), act1),
        transition(b, c, Message::TreeToggle(q), act2),
    ensures
        c.tree_expanded@ == a.tree_expanded@,
        content_same(a, c),
        display_same(a, c),
{
    assert(toggled(toggled(a.tree_expanded@, p@), p@) =~= a.tree_expanded@);
}

/// Moving to the next version and back returns to the version shown before.
pub proof fn law_next_then_prev(
    a: AppState,
    b: AppState,
    c: AppState,
    act1: Action,
    act2: Action,
)
    requires
        a.dataset is Some,
        a.selected_version_index + 1 < version_count(a),
        transition(a, b, Message::NextVersion, act1),
        transition(b, c, Message::PrevVersion, act2),
    ensures
        c.selected_version_index == a.selected_version_index,
        c.dataset == a.dataset,
        c.selected_path == a.selected_path,
        c.tree_expanded@ == a.tree_expanded@,
{
    assert(a.dataset->0.versions.len() == a.dataset->0.versions@.len());
}

/// Escape closes both overlays, whatever modifier is held.
pub proof fn law_escape_closes_overlays(a: AppState, b: AppState, mods: Modifiers, act: Action)
    requires
        transition(a, b, Message::KeyPressed(Key::Escape, mods), act),
    ensures
        !b.show_search,
        !b.show_loader,
{
}

/// A newly loaded dataset is shown at its first version, with nothing
/// selected, no diff and no changed path, and its root node expanded.
pub proof fn law_loaded_dataset_starts_fresh(a: AppState, b: AppState, d: Box<Dataset>, act: Action)
    requires
        transition(a, b, Message::DatasetLoaded(d), act),
        b.wf(),
    ensures
        b.selected_version_index == 0,
        b.selected_path is None,
        b.current_diff is None,
        b.changed_paths@ == Set::<Seq<char>>::empty(),
        d.versions@.len() > 0 ==> b.tree_expanded@.contains(d.versions@[0].element.path@),
{
}

/// Loading asks the runtime to read the path given and closes the loader.
pub proof fn law_load_requests_path(a: AppState, b: AppState, p: String, act: Action)
    requires
        transition(a, b, Message::LoadDataset(p), act),
    ensures
        act == Action::LoadDataset(p),
        !b.show_loader,
        content_same(a, b),
{
}

/// In a consistent state, the changed paths are exactly the changed
/// elements of the diff from the previous version, and there is no diff at
/// the first version.
pub proof fn law_changed_paths_follow_diff(s: AppState)
    requires
        s.wf(),
    ensures
        s.selected_version_index == 0 ==> s.current_diff is None && s.changed_paths@ == Set::<
            Seq<char>,
        >::empty(),
        s.current_diff matches Some(d) ==> s.changed_paths@ == changed_paths_of(d),
{
}

/// Moving to the previous version and forward again returns to the version
/// shown before.
pub proof fn law_prev_then_next(
    a: AppState,
    b: AppState,
    c: AppState,
    act1: Action,
    act2: Action,
)
    requires
        a.wf(),
        a.selected_version_index > 0,
        transition(a, b, Message::PrevVersion, act1),
        transition(b, c, Message::NextVersion, act2),
    ensures
        c.selected_version_index == a.selected_version_index,
        c.dataset == a.dataset,
        c.selected_path == a.selected_path,
        c.tree_expanded@ == a.tree_expanded@,
{
}

/// In a consistent state, every path that the tree marks changed is the
/// path of an element of the previous version and of one of the version
/// shown.
pub proof fn law_marked_paths_exist_in_both_versions(s: AppState)
    requires
        s.wf(),
        s.current_diff is Some,
    ensures
        forall|p: Seq<char>|
            #[trigger] s.changed_paths@.contains(p) ==> occurs_in(
                s.dataset->0.versions@[s.selected_version_index - 1].element,
                p,
            ) && occurs_in(s.dataset->0.versions@[s.selected_version_index as int].element, p),
{
    let vs = s.dataset->0.versions@;
    let i = s.selected_version_index as int;
    law_changed_paths_occur_in_both(s.current_diff->0, vs[i - 1].element, vs[i].element);
}

/// Only a loaded dataset replaces the dataset: every other message leaves
/// it as it was.
pub proof fn law_only_loading_changes_the_dataset(a: AppState, b: AppState, m: Message, act: Action)
    requires
        transition(a, b, m, act),
        !(m is DatasetLoaded),
    ensures
        b.dataset == a.dataset,
{
}

/// A keyboard event other than a key press changes nothing: the message it
/// sends leaves what the window shows as it was and asks for nothing.
pub proof fn law_other_key_events_change_nothing(a: AppState, b: AppState, act: Action)
    requires
        transition(a, b, key_message(KeyEvent::Other), act),
    ensures
        content_same(a, b),
        display_same(a, b),
        act is Nothing,
{
}

/// The changed paths depend on the version shown alone: two consistent
/// states that show the same version of the same dataset mark the same
/// paths, and both have a diff or neither has. So computing the diff again
/// marks what it marked before; only the order of the parts of the diff,
/// which come in the order in which a hash map is walked, may differ.
pub proof fn law_changed_paths_follow_the_version(s1: AppState, s2: AppState)
    requires
        s1.wf(),
        s2.wf(),
        s1.dataset == s2.dataset,
        s1.selected_version_index == s2.selected_version_index,
    ensures
        s1.changed_paths@ == s2.changed_paths@,
        s1.current_diff is Some <==> s2.current_diff is Some,
{
    if s1.current_diff is Some {
        let vs = s1.dataset->0.versions@;
        let i = s1.selected_version_index as int;
        law_changed_paths_depend_on_trees_alone(
            s1.current_diff->0,
            s2.current_diff->0,
            vs[i - 1].element,
            vs[i].element,
        );
    }
}

/// Moving the slider to a version of the loaded dataset shows that
/// version, earlier or later than the one shown before; a position past the
/// last version is ignored.
pub proof fn law_version_change_shows_that_version(a: AppState, b: AppState, i: usize, act: Action)
    requires
        transition(a, b, Message::VersionChange(i), act),
        a.dataset is Some,
    ensures
        b.dataset == a.dataset,
        i < a.dataset->0.versions@.len() ==> b.selected_version_index == i,
        i >= a.dataset->0.versions@.len() ==> b.selected_version_index == a.selected_version_index
            && b.current_diff == a.current_diff,
{
}

/// Selecting a path selects exactly that path and leaves the version, the
/// diff and the display as they were.
pub proof fn law_select_path_selects_it(a: AppState, b: AppState, p: String, act: Action)
    requires
        transition(a, b, Message::SelectPath(p), act),
    ensures
        b.selected_path == Some(p),
        b.selected_version_index == a.selected_version_index,
        b.dataset == a.dataset,
        b.show_blame == a.show_blame,
        b.show_search == a.show_search && b.show_loader == a.show_loader,
{
}

/// The toggles of the display each flip their own setting and no other.
pub proof fn law_toggles_flip_their_setting(a: AppState, b: AppState, c: AppState, act1: Action, act2: Action)
    requires
        transition(a, b, Message::ToggleBlame, act1),
        transition(a, c, Message::ToggleViewMode, act2),
    ensures
        b.show_blame == !a.show_blame,
        b.view_mode == a.view_mode,
        c.view_mode != a.view_mode,
        c.show_blame == a.show_blame,
        b.selected_version_index == a.selected_version_index,
        c.selected_version_index == a.selected_version_index,
{
}

} // verus!
