//! The whole window: the three panes side by side, the timeline under them,
//! and the overlay on top.
use vstd::prelude::*;
use crate::changes::{changes_shows, timeline_shows, ChangesContent, TimelineView};
use crate::reading::{reading_pane_shows, ReadingPane};
use crate::state::{AppState, ChangesTab, Message};
use crate::views::{tree_pane_shows, TreePane};

verus! {

/// The search overlay: the query typed so far, the message that Enter
/// sends, and the one that a click beside the overlay sends.
#[derive(Debug)]
pub struct SearchModal {
    pub query: String,
    pub submit: Message,
    pub dismiss: Message,
}

/// The loader overlay: the path typed so far, the message that Enter and
/// the Load button send (a request to load that path), and the one that a
/// click beside the overlay sends.
#[derive(Debug)]
pub struct LoaderModal {
    pub path: String,
    pub submit: Message,
    pub dismiss: Message,
}

/// The search overlay shows the state `s`.
pub open spec fn search_modal_shows(m: SearchModal, s: AppState) -> bool {
    &&& m.query@ == s.search_query@
    &&& m.submit == Message::SearchSubmit
    &&& m.dismiss == Message::CloseOverlays
}

/// The loader overlay shows the state `s`.
pub open spec fn loader_modal_shows(m: LoaderModal, s: AppState) -> bool {
    &&& m.path@ == s.loader_path@
    &&& m.submit matches Message::LoadDataset(p) && p@ == s.loader_path@
    &&& m.dismiss == Message::CloseOverlays
}

/// The changes pane: the active tab and what it shows.
#[derive(Debug)]
pub struct ChangesPane {
    pub active_tab: ChangesTab,
    pub content: ChangesContent,
}

/// What the window shows: the panes, the timeline, and at most one
/// overlay, the search overlay before the loader.
#[derive(Debug)]
pub struct WindowView {
    pub tree: TreePane,
    pub reading: ReadingPane,
    pub changes: ChangesPane,
    pub timeline: TimelineView,
    pub search: Option<SearchModal>,
    pub loader: Option<LoaderModal>,
}

/// The changes pane shows the state `s`.
pub open spec fn changes_pane_shows(p: ChangesPane, s: AppState) -> bool {
    p.active_tab == s.changes_tab && changes_shows(p.content, s)
}

/// The window shows the state `s`.
pub open spec fn window_shows(w: WindowView, s: AppState) -> bool {
    &&& tree_pane_shows(w.tree, s)
    &&& reading_pane_shows(w.reading, s)
    &&& changes_pane_shows(w.changes, s)
    &&& timeline_shows(w.timeline, s)
    &&& if s.show_search {
        w.search matches Some(m) && search_modal_shows(m, s) && w.loader is None
    } else if s.show_loader {
        w.loader matches Some(m) && loader_modal_shows(m, s) && w.search is None
    } else {
        w.search is None && w.loader is None
    }
}

impl AppState {
    /// The search overlay.
    pub fn view_search_modal(&self) -> (m: SearchModal)
        ensures
            search_modal_shows(m, *self),
    {
        SearchModal {
            query: self.search_query.clone(),
            submit: Message::SearchSubmit,
            dismiss: Message::CloseOverlays,
        }
    }

    /// The loader overlay.
    pub fn view_loader_modal(&self) -> (m: LoaderModal)
        ensures
            loader_modal_shows(m, *self),
    {
        LoaderModal {
            path: self.loader_path.clone(),
            submit: Message::LoadDataset(self.loader_path.clone()),
            dismiss: Message::CloseOverlays,
        }
    }

    /// The right pane: the tabs and the content of the active one.
    pub fn view_changes_pane(&self) -> (p: ChangesPane)
        requires
            self.wf(),
        ensures
            changes_pane_shows(p, *self),
    {
        ChangesPane { active_tab: self.changes_tab, content: self.render_changes_content() }
    }

    /// The whole window.
    pub fn view(&self) -> (w: WindowView)
        requires
            self.wf(),
        ensures
            window_shows(w, *self),
    {
        let (search, loader) = if self.show_search {
            (Some(self.view_search_modal()), None)
        } else if self.show_loader {
            (None, Some(self.view_loader_modal()))
        } else {
            (None, None)
        };
        WindowView {
            tree: self.view_tree_pane(),
            reading: self.view_reading_pane(),
            changes: self.view_changes_pane(),
            timeline: self.view_timeline(),
            search,
            loader,
        }
    }
}

} // verus!
