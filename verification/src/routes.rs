//! Where the entries of the sidebar lead.

use vstd::prelude::*;
use vstd::string::*;

verus! {

/// What an entry of the sidebar stands for: an instance, or a workspace, tab or
/// pane of the instance at `index`.
#[derive(Debug)]
pub enum SidebarHit {
    Instance { index: usize },
    Workspace { index: usize, workspace_id: String },
    Tab { index: usize, tab_id: String },
    Pane { index: usize, pane_id: String },
}

/// The mathematical model of a sidebar entry's target.
pub enum HitView {
    Instance { index: usize },
    Workspace { index: usize, workspace_id: Seq<char> },
    Tab { index: usize, tab_id: Seq<char> },
    Pane { index: usize, pane_id: Seq<char> },
}

impl View for SidebarHit {
    type V = HitView;

    open spec fn view(&self) -> HitView {
        match self {
            SidebarHit::Instance { index } => HitView::Instance { index: *index },
            SidebarHit::Workspace { index, workspace_id } => HitView::Workspace {
                index: *index,
                workspace_id: workspace_id@,
            },
            SidebarHit::Tab { index, tab_id } => HitView::Tab { index: *index, tab_id: tab_id@ },
            SidebarHit::Pane { index, pane_id } => HitView::Pane {
                index: *index,
                pane_id: pane_id@,
            },
        }
    }
}

impl Clone for SidebarHit {
    fn clone(&self) -> (r: Self)
        ensures
            r == *self,
    {
        match self {
            SidebarHit::Instance { index } => SidebarHit::Instance { index: *index },
            SidebarHit::Workspace { index, workspace_id } => SidebarHit::Workspace {
                index: *index,
                workspace_id: workspace_id.clone(),
            },
            SidebarHit::Tab { index, tab_id } => SidebarHit::Tab {
                index: *index,
                tab_id: tab_id.clone(),
            },
            SidebarHit::Pane { index, pane_id } => SidebarHit::Pane {
                index: *index,
                pane_id: pane_id.clone(),
            },
        }
    }
}

/// The model of an optional target.
pub open spec fn opt_hit(o: Option<SidebarHit>) -> Option<HitView> {
    match o {
        Some(h) => Some(h@),
        None => None,
    }
}

/// The instance that a target belongs to.
pub open spec fn hit_instance(hit: HitView) -> usize {
    match hit {
        HitView::Instance { index } => index,
        HitView::Workspace { index, .. } => index,
        HitView::Tab { index, .. } => index,
        HitView::Pane { index, .. } => index,
    }
}

} // verus!
