//! What an instance reports of its session: its workspaces, tabs, panes and
//! agents.

use vstd::prelude::*;
use vstd::string::*;

use crate::compare::{all_alike, opt_text, same_option_text, views, Alike};
use crate::text::same_text;
use crate::tokens::Tokens;

verus! {

/// What an instance says an agent is doing.
#[derive(Debug, Clone, Copy, PartialEq, Eq, Structural)]
pub enum AgentStatus {
    Working,
    Blocked,
    Done,
    Idle,
    Unknown,
}

/// What the sidebar shows an agent to be doing.
#[derive(Debug, Clone, Copy, PartialEq, Eq, Structural)]
pub enum AgentState {
    Working,
    Blocked,
    Idle,
    Unknown,
}

/// The state that a status is shown as, and whether its outcome has been seen:
/// an agent that is done is an idle one that has not been looked at yet.
pub open spec fn native_state(status: AgentStatus) -> (AgentState, bool) {
    match status {
        AgentStatus::Working => (AgentState::Working, true),
        AgentStatus::Blocked => (AgentState::Blocked, true),
        AgentStatus::Done => (AgentState::Idle, false),
        AgentStatus::Idle => (AgentState::Idle, true),
        AgentStatus::Unknown => (AgentState::Unknown, true),
    }
}

/// How the sidebar shows an agent's status, and whether it has been seen.
pub fn native_agent_state(status: AgentStatus) -> (r: (AgentState, bool))
    ensures
        r == native_state(status),
{
    match status {
        AgentStatus::Working => (AgentState::Working, true),
        AgentStatus::Blocked => (AgentState::Blocked, true),
        AgentStatus::Done => (AgentState::Idle, false),
        AgentStatus::Idle => (AgentState::Idle, true),
        AgentStatus::Unknown => (AgentState::Unknown, true),
    }
}

/// No two statuses are shown alike: the state and the seen mark tell them
/// apart.
pub proof fn law_native_state_is_faithful(a: AgentStatus, b: AgentStatus)
    requires
        native_state(a) == native_state(b),
    ensures
        a == b,
{
}

/// A workspace of an instance.
#[derive(Debug)]
pub struct WorkspaceInfo {
    pub workspace_id: String,
    pub label: String,
    pub active_tab_id: String,
    pub agent_status: AgentStatus,
    pub focused: bool,
    pub tokens: Tokens,
}

/// The mathematical model of a workspace.
pub struct WorkspaceInfoView {
    pub workspace_id: Seq<char>,
    pub label: Seq<char>,
    pub active_tab_id: Seq<char>,
    pub agent_status: AgentStatus,
    pub focused: bool,
    pub tokens: Map<Seq<char>, Seq<char>>,
}

impl View for WorkspaceInfo {
    type V = WorkspaceInfoView;

    open spec fn view(&self) -> WorkspaceInfoView {
        WorkspaceInfoView {
            workspace_id: self.workspace_id@,
            label: self.label@,
            active_tab_id: self.active_tab_id@,
            agent_status: self.agent_status,
            focused: self.focused,
            tokens: self.tokens@,
        }
    }
}

impl Alike for WorkspaceInfo {
    fn alike(&self, other: &Self) -> (r: bool) {
        same_text(self.workspace_id.as_str(), other.workspace_id.as_str())
            && same_text(self.label.as_str(), other.label.as_str())
            && same_text(self.active_tab_id.as_str(), other.active_tab_id.as_str())
            && self.agent_status == other.agent_status
            && self.focused == other.focused
            && self.tokens.alike(&other.tokens)
    }
}

/// A tab of a workspace.
#[derive(Debug)]
pub struct TabInfo {
    pub tab_id: String,
    pub workspace_id: String,
    pub label: String,
    pub number: usize,
}

/// The mathematical model of a tab.
pub struct TabInfoView {
    pub tab_id: Seq<char>,
    pub workspace_id: Seq<char>,
    pub label: Seq<char>,
    pub number: usize,
}

impl View for TabInfo {
    type V = TabInfoView;

    open spec fn view(&self) -> TabInfoView {
        TabInfoView {
            tab_id: self.tab_id@,
            workspace_id: self.workspace_id@,
            label: self.label@,
            number: self.number,
        }
    }
}

impl Alike for TabInfo {
    fn alike(&self, other: &Self) -> (r: bool) {
        same_text(self.tab_id.as_str(), other.tab_id.as_str())
            && same_text(self.workspace_id.as_str(), other.workspace_id.as_str())
            && same_text(self.label.as_str(), other.label.as_str())
            && self.number == other.number
    }
}

/// A pane of a tab.
#[derive(Debug)]
pub struct PaneInfo {
    pub pane_id: String,
    pub tab_id: String,
    pub agent_status: AgentStatus,
    pub foreground_cwd: Option<String>,
    pub cwd: Option<String>,
    pub agent: Option<String>,
    pub display_agent: Option<String>,
    pub title: Option<String>,
    pub state_labels: Tokens,
    pub revision: u64,
    pub label: Option<String>,
    pub terminal_title: Option<String>,
    pub tokens: Tokens,
    pub focused: bool,
}

/// The mathematical model of a pane.
pub struct PaneInfoView {
    pub pane_id: Seq<char>,
    pub tab_id: Seq<char>,
    pub agent_status: AgentStatus,
    pub foreground_cwd: Option<Seq<char>>,
    pub cwd: Option<Seq<char>>,
    pub agent: Option<Seq<char>>,
    pub display_agent: Option<Seq<char>>,
    pub title: Option<Seq<char>>,
    pub state_labels: Map<Seq<char>, Seq<char>>,
    pub revision: u64,
    pub label: Option<Seq<char>>,
    pub terminal_title: Option<Seq<char>>,
    pub tokens: Map<Seq<char>, Seq<char>>,
    pub focused: bool,
}

impl View for PaneInfo {
    type V = PaneInfoView;

    open spec fn view(&self) -> PaneInfoView {
        PaneInfoView {
            pane_id: self.pane_id@,
            tab_id: self.tab_id@,
            agent_status: self.agent_status,
            foreground_cwd: opt_text(self.foreground_cwd),
            cwd: opt_text(self.cwd),
            agent: opt_text(self.agent),
            display_agent: opt_text(self.display_agent),
            title: opt_text(self.title),
            state_labels: self.state_labels@,
            revision: self.revision,
            label: opt_text(self.label),
            terminal_title: opt_text(self.terminal_title),
            tokens: self.tokens@,
            focused: self.focused,
        }
    }
}

impl Alike for PaneInfo {
    fn alike(&self, other: &Self) -> (r: bool) {
        same_text(self.pane_id.as_str(), other.pane_id.as_str())
            && same_text(self.tab_id.as_str(), other.tab_id.as_str())
            && self.agent_status == other.agent_status
            && same_option_text(&self.foreground_cwd, &other.foreground_cwd)
            && same_option_text(&self.cwd, &other.cwd)
            && same_option_text(&self.agent, &other.agent)
            && same_option_text(&self.display_agent, &other.display_agent)
            && same_option_text(&self.title, &other.title)
            && self.state_labels.alike(&other.state_labels)
            && self.revision == other.revision
            && same_option_text(&self.label, &other.label)
            && same_option_text(&self.terminal_title, &other.terminal_title)
            && self.tokens.alike(&other.tokens)
            && self.focused == other.focused
    }
}

/// An agent that runs in a pane.
#[derive(Debug)]
pub struct AgentInfo {
    pub pane_id: String,
    pub agent_status: AgentStatus,
    pub state_change_seq: u64,
    pub name: Option<String>,
    pub title: Option<String>,
    pub display_agent: Option<String>,
    pub state_labels: Tokens,
    pub revision: u64,
}

/// The mathematical model of an agent.
pub struct AgentInfoView {
    pub pane_id: Seq<char>,
    pub agent_status: AgentStatus,
    pub state_change_seq: u64,
    pub name: Option<Seq<char>>,
    pub title: Option<Seq<char>>,
    pub display_agent: Option<Seq<char>>,
    pub state_labels: Map<Seq<char>, Seq<char>>,
    pub revision: u64,
}

impl View for AgentInfo {
    type V = AgentInfoView;

    open spec fn view(&self) -> AgentInfoView {
        AgentInfoView {
            pane_id: self.pane_id@,
            agent_status: self.agent_status,
            state_change_seq: self.state_change_seq,
            name: opt_text(self.name),
            title: opt_text(self.title),
            display_agent: opt_text(self.display_agent),
            state_labels: self.state_labels@,
            revision: self.revision,
        }
    }
}

impl Alike for AgentInfo {
    fn alike(&self, other: &Self) -> (r: bool) {
        same_text(self.pane_id.as_str(), other.pane_id.as_str())
            && self.agent_status == other.agent_status
            && self.state_change_seq == other.state_change_seq
            && same_option_text(&self.name, &other.name)
            && same_option_text(&self.title, &other.title)
            && same_option_text(&self.display_agent, &other.display_agent)
            && self.state_labels.alike(&other.state_labels)
            && self.revision == other.revision
    }
}

/// What an instance reports of its session. `rest` is what the report holds
/// besides, as the instance words it: nothing here reads it, but a report in
/// which it differs is another one.
#[derive(Debug)]
pub struct SessionSnapshot {
    pub workspaces: Vec<WorkspaceInfo>,
    pub tabs: Vec<TabInfo>,
    pub panes: Vec<PaneInfo>,
    pub agents: Vec<AgentInfo>,
    pub focused_workspace_id: Option<String>,
    pub focused_tab_id: Option<String>,
    pub focused_pane_id: Option<String>,
    pub rest: String,
}

/// The mathematical model of a snapshot.
pub struct SnapshotView {
    pub workspaces: Seq<WorkspaceInfoView>,
    pub tabs: Seq<TabInfoView>,
    pub panes: Seq<PaneInfoView>,
    pub agents: Seq<AgentInfoView>,
    pub focused_workspace_id: Option<Seq<char>>,
    pub focused_tab_id: Option<Seq<char>>,
    pub focused_pane_id: Option<Seq<char>>,
    pub rest: Seq<char>,
}

impl View for SessionSnapshot {
    type V = SnapshotView;

    open spec fn view(&self) -> SnapshotView {
        SnapshotView {
            workspaces: views(self.workspaces@),
            tabs: views(self.tabs@),
            panes: views(self.panes@),
            agents: views(self.agents@),
            focused_workspace_id: opt_text(self.focused_workspace_id),
            focused_tab_id: opt_text(self.focused_tab_id),
            focused_pane_id: opt_text(self.focused_pane_id),
            rest: self.rest@,
        }
    }
}

impl Alike for SessionSnapshot {
    fn alike(&self, other: &Self) -> (r: bool) {
        all_alike(&self.workspaces, &other.workspaces)
            && all_alike(&self.tabs, &other.tabs)
            && all_alike(&self.panes, &other.panes)
            && all_alike(&self.agents, &other.agents)
            && same_option_text(&self.focused_workspace_id, &other.focused_workspace_id)
            && same_option_text(&self.focused_tab_id, &other.focused_tab_id)
            && same_option_text(&self.focused_pane_id, &other.focused_pane_id)
            && same_text(self.rest.as_str(), other.rest.as_str())
    }
}

/// A status is shown as the state of the same name, but for one that is done:
/// that is shown as idle, and it alone has not been seen.
pub proof fn law_statuses_are_shown_by_name(status: AgentStatus)
    ensures
        native_state(status).0 is Working <==> status is Working,
        native_state(status).0 is Blocked <==> status is Blocked,
        native_state(status).0 is Unknown <==> status is Unknown,
        native_state(status).0 is Idle <==> status is Idle || status is Done,
        native_state(status).1 <==> !(status is Done),
{
}

} // verus!
