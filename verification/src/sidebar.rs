//! The model of the sidebar: one row for each workspace of each instance, and
//! where the row, its tabs and its panes lead.

use vstd::prelude::*;
use vstd::string::*;

use crate::compare::{first_present, opt_text, views};
use crate::instance::{Instance, InstanceView};
use crate::projection::{key_number, PaneId, TerminalId};
use crate::routes::{opt_hit, HitView, SidebarHit};
use crate::snapshot::{
    native_state, AgentInfoView, AgentState, PaneInfoView, SnapshotView, TabInfoView,
    WorkspaceInfoView,
};
use crate::tokens::Tokens;

verus! {

/// A pane of a tab, as the sidebar lists it.
#[derive(Debug, Clone, Copy, PartialEq, Eq, Structural)]
pub struct SidebarPane {
    pub terminal_id: TerminalId,
    pub pane_id: PaneId,
    pub seen: bool,
}

/// A tab of a row.
#[derive(Debug)]
pub struct SidebarTab {
    pub label: Option<String>,
    pub number: usize,
    pub panes: Vec<SidebarPane>,
    pub focused_pane: Option<usize>,
}

/// The mathematical model of a tab of a row.
pub struct SidebarTabView {
    pub label: Option<Seq<char>>,
    pub number: usize,
    pub panes: Seq<SidebarPane>,
    pub focused_pane: Option<usize>,
}

impl View for SidebarTab {
    type V = SidebarTabView;

    open spec fn view(&self) -> SidebarTabView {
        SidebarTabView {
            label: opt_text(self.label),
            number: self.number,
            panes: self.panes@,
            focused_pane: self.focused_pane,
        }
    }
}

/// What a pane and its agent report of a terminal. `detect_from` is the label
/// by which the agent is recognised; the other fields go to the terminal as
/// they are.
#[derive(Debug)]
pub struct PaneReport {
    pub detect_from: Option<String>,
    pub state_change_seq: Option<u64>,
    pub agent_name: Option<String>,
    pub agent_label: Option<String>,
    pub title: Option<String>,
    pub display_agent: Option<String>,
    pub state_labels: Tokens,
    pub seq: u64,
    pub manual_label: Option<String>,
    pub terminal_title: Option<String>,
    pub tokens: Tokens,
}

/// The mathematical model of a pane's report.
pub struct PaneReportView {
    pub detect_from: Option<Seq<char>>,
    pub state_change_seq: Option<u64>,
    pub agent_name: Option<Seq<char>>,
    pub agent_label: Option<Seq<char>>,
    pub title: Option<Seq<char>>,
    pub display_agent: Option<Seq<char>>,
    pub state_labels: Map<Seq<char>, Seq<char>>,
    pub seq: u64,
    pub manual_label: Option<Seq<char>>,
    pub terminal_title: Option<Seq<char>>,
    pub tokens: Map<Seq<char>, Seq<char>>,
}

impl View for PaneReport {
    type V = PaneReportView;

    open spec fn view(&self) -> PaneReportView {
        PaneReportView {
            detect_from: opt_text(self.detect_from),
            state_change_seq: self.state_change_seq,
            agent_name: opt_text(self.agent_name),
            agent_label: opt_text(self.agent_label),
            title: opt_text(self.title),
            display_agent: opt_text(self.display_agent),
            state_labels: self.state_labels@,
            seq: self.seq,
            manual_label: opt_text(self.manual_label),
            terminal_title: opt_text(self.terminal_title),
            tokens: self.tokens@,
        }
    }
}

/// A terminal that the sidebar knows of. One without a state keeps the state of
/// a fresh terminal; one without a report stands in for something that has no
/// pane.
#[derive(Debug)]
pub struct SidebarTerminal {
    pub id: TerminalId,
    pub cwd: String,
    pub state: Option<AgentState>,
    pub report: Option<PaneReport>,
}

/// The mathematical model of a terminal that the sidebar knows of.
pub struct SidebarTerminalView {
    pub id: TerminalId,
    pub cwd: Seq<char>,
    pub state: Option<AgentState>,
    pub report: Option<PaneReportView>,
}

impl View for SidebarTerminal {
    type V = SidebarTerminalView;

    open spec fn view(&self) -> SidebarTerminalView {
        SidebarTerminalView {
            id: self.id,
            cwd: self.cwd@,
            state: self.state,
            report: match self.report {
                Some(r) => Some(r@),
                None => None,
            },
        }
    }
}

/// The workspace that a row shows.
#[derive(Debug)]
pub struct SidebarWorkspace {
    pub key: String,
    pub label: String,
    pub branch: Option<String>,
    pub tabs: Vec<SidebarTab>,
    pub active_tab: usize,
    pub tokens: Tokens,
}

/// The mathematical model of the workspace that a row shows.
pub struct SidebarWorkspaceView {
    pub key: Seq<char>,
    pub label: Seq<char>,
    pub branch: Option<Seq<char>>,
    pub tabs: Seq<SidebarTabView>,
    pub active_tab: usize,
    pub tokens: Map<Seq<char>, Seq<char>>,
}

impl View for SidebarWorkspace {
    type V = SidebarWorkspaceView;

    open spec fn view(&self) -> SidebarWorkspaceView {
        SidebarWorkspaceView {
            key: self.key@,
            label: self.label@,
            branch: opt_text(self.branch),
            tabs: views(self.tabs@),
            active_tab: self.active_tab,
            tokens: self.tokens@,
        }
    }
}

/// Where a pane of a row leads.
#[derive(Debug)]
pub struct PaneRoute {
    pub pane: PaneId,
    pub target: SidebarHit,
}

/// The mathematical model of a pane's route.
pub struct PaneRouteView {
    pub pane: PaneId,
    pub target: HitView,
}

impl View for PaneRoute {
    type V = PaneRouteView;

    open spec fn view(&self) -> PaneRouteView {
        PaneRouteView { pane: self.pane, target: self.target@ }
    }
}

/// A row of the sidebar: the instance it belongs to, whether that instance has
/// its focus there, what it shows, and where it, its tabs and its panes lead.
#[derive(Debug)]
pub struct SidebarRow {
    pub instance: usize,
    pub focused: bool,
    pub workspace: SidebarWorkspace,
    pub terminals: Vec<SidebarTerminal>,
    pub route: SidebarHit,
    pub tab_routes: Vec<Option<SidebarHit>>,
    pub pane_routes: Vec<PaneRoute>,
}

/// The mathematical model of a row.
pub struct RowView {
    pub instance: usize,
    pub focused: bool,
    pub workspace: SidebarWorkspaceView,
    pub terminals: Seq<SidebarTerminalView>,
    pub route: HitView,
    pub tab_routes: Seq<Option<HitView>>,
    pub pane_routes: Seq<PaneRouteView>,
}

/// The models of a sequence of optional targets.
pub open spec fn opt_hits(s: Seq<Option<SidebarHit>>) -> Seq<Option<HitView>> {
    s.map_values(|h: Option<SidebarHit>| opt_hit(h))
}

impl View for SidebarRow {
    type V = RowView;

    open spec fn view(&self) -> RowView {
        RowView {
            instance: self.instance,
            focused: self.focused,
            workspace: self.workspace@,
            terminals: views(self.terminals@),
            route: self.route@,
            tab_routes: opt_hits(self.tab_routes@),
            pane_routes: views(self.pane_routes@),
        }
    }
}

/// The whole sidebar: its rows, the row that is active, and the one that is
/// selected.
#[derive(Debug)]
pub struct SidebarModel {
    pub rows: Vec<SidebarRow>,
    pub active: Option<usize>,
    pub selected: usize,
}

/// The mathematical model of the sidebar.
pub struct SidebarModelView {
    pub rows: Seq<RowView>,
    pub active: Option<usize>,
    pub selected: usize,
}

impl View for SidebarModel {
    type V = SidebarModelView;

    open spec fn view(&self) -> SidebarModelView {
        SidebarModelView { rows: views(self.rows@), active: self.active, selected: self.selected }
    }
}

/// The key of the terminal that stands in for an instance without workspaces.
pub open spec fn empty_key(instance_id: Seq<char>) -> Seq<char> {
    instance_id + "\0empty"@
}

/// The key of a pane's terminal.
pub open spec fn pane_key(instance_id: Seq<char>, pane_id: Seq<char>) -> Seq<char> {
    instance_id + "\0"@ + pane_id
}

/// The key of the terminal that stands in for a workspace without tabs.
pub open spec fn empty_workspace_key(instance_id: Seq<char>, workspace_id: Seq<char>) -> Seq<char> {
    instance_id + "\0"@ + workspace_id + "\0empty"@
}

/// The tabs of a workspace, in order.
pub open spec fn tabs_of(tabs: Seq<TabInfoView>, workspace_id: Seq<char>) -> Seq<TabInfoView>
    decreases tabs.len(),
{
    if tabs.len() == 0 {
        seq![]
    } else {
        let rest = tabs_of(tabs.drop_last(), workspace_id);
        if tabs.last().workspace_id == workspace_id {
            rest.push(tabs.last())
        } else {
            rest
        }
    }
}

/// The panes of a tab, in order.
pub open spec fn panes_of(panes: Seq<PaneInfoView>, tab_id: Seq<char>) -> Seq<PaneInfoView>
    decreases panes.len(),
{
    if panes.len() == 0 {
        seq![]
    } else {
        let rest = panes_of(panes.drop_last(), tab_id);
        if panes.last().tab_id == tab_id {
            rest.push(panes.last())
        } else {
            rest
        }
    }
}

/// The first agent that runs in a pane.
pub open spec fn agent_of(agents: Seq<AgentInfoView>, pane_id: Seq<char>) -> Option<AgentInfoView>
    decreases agents.len(),
{
    if agents.len() == 0 {
        None
    } else if agents[0].pane_id == pane_id {
        Some(agents[0])
    } else {
        agent_of(agents.skip(1), pane_id)
    }
}

/// The first tab of a workspace that has a number.
pub open spec fn numbered_tab(
    tabs: Seq<TabInfoView>,
    workspace_id: Seq<char>,
    number: usize,
) -> Option<TabInfoView>
    decreases tabs.len(),
{
    if tabs.len() == 0 {
        None
    } else if tabs[0].workspace_id == workspace_id && tabs[0].number == number {
        Some(tabs[0])
    } else {
        numbered_tab(tabs.skip(1), workspace_id, number)
    }
}

/// Whether a tab is the one to open in its workspace.
pub open spec fn is_open_tab(
    snapshot: SnapshotView,
    workspace: WorkspaceInfoView,
    tab: TabInfoView,
) -> bool {
    tab.tab_id == workspace.active_tab_id || snapshot.focused_tab_id == Some(tab.tab_id)
}

/// The place of the first tab to open, counted from `from`; the first of all
/// where there is none.
pub open spec fn open_tab(
    snapshot: SnapshotView,
    workspace: WorkspaceInfoView,
    tabs: Seq<TabInfoView>,
    from: int,
) -> int
    decreases tabs.len() - from,
{
    if from < 0 || from >= tabs.len() {
        0
    } else if is_open_tab(snapshot, workspace, tabs[from]) {
        from
    } else {
        open_tab(snapshot, workspace, tabs, from + 1)
    }
}

/// Whether an instance has its focus on a pane.
pub open spec fn is_focused_pane(snapshot: SnapshotView, pane: PaneInfoView) -> bool {
    pane.focused || snapshot.focused_pane_id == Some(pane.pane_id)
}

/// The place of the last pane that has the focus.
pub open spec fn focused_pane(snapshot: SnapshotView, panes: Seq<PaneInfoView>) -> Option<usize>
    decreases panes.len(),
{
    if panes.len() == 0 {
        None
    } else if is_focused_pane(snapshot, panes.last()) {
        Some((panes.len() - 1) as usize)
    } else {
        focused_pane(snapshot, panes.drop_last())
    }
}

/// What a pane is shown to be doing: what its agent reports, else what the pane
/// does.
pub open spec fn pane_state(snapshot: SnapshotView, pane: PaneInfoView) -> (AgentState, bool) {
    native_state(
        match agent_of(snapshot.agents, pane.pane_id) {
            Some(agent) => agent.agent_status,
            None => pane.agent_status,
        },
    )
}

/// A pane as the sidebar lists it.
pub open spec fn listed_pane(
    instance_id: Seq<char>,
    snapshot: SnapshotView,
    pane: PaneInfoView,
    keys: Seq<Seq<char>>,
) -> SidebarPane {
    let number = key_number(keys, pane_key(instance_id, pane.pane_id)) as usize;
    SidebarPane {
        terminal_id: TerminalId { number },
        pane_id: PaneId { number },
        seen: pane_state(snapshot, pane).1,
    }
}

/// What a pane and its agent report: the agent's word goes before the pane's.
pub open spec fn pane_report(snapshot: SnapshotView, pane: PaneInfoView) -> PaneReportView {
    let agent = agent_of(snapshot.agents, pane.pane_id);
    PaneReportView {
        detect_from: first_present(pane.agent, pane.display_agent),
        state_change_seq: match agent {
            Some(a) => Some(a.state_change_seq),
            None => None,
        },
        agent_name: match agent {
            Some(a) => a.name,
            None => None,
        },
        agent_label: pane.agent,
        title: match agent {
            Some(a) => first_present(a.title, pane.title),
            None => pane.title,
        },
        display_agent: match agent {
            Some(a) => first_present(a.display_agent, pane.display_agent),
            None => pane.display_agent,
        },
        state_labels: match agent {
            Some(a) => a.state_labels,
            None => pane.state_labels,
        },
        seq: match agent {
            Some(a) => a.revision,
            None => pane.revision,
        },
        manual_label: pane.label,
        terminal_title: pane.terminal_title,
        tokens: pane.tokens,
    }
}

/// The directory that a pane is in: that of its foreground process, else its
/// own, else the root.
pub open spec fn pane_directory(pane: PaneInfoView) -> Seq<char> {
    match first_present(pane.foreground_cwd, pane.cwd) {
        Some(cwd) => cwd,
        None => "/"@,
    }
}

/// The terminal of a pane.
pub open spec fn pane_terminal(
    instance_id: Seq<char>,
    snapshot: SnapshotView,
    pane: PaneInfoView,
    keys: Seq<Seq<char>>,
) -> SidebarTerminalView {
    SidebarTerminalView {
        id: listed_pane(instance_id, snapshot, pane, keys).terminal_id,
        cwd: pane_directory(pane),
        state: Some(pane_state(snapshot, pane).0),
        report: Some(pane_report(snapshot, pane)),
    }
}

/// A tab as a row lists it.
pub open spec fn listed_tab(
    instance_id: Seq<char>,
    snapshot: SnapshotView,
    tab: TabInfoView,
    keys: Seq<Seq<char>>,
) -> SidebarTabView {
    let panes = panes_of(snapshot.panes, tab.tab_id);
    SidebarTabView {
        label: Some(tab.label),
        number: tab.number,
        panes: panes.map_values(|p: PaneInfoView| listed_pane(instance_id, snapshot, p, keys)),
        focused_pane: focused_pane(snapshot, panes),
    }
}

/// The terminals of a tab.
pub open spec fn tab_terminals(
    instance_id: Seq<char>,
    snapshot: SnapshotView,
    tab: TabInfoView,
    keys: Seq<Seq<char>>,
) -> Seq<SidebarTerminalView> {
    panes_of(snapshot.panes, tab.tab_id).map_values(
        |p: PaneInfoView| pane_terminal(instance_id, snapshot, p, keys),
    )
}

/// Where the panes of a tab lead.
pub open spec fn tab_pane_routes(
    instance: usize,
    instance_id: Seq<char>,
    snapshot: SnapshotView,
    tab: TabInfoView,
    keys: Seq<Seq<char>>,
) -> Seq<PaneRouteView> {
    panes_of(snapshot.panes, tab.tab_id).map_values(
        |p: PaneInfoView|
            PaneRouteView {
                pane: listed_pane(instance_id, snapshot, p, keys).pane_id,
                target: HitView::Pane { index: instance, pane_id: p.pane_id },
            },
    )
}

/// The terminals of several tabs, in order.
pub open spec fn tabs_terminals(
    instance_id: Seq<char>,
    snapshot: SnapshotView,
    tabs: Seq<TabInfoView>,
    keys: Seq<Seq<char>>,
) -> Seq<SidebarTerminalView>
    decreases tabs.len(),
{
    if tabs.len() == 0 {
        seq![]
    } else {
        tabs_terminals(instance_id, snapshot, tabs.drop_last(), keys) + tab_terminals(
            instance_id,
            snapshot,
            tabs.last(),
            keys,
        )
    }
}

/// Where the panes of several tabs lead, in order.
pub open spec fn tabs_pane_routes(
    instance: usize,
    instance_id: Seq<char>,
    snapshot: SnapshotView,
    tabs: Seq<TabInfoView>,
    keys: Seq<Seq<char>>,
) -> Seq<PaneRouteView>
    decreases tabs.len(),
{
    if tabs.len() == 0 {
        seq![]
    } else {
        tabs_pane_routes(instance, instance_id, snapshot, tabs.drop_last(), keys)
            + tab_pane_routes(instance, instance_id, snapshot, tabs.last(), keys)
    }
}

/// The tab that stands in where there is none: one pane, which has the focus.
pub open spec fn stand_in_tab(number: usize, seen: bool) -> SidebarTabView {
    SidebarTabView {
        label: None,
        number: 1,
        panes: seq![
            SidebarPane {
                terminal_id: TerminalId { number },
                pane_id: PaneId { number },
                seen,
            },
        ],
        focused_pane: Some(0),
    }
}

/// What is said of an instance that shows no workspace.
pub open spec fn instance_status(instance: InstanceView) -> Seq<char> {
    match instance.error {
        Some(error) => error,
        None => if instance.connected {
            "no spaces"@
        } else {
            "connecting"@
        },
    }
}

/// The row of an instance that shows no workspace.
pub open spec fn instance_row(
    index: usize,
    instance: InstanceView,
    keys: Seq<Seq<char>>,
) -> RowView {
    let number = key_number(keys, empty_key(instance.id)) as usize;
    RowView {
        instance: index,
        focused: false,
        workspace: SidebarWorkspaceView {
            key: "fleet:"@ + instance.id + ":empty"@,
            label: instance.name + " · "@ + instance_status(instance),
            branch: None,
            tabs: seq![stand_in_tab(number, true)],
            active_tab: 0,
            tokens: Map::empty(),
        },
        terminals: seq![
            SidebarTerminalView {
                id: TerminalId { number },
                cwd: "/"@,
                state: None,
                report: None,
            },
        ],
        route: HitView::Instance { index },
        tab_routes: seq![None],
        pane_routes: seq![],
    }
}

/// The target of the tab that has a number.
pub open spec fn tab_route(
    index: usize,
    snapshot: SnapshotView,
    workspace: WorkspaceInfoView,
    number: usize,
) -> Option<HitView> {
    match numbered_tab(snapshot.tabs, workspace.workspace_id, number) {
        Some(tab) => Some(HitView::Tab { index, tab_id: tab.tab_id }),
        None => None,
    }
}

/// The row of a workspace.
pub open spec fn workspace_row(
    index: usize,
    instance: InstanceView,
    snapshot: SnapshotView,
    workspace: WorkspaceInfoView,
    keys: Seq<Seq<char>>,
) -> RowView {
    let tabs = tabs_of(snapshot.tabs, workspace.workspace_id);
    let number = key_number(
        keys,
        empty_workspace_key(instance.id, workspace.workspace_id),
    ) as usize;
    let state = native_state(workspace.agent_status);
    let listed = if tabs.len() == 0 {
        seq![stand_in_tab(number, state.1)]
    } else {
        tabs.map_values(|t: TabInfoView| listed_tab(instance.id, snapshot, t, keys))
    };
    RowView {
        instance: index,
        focused: workspace.focused || snapshot.focused_workspace_id == Some(workspace.workspace_id),
        workspace: SidebarWorkspaceView {
            key: "fleet:"@ + instance.id + ":"@ + workspace.workspace_id,
            label: instance.name + " · "@ + workspace.label,
            branch: if workspace.tokens.contains_key("branch"@) {
                Some(workspace.tokens["branch"@])
            } else {
                None
            },
            tabs: listed,
            active_tab: open_tab(snapshot, workspace, tabs, 0) as usize,
            tokens: workspace.tokens.insert("host"@, instance.name),
        },
        terminals: if tabs.len() == 0 {
            seq![
                SidebarTerminalView {
                    id: TerminalId { number },
                    cwd: "/"@,
                    state: Some(state.0),
                    report: None,
                },
            ]
        } else {
            tabs_terminals(instance.id, snapshot, tabs, keys)
        },
        route: HitView::Workspace { index, workspace_id: workspace.workspace_id },
        tab_routes: listed.map_values(
            |t: SidebarTabView| tab_route(index, snapshot, workspace, t.number),
        ),
        pane_routes: tabs_pane_routes(index, instance.id, snapshot, tabs, keys),
    }
}

/// The workspaces that an instance shows.
pub open spec fn shown_workspaces(instance: InstanceView) -> Seq<WorkspaceInfoView> {
    match instance.snapshot {
        Some(snapshot) => snapshot.workspaces,
        None => seq![],
    }
}

/// The rows of an instance: one for each workspace, or one for the instance
/// itself.
pub open spec fn instance_rows(
    index: usize,
    instance: InstanceView,
    keys: Seq<Seq<char>>,
) -> Seq<RowView> {
    if shown_workspaces(instance).len() == 0 {
        seq![instance_row(index, instance, keys)]
    } else {
        shown_workspaces(instance).map_values(
            |w: WorkspaceInfoView| workspace_row(index, instance, instance.snapshot->0, w, keys),
        )
    }
}

/// The rows of all instances, in order.
pub open spec fn sidebar_rows(instances: Seq<InstanceView>, keys: Seq<Seq<char>>) -> Seq<RowView>
    decreases instances.len(),
{
    if instances.len() == 0 {
        seq![]
    } else {
        sidebar_rows(instances.drop_last(), keys) + instance_rows(
            (instances.len() - 1) as usize,
            instances.last(),
            keys,
        )
    }
}

/// The last row in which an instance has its focus.
pub open spec fn last_focused_row(rows: Seq<RowView>, instance: usize) -> Option<usize>
    decreases rows.len(),
{
    if rows.len() == 0 {
        None
    } else if rows.last().instance == instance && rows.last().focused {
        Some((rows.len() - 1) as usize)
    } else {
        last_focused_row(rows.drop_last(), instance)
    }
}

/// The first row of an instance.
pub open spec fn first_row(rows: Seq<RowView>, instance: usize) -> Option<usize>
    decreases rows.len(),
{
    if rows.len() == 0 {
        None
    } else if first_row(rows.drop_last(), instance) is Some {
        first_row(rows.drop_last(), instance)
    } else if rows.last().instance == instance {
        Some((rows.len() - 1) as usize)
    } else {
        None
    }
}

/// The active row: the last one in which the active instance has its focus,
/// else its first, else the first of all.
pub open spec fn active_row(rows: Seq<RowView>, instance: usize) -> Option<usize> {
    let own = first_present(last_focused_row(rows, instance), first_row(rows, instance));
    first_present(
        own,
        if rows.len() > 0 {
            Some(0usize)
        } else {
            None
        },
    )
}

/// The sidebar of a fleet.
pub open spec fn sidebar_model(
    instances: Seq<InstanceView>,
    active_instance: usize,
    keys: Seq<Seq<char>>,
) -> SidebarModelView {
    let rows = sidebar_rows(instances, keys);
    let active = active_row(rows, active_instance);
    SidebarModelView {
        rows,
        active,
        selected: match active {
            Some(row) => row,
            None => 0,
        },
    }
}

/// The keys of the panes of several tabs.
pub open spec fn tabs_keys(
    instance_id: Seq<char>,
    snapshot: SnapshotView,
    tabs: Seq<TabInfoView>,
) -> Seq<Seq<char>>
    decreases tabs.len(),
{
    if tabs.len() == 0 {
        seq![]
    } else {
        tabs_keys(instance_id, snapshot, tabs.drop_last()) + panes_of(
            snapshot.panes,
            tabs.last().tab_id,
        ).map_values(|p: PaneInfoView| pane_key(instance_id, p.pane_id))
    }
}

/// The keys of a workspace.
pub open spec fn workspace_keys(
    instance_id: Seq<char>,
    snapshot: SnapshotView,
    workspace: WorkspaceInfoView,
) -> Seq<Seq<char>> {
    let tabs = tabs_of(snapshot.tabs, workspace.workspace_id);
    if tabs.len() == 0 {
        seq![empty_workspace_key(instance_id, workspace.workspace_id)]
    } else {
        tabs_keys(instance_id, snapshot, tabs)
    }
}

/// The keys of several workspaces.
pub open spec fn workspaces_keys(
    instance_id: Seq<char>,
    snapshot: SnapshotView,
    workspaces: Seq<WorkspaceInfoView>,
) -> Seq<Seq<char>>
    decreases workspaces.len(),
{
    if workspaces.len() == 0 {
        seq![]
    } else {
        workspaces_keys(instance_id, snapshot, workspaces.drop_last()) + workspace_keys(
            instance_id,
            snapshot,
            workspaces.last(),
        )
    }
}

/// The keys of an instance.
pub open spec fn instance_keys(instance: InstanceView) -> Seq<Seq<char>> {
    if shown_workspaces(instance).len() == 0 {
        seq![empty_key(instance.id)]
    } else {
        workspaces_keys(instance.id, instance.snapshot->0, shown_workspaces(instance))
    }
}

/// The keys of all instances, in the order of their rows.
pub open spec fn sidebar_keys(instances: Seq<InstanceView>) -> Seq<Seq<char>>
    decreases instances.len(),
{
    if instances.len() == 0 {
        seq![]
    } else {
        sidebar_keys(instances.drop_last()) + instance_keys(instances.last())
    }
}

} // verus!
