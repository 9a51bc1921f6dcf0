//! Building the sidebar of a fleet from what its instances report.

use vstd::prelude::*;
use vstd::string::*;

use crate::compare::{copy_option_text, first_option_text, option_is_text, views};
use crate::instance::{instance_model, Instance};
use crate::projection::{with_key, with_keys, PaneId, Projection, TerminalId};
use crate::routes::{opt_hit, SidebarHit};
use crate::sidebar::{
    active_row, agent_of, empty_key, empty_workspace_key, first_row, focused_pane, instance_keys,
    instance_row, instance_rows, last_focused_row, listed_pane, listed_tab, numbered_tab, open_tab,
    pane_key, pane_terminal, panes_of, sidebar_keys, sidebar_model, sidebar_rows, stand_in_tab,
    tab_pane_routes, tab_route, tab_terminals, tabs_keys, tabs_of, tabs_pane_routes, tabs_terminals,
    workspace_keys, workspace_row, workspaces_keys, PaneReport, PaneRoute, PaneRouteView,
    SidebarModel, SidebarPane, SidebarRow, SidebarTab, SidebarTerminal, SidebarTerminalView,
    SidebarWorkspace,
};
use crate::snapshot::{
    native_agent_state, AgentInfo, AgentState, PaneInfo, PaneInfoView, SessionSnapshot, TabInfo,
    TabInfoView, WorkspaceInfo,
};
use crate::text::same_text;
use crate::tokens::{patch_metadata_tokens, Tokens};

verus! {

/// The tokens of something that had none before it was given these.
fn fresh_tokens(values: &Tokens) -> (r: Tokens)
    ensures
        r@ == values@,
{
    let mut tokens = Tokens::new();
    patch_metadata_tokens(&mut tokens, values);
    assert(tokens@ =~= values@);
    tokens
}

fn make_empty_key(instance_id: &str) -> (r: String)
    ensures
        r@ == empty_key(instance_id@),
{
    instance_id.to_string().concat("\0empty")
}

fn make_pane_key(instance_id: &str, pane_id: &str) -> (r: String)
    ensures
        r@ == pane_key(instance_id@, pane_id@),
{
    instance_id.to_string().concat("\0").concat(pane_id)
}

fn make_empty_workspace_key(instance_id: &str, workspace_id: &str) -> (r: String)
    ensures
        r@ == empty_workspace_key(instance_id@, workspace_id@),
{
    instance_id.to_string().concat("\0").concat(workspace_id).concat("\0empty")
}

/// The tabs of a workspace, in order.
fn select_tabs<'a>(tabs: &'a Vec<TabInfo>, workspace_id: &str) -> (r: Vec<&'a TabInfo>)
    ensures
        views(r@) == tabs_of(views(tabs@), workspace_id@),
{
    let mut r: Vec<&'a TabInfo> = Vec::new();
    let ghost all = views(tabs@);
    assert(views(r@) =~= tabs_of(all.take(0), workspace_id@));
    let mut i: usize = 0;
    while i < tabs.len()
        invariant
            i <= tabs@.len(),
            all == views(tabs@),
            views(r@) == tabs_of(all.take(i as int), workspace_id@),
        decreases tabs@.len() - i,
    {
        let ghost before = views(r@);
        let tab = &tabs[i];
        assert(all.take(i + 1).drop_last() =~= all.take(i as int));
        assert(all.take(i + 1).last() == tab@);
        if same_text(tab.workspace_id.as_str(), workspace_id) {
            r.push(tab);
            assert(views(r@) =~= before.push(tab@));
        }
        i += 1;
    }
    assert(all.take(i as int) =~= all);
    r
}

/// The panes of a tab, in order.
fn select_panes<'a>(panes: &'a Vec<PaneInfo>, tab_id: &str) -> (r: Vec<&'a PaneInfo>)
    ensures
        views(r@) == panes_of(views(panes@), tab_id@),
{
    let mut r: Vec<&'a PaneInfo> = Vec::new();
    let ghost all = views(panes@);
    assert(views(r@) =~= panes_of(all.take(0), tab_id@));
    let mut i: usize = 0;
    while i < panes.len()
        invariant
            i <= panes@.len(),
            all == views(panes@),
            views(r@) == panes_of(all.take(i as int), tab_id@),
        decreases panes@.len() - i,
    {
        let ghost before = views(r@);
        let pane = &panes[i];
        assert(all.take(i + 1).drop_last() =~= all.take(i as int));
        assert(all.take(i + 1).last() == pane@);
        if same_text(pane.tab_id.as_str(), tab_id) {
            r.push(pane);
            assert(views(r@) =~= before.push(pane@));
        }
        i += 1;
    }
    assert(all.take(i as int) =~= all);
    r
}

/// The first agent that runs in a pane.
fn find_agent<'a>(agents: &'a Vec<AgentInfo>, pane_id: &str) -> (r: Option<&'a AgentInfo>)
    ensures
        match r {
            Some(agent) => agent_of(views(agents@), pane_id@) == Some(agent@),
            None => agent_of(views(agents@), pane_id@) is None,
        },
{
    let ghost all = views(agents@);
    assert(all.skip(0) =~= all);
    let mut i: usize = 0;
    while i < agents.len()
        invariant
            i <= agents@.len(),
            all == views(agents@),
            agent_of(all, pane_id@) == agent_of(all.skip(i as int), pane_id@),
        decreases agents@.len() - i,
    {
        let agent = &agents[i];
        assert(all.skip(i as int)[0] == agent@);
        if same_text(agent.pane_id.as_str(), pane_id) {
            return Some(agent);
        }
        assert(all.skip(i as int).skip(1) =~= all.skip(i + 1));
        i += 1;
    }
    None
}

/// The target of the first tab of a workspace that has a number.
fn find_tab_route(
    index: usize,
    snapshot: &SessionSnapshot,
    workspace: &WorkspaceInfo,
    number: usize,
) -> (r: Option<SidebarHit>)
    ensures
        opt_hit(r) == tab_route(index, snapshot@, workspace@, number),
{
    let ghost all = snapshot@.tabs;
    let ghost id = workspace@.workspace_id;
    assert(all.skip(0) =~= all);
    let mut i: usize = 0;
    while i < snapshot.tabs.len()
        invariant
            i <= snapshot.tabs@.len(),
            all == views(snapshot.tabs@),
            id == workspace.workspace_id@,
            numbered_tab(all, id, number) == numbered_tab(all.skip(i as int), id, number),
        decreases snapshot.tabs@.len() - i,
    {
        let tab = &snapshot.tabs[i];
        assert(all.skip(i as int)[0] == tab@);
        if same_text(tab.workspace_id.as_str(), workspace.workspace_id.as_str()) && tab.number
            == number {
            return Some(SidebarHit::Tab { index, tab_id: tab.tab_id.clone() });
        }
        assert(all.skip(i as int).skip(1) =~= all.skip(i + 1));
        i += 1;
    }
    None
}

/// The place of the first tab to open.
fn find_open_tab(
    snapshot: &SessionSnapshot,
    workspace: &WorkspaceInfo,
    tabs: &Vec<&TabInfo>,
) -> (r: usize)
    ensures
        r == open_tab(snapshot@, workspace@, views(tabs@), 0),
{
    let ghost all = views(tabs@);
    let mut i: usize = 0;
    while i < tabs.len()
        invariant
            i <= tabs@.len(),
            all == views(tabs@),
            open_tab(snapshot@, workspace@, all, 0) == open_tab(
                snapshot@,
                workspace@,
                all,
                i as int,
            ),
        decreases tabs@.len() - i,
    {
        let tab = tabs[i];
        assert(all[i as int] == tab@);
        if same_text(tab.tab_id.as_str(), workspace.active_tab_id.as_str()) || option_is_text(
            &snapshot.focused_tab_id,
            tab.tab_id.as_str(),
        ) {
            return i;
        }
        i += 1;
    }
    0
}

/// A pane as the sidebar lists it, and its terminal.
fn make_pane(
    instance_id: &str,
    snapshot: &SessionSnapshot,
    pane: &PaneInfo,
    keys: &Projection,
) -> (r: (SidebarPane, SidebarTerminal))
    ensures
        r.0 == listed_pane(instance_id@, snapshot@, pane@, keys@),
        r.1@ == pane_terminal(instance_id@, snapshot@, pane@, keys@),
{
    let number: usize = keys.number_of(
        make_pane_key(instance_id, pane.pane_id.as_str()).as_str(),
    );
    let agent = find_agent(&snapshot.agents, pane.pane_id.as_str());
    let (state, seen) = native_agent_state(
        match agent {
            Some(agent) => agent.agent_status,
            None => pane.agent_status,
        },
    );
    let cwd = match first_option_text(&pane.foreground_cwd, &pane.cwd) {
        Some(cwd) => cwd,
        None => "/".to_string(),
    };
    let report = match agent {
        Some(agent) => PaneReport {
            detect_from: first_option_text(&pane.agent, &pane.display_agent),
            state_change_seq: Some(agent.state_change_seq),
            agent_name: copy_option_text(&agent.name),
            agent_label: copy_option_text(&pane.agent),
            title: first_option_text(&agent.title, &pane.title),
            display_agent: first_option_text(&agent.display_agent, &pane.display_agent),
            state_labels: agent.state_labels.copy(),
            seq: agent.revision,
            manual_label: copy_option_text(&pane.label),
            terminal_title: copy_option_text(&pane.terminal_title),
            tokens: fresh_tokens(&pane.tokens),
        },
        None => PaneReport {
            detect_from: first_option_text(&pane.agent, &pane.display_agent),
            state_change_seq: None,
            agent_name: None,
            agent_label: copy_option_text(&pane.agent),
            title: copy_option_text(&pane.title),
            display_agent: copy_option_text(&pane.display_agent),
            state_labels: pane.state_labels.copy(),
            seq: pane.revision,
            manual_label: copy_option_text(&pane.label),
            terminal_title: copy_option_text(&pane.terminal_title),
            tokens: fresh_tokens(&pane.tokens),
        },
    };
    let terminal_id = TerminalId { number };
    (
        SidebarPane { terminal_id, pane_id: PaneId { number }, seen },
        SidebarTerminal { id: terminal_id, cwd, state: Some(state), report: Some(report) },
    )
}

/// What a row gets of one tab.
struct TabParts {
    tab: SidebarTab,
    terminals: Vec<SidebarTerminal>,
    pane_routes: Vec<PaneRoute>,
}

fn make_tab(
    index: usize,
    instance_id: &str,
    snapshot: &SessionSnapshot,
    tab: &TabInfo,
    keys: &Projection,
) -> (r: TabParts)
    ensures
        r.tab@ == listed_tab(instance_id@, snapshot@, tab@, keys@),
        views(r.terminals@) == tab_terminals(instance_id@, snapshot@, tab@, keys@),
        views(r.pane_routes@) == tab_pane_routes(index, instance_id@, snapshot@, tab@, keys@),
{
    let selected = select_panes(&snapshot.panes, tab.tab_id.as_str());
    let ghost all = views(selected@);
    let mut panes: Vec<SidebarPane> = Vec::new();
    let mut terminals: Vec<SidebarTerminal> = Vec::new();
    let mut pane_routes: Vec<PaneRoute> = Vec::new();
    let mut focus: Option<usize> = None;
    let ghost listed = tab_terminals(instance_id@, snapshot@, tab@, keys@);
    let ghost routes = tab_pane_routes(index, instance_id@, snapshot@, tab@, keys@);
    let mut i: usize = 0;
    while i < selected.len()
        invariant
            i <= selected@.len(),
            all == views(selected@),
            all == panes_of(snapshot@.panes, tab@.tab_id),
            listed == tab_terminals(instance_id@, snapshot@, tab@, keys@),
            routes == tab_pane_routes(index, instance_id@, snapshot@, tab@, keys@),
            panes@.len() == i,
            terminals@.len() == i,
            pane_routes@.len() == i,
            forall|j: int|
                0 <= j < i ==> panes@[j] == listed_pane(
                    instance_id@,
                    snapshot@,
                    #[trigger] all[j],
                    keys@,
                ),
            forall|j: int| 0 <= j < i ==> (#[trigger] terminals@[j])@ == listed[j],
            forall|j: int| 0 <= j < i ==> (#[trigger] pane_routes@[j])@ == routes[j],
            focus == focused_pane(snapshot@, all.take(i as int)),
        decreases selected@.len() - i,
    {
        let pane = selected[i];
        assert(all[i as int] == pane@);
        assert(all.take(i + 1).drop_last() =~= all.take(i as int));
        assert(all.take(i + 1).last() == pane@);
        let (entry, terminal) = make_pane(instance_id, snapshot, pane, keys);
        if pane.focused || option_is_text(&snapshot.focused_pane_id, pane.pane_id.as_str()) {
            focus = Some(i);
        }
        pane_routes.push(
            PaneRoute {
                pane: entry.pane_id,
                target: SidebarHit::Pane { index, pane_id: pane.pane_id.clone() },
            },
        );
        panes.push(entry);
        terminals.push(terminal);
        i += 1;
    }
    assert(all.take(i as int) =~= all);
    let r = TabParts {
        tab: SidebarTab {
            label: Some(tab.label.clone()),
            number: tab.number,
            panes,
            focused_pane: focus,
        },
        terminals,
        pane_routes,
    };
    proof {
        assert(r.tab@.panes =~= listed_tab(instance_id@, snapshot@, tab@, keys@).panes);
        assert(views(r.terminals@) =~= listed);
        assert(views(r.pane_routes@) =~= routes);
    }
    r
}

fn make_stand_in_tab(number: usize, seen: bool) -> (r: SidebarTab)
    ensures
        r@ == stand_in_tab(number, seen),
{
    let mut panes: Vec<SidebarPane> = Vec::new();
    panes.push(
        SidebarPane { terminal_id: TerminalId { number }, pane_id: PaneId { number }, seen },
    );
    let r = SidebarTab { label: None, number: 1, panes, focused_pane: Some(0) };
    assert(r@.panes =~= stand_in_tab(number, seen).panes);
    r
}

fn make_instance_row(index: usize, instance: &Instance, keys: &Projection) -> (r: SidebarRow)
    ensures
        r@ == instance_row(index, instance@, keys@),
{
    proof {
        reveal(instance_model);
    }
    let number: usize = keys.number_of(make_empty_key(instance.id.as_str()).as_str());
    let status: &str = match &instance.error {
        Some(error) => error.as_str(),
        None => if instance.connected {
            "no spaces"
        } else {
            "connecting"
        },
    };
    let mut tabs: Vec<SidebarTab> = Vec::new();
    tabs.push(make_stand_in_tab(number, true));
    let mut terminals: Vec<SidebarTerminal> = Vec::new();
    terminals.push(
        SidebarTerminal {
            id: TerminalId { number },
            cwd: "/".to_string(),
            state: None,
            report: None,
        },
    );
    let mut tab_routes: Vec<Option<SidebarHit>> = Vec::new();
    tab_routes.push(None);
    let r = SidebarRow {
        instance: index,
        focused: false,
        workspace: SidebarWorkspace {
            key: "fleet:".to_string().concat(instance.id.as_str()).concat(":empty"),
            label: instance.name.clone().concat(" · ").concat(status),
            branch: None,
            tabs,
            active_tab: 0,
            tokens: Tokens::new(),
        },
        terminals,
        route: SidebarHit::Instance { index },
        tab_routes,
        pane_routes: Vec::new(),
    };
    proof {
        let spec_row = instance_row(index, instance@, keys@);
        assert(r@.workspace.tabs =~= spec_row.workspace.tabs);
        assert(r@.terminals =~= spec_row.terminals);
        assert(r@.tab_routes =~= spec_row.tab_routes);
        assert(r@.pane_routes =~= spec_row.pane_routes);
        assert(r@.workspace =~= spec_row.workspace);
    }
    r
}

/// What a row gets of the tabs of its workspace.
struct RowParts {
    tabs: Vec<SidebarTab>,
    terminals: Vec<SidebarTerminal>,
    pane_routes: Vec<PaneRoute>,
}

fn make_tabs(
    index: usize,
    instance_id: &str,
    snapshot: &SessionSnapshot,
    tabs: &Vec<&TabInfo>,
    keys: &Projection,
) -> (r: RowParts)
    ensures
        views(r.tabs@) == views(tabs@).map_values(
            |t: TabInfoView| listed_tab(instance_id@, snapshot@, t, keys@),
        ),
        views(r.terminals@) == tabs_terminals(instance_id@, snapshot@, views(tabs@), keys@),
        views(r.pane_routes@) == tabs_pane_routes(
            index,
            instance_id@,
            snapshot@,
            views(tabs@),
            keys@,
        ),
{
    let ghost all = views(tabs@);
    let mut listed: Vec<SidebarTab> = Vec::new();
    let mut terminals: Vec<SidebarTerminal> = Vec::new();
    let mut pane_routes: Vec<PaneRoute> = Vec::new();
    assert(views(terminals@) =~= tabs_terminals(instance_id@, snapshot@, all.take(0), keys@));
    assert(views(pane_routes@) =~= tabs_pane_routes(
        index,
        instance_id@,
        snapshot@,
        all.take(0),
        keys@,
    ));
    let mut i: usize = 0;
    while i < tabs.len()
        invariant
            i <= tabs@.len(),
            all == views(tabs@),
            listed@.len() == i,
            forall|j: int|
                0 <= j < i ==> (#[trigger] listed@[j])@ == listed_tab(
                    instance_id@,
                    snapshot@,
                    all[j],
                    keys@,
                ),
            views(terminals@) == tabs_terminals(
                instance_id@,
                snapshot@,
                all.take(i as int),
                keys@,
            ),
            views(pane_routes@) == tabs_pane_routes(
                index,
                instance_id@,
                snapshot@,
                all.take(i as int),
                keys@,
            ),
        decreases tabs@.len() - i,
    {
        let mut parts = make_tab(index, instance_id, snapshot, tabs[i], keys);
        let ghost old_terminals = terminals@;
        let ghost old_routes = pane_routes@;
        let ghost new_terminals = parts.terminals@;
        let ghost new_routes = parts.pane_routes@;
        assert(all[i as int] == tabs@[i as int]@);
        assert(all.take(i + 1).drop_last() =~= all.take(i as int));
        assert(all.take(i + 1).last() == all[i as int]);
        listed.push(parts.tab);
        terminals.append(&mut parts.terminals);
        pane_routes.append(&mut parts.pane_routes);
        assert(views(terminals@) =~= views(old_terminals) + views(new_terminals));
        assert(views(pane_routes@) =~= views(old_routes) + views(new_routes));
        i += 1;
    }
    assert(all.take(i as int) =~= all);
    assert(views(listed@) =~= all.map_values(
        |t: TabInfoView| listed_tab(instance_id@, snapshot@, t, keys@),
    ));
    RowParts { tabs: listed, terminals, pane_routes }
}

fn make_stand_in(number: usize, state: AgentState, seen: bool) -> (r: RowParts)
    ensures
        views(r.tabs@) == seq![stand_in_tab(number, seen)],
        views(r.terminals@) == seq![
            SidebarTerminalView {
                id: TerminalId { number },
                cwd: "/"@,
                state: Some(state),
                report: None,
            },
        ],
        views(r.pane_routes@) == Seq::<PaneRouteView>::empty(),
{
    let mut tabs: Vec<SidebarTab> = Vec::new();
    tabs.push(make_stand_in_tab(number, seen));
    let mut terminals: Vec<SidebarTerminal> = Vec::new();
    terminals.push(
        SidebarTerminal {
            id: TerminalId { number },
            cwd: "/".to_string(),
            state: Some(state),
            report: None,
        },
    );
    let r = RowParts { tabs, terminals, pane_routes: Vec::new() };
    proof {
        assert(views(r.tabs@) =~= seq![stand_in_tab(number, seen)]);
        assert(views(r.terminals@) =~= seq![
            SidebarTerminalView {
                id: TerminalId { number },
                cwd: "/"@,
                state: Some(state),
                report: None,
            },
        ]);
        assert(views(r.pane_routes@) =~= Seq::<PaneRouteView>::empty());
    }
    r
}

fn make_workspace_row(
    index: usize,
    instance: &Instance,
    snapshot: &SessionSnapshot,
    workspace: &WorkspaceInfo,
    keys: &Projection,
) -> (r: SidebarRow)
    ensures
        r@ == workspace_row(index, instance@, snapshot@, workspace@, keys@),
{
    proof {
        reveal(instance_model);
    }
    let instance_id = instance.id.as_str();
    let workspace_id = workspace.workspace_id.as_str();
    let selected = select_tabs(&snapshot.tabs, workspace_id);
    let active_tab: usize = find_open_tab(snapshot, workspace, &selected);
    let ghost all = views(selected@);
    let ghost spec_row = workspace_row(index, instance@, snapshot@, workspace@, keys@);
    let parts = if selected.len() == 0 {
        let number: usize = keys.number_of(
            make_empty_workspace_key(instance_id, workspace_id).as_str(),
        );
        let (state, seen) = native_agent_state(workspace.agent_status);
        make_stand_in(number, state, seen)
    } else {
        make_tabs(index, instance_id, snapshot, &selected, keys)
    };
    proof {
        assert(all.len() == selected@.len());
        assert(all == tabs_of(snapshot@.tabs, workspace@.workspace_id));
        if all.len() == 0 {
            assert(tabs_pane_routes(index, instance_id@, snapshot@, all, keys@) =~= Seq::empty());
        } else {
            assert(views(parts.tabs@) =~= spec_row.workspace.tabs);
        }
        assert(views(parts.tabs@) == spec_row.workspace.tabs);
    }
    let mut tab_routes: Vec<Option<SidebarHit>> = Vec::new();
    let mut i: usize = 0;
    while i < parts.tabs.len()
        invariant
            i <= parts.tabs@.len(),
            tab_routes@.len() == i,
            forall|j: int|
                0 <= j < i ==> opt_hit(#[trigger] tab_routes@[j]) == tab_route(
                    index,
                    snapshot@,
                    workspace@,
                    parts.tabs@[j].number,
                ),
        decreases parts.tabs@.len() - i,
    {
        proof {
            reveal(instance_model);
        }
        tab_routes.push(find_tab_route(index, snapshot, workspace, parts.tabs[i].number));
        i += 1;
    }
    let mut named = workspace.tokens.copy();
    named.insert("host".to_string(), instance.name.clone());
    let tokens = fresh_tokens(&named);
    let branch: Option<String> = match workspace.tokens.get("branch") {
        Some(branch) => Some(branch.clone()),
        None => None,
    };
    let r = SidebarRow {
        instance: index,
        focused: workspace.focused || option_is_text(
            &snapshot.focused_workspace_id,
            workspace_id,
        ),
        workspace: SidebarWorkspace {
            key: "fleet:".to_string().concat(instance_id).concat(":").concat(workspace_id),
            label: instance.name.clone().concat(" · ").concat(workspace.label.as_str()),
            branch,
            tabs: parts.tabs,
            active_tab,
            tokens,
        },
        terminals: parts.terminals,
        route: SidebarHit::Workspace { index, workspace_id: workspace.workspace_id.clone() },
        tab_routes,
        pane_routes: parts.pane_routes,
    };
    proof {
        assert forall|j: int| 0 <= j < r.tab_routes@.len() implies #[trigger] r@.tab_routes[j]
            == spec_row.tab_routes[j] by {
            assert(r@.tab_routes[j] == opt_hit(r.tab_routes@[j]));
            assert(spec_row.workspace.tabs[j] == views(parts.tabs@)[j]);
        }
        assert(r@.tab_routes =~= spec_row.tab_routes);
        assert(r@.workspace =~= spec_row.workspace);
    }
    r
}

/// The row that is active.
fn find_active_row(rows: &Vec<SidebarRow>, instance: usize) -> (r: Option<usize>)
    ensures
        r == active_row(views(rows@), instance),
{
    let ghost all = views(rows@);
    let mut focused: Option<usize> = None;
    let mut first: Option<usize> = None;
    let mut i: usize = 0;
    while i < rows.len()
        invariant
            i <= rows@.len(),
            all == views(rows@),
            focused == last_focused_row(all.take(i as int), instance),
            first == first_row(all.take(i as int), instance),
        decreases rows@.len() - i,
    {
        assert(all.take(i + 1).drop_last() =~= all.take(i as int));
        assert(all.take(i + 1).last() == rows@[i as int]@);
        if rows[i].instance == instance {
            if rows[i].focused {
                focused = Some(i);
            }
            if first.is_none() {
                first = Some(i);
            }
        }
        i += 1;
    }
    assert(all.take(i as int) =~= all);
    if focused.is_some() {
        focused
    } else if first.is_some() {
        first
    } else if rows.len() > 0 {
        Some(0)
    } else {
        None
    }
}

proof fn lemma_with_keys_concat(keys: Seq<Seq<char>>, a: Seq<Seq<char>>, b: Seq<Seq<char>>)
    ensures
        with_keys(with_keys(keys, a), b) == with_keys(keys, a + b),
    decreases b.len(),
{
    if b.len() == 0 {
        assert(a + b =~= a);
    } else {
        assert((a + b).drop_last() =~= a + b.drop_last());
        lemma_with_keys_concat(keys, a, b.drop_last());
    }
}

fn ask_tab_keys(
    instance_id: &str,
    snapshot: &SessionSnapshot,
    tabs: &Vec<&TabInfo>,
    keys: &mut Projection,
)
    ensures
        final(keys)@ == with_keys(old(keys)@, tabs_keys(instance_id@, snapshot@, views(tabs@))),
{
    let ghost start = keys@;
    let ghost all = views(tabs@);
    let mut i: usize = 0;
    while i < tabs.len()
        invariant
            i <= tabs@.len(),
            all == views(tabs@),
            keys@ == with_keys(
                start,
                tabs_keys(instance_id@, snapshot@, all.take(i as int)),
            ),
        decreases tabs@.len() - i,
    {
        let panes = select_panes(&snapshot.panes, tabs[i].tab_id.as_str());
        let ghost before = keys@;
        let ghost own = panes_of(snapshot@.panes, all[i as int].tab_id).map_values(
            |p: PaneInfoView| pane_key(instance_id@, p.pane_id),
        );
        assert(own.len() == panes@.len());
        let mut j: usize = 0;
        while j < panes.len()
            invariant
                j <= panes@.len(),
                own.len() == panes@.len(),
                views(panes@) == panes_of(snapshot@.panes, all[i as int].tab_id),
                own == panes_of(snapshot@.panes, all[i as int].tab_id).map_values(
                    |p: PaneInfoView| pane_key(instance_id@, p.pane_id),
                ),
                keys@ == with_keys(before, own.take(j as int)),
            decreases panes@.len() - j,
        {
            assert(views(panes@)[j as int] == panes@[j as int]@);
            keys.ask(make_pane_key(instance_id, panes[j].pane_id.as_str()));
            assert(own.take(j + 1).drop_last() =~= own.take(j as int));
            j += 1;
        }
        proof {
            assert(own.take(j as int) =~= own);
            assert(all.take(i + 1).drop_last() =~= all.take(i as int));
            assert(all.take(i + 1).last() == all[i as int]);
            lemma_with_keys_concat(
                start,
                tabs_keys(instance_id@, snapshot@, all.take(i as int)),
                own,
            );
        }
        i += 1;
    }
    assert(all.take(i as int) =~= all);
}

fn ask_workspace_keys(
    instance_id: &str,
    snapshot: &SessionSnapshot,
    workspace: &WorkspaceInfo,
    keys: &mut Projection,
)
    ensures
        final(keys)@ == with_keys(
            old(keys)@,
            workspace_keys(instance_id@, snapshot@, workspace@),
        ),
{
    let selected = select_tabs(&snapshot.tabs, workspace.workspace_id.as_str());
    assert(views(selected@).len() == selected@.len());
    if selected.len() == 0 {
        let ghost start = keys@;
        keys.ask(make_empty_workspace_key(instance_id, workspace.workspace_id.as_str()));
        proof {
            lemma_with_one_key(
                start,
                empty_workspace_key(instance_id@, workspace@.workspace_id),
            );
        }
    } else {
        ask_tab_keys(instance_id, snapshot, &selected, keys);
    }
}

proof fn lemma_with_one_key(keys: Seq<Seq<char>>, key: Seq<char>)
    ensures
        with_keys(keys, seq![key]) == with_key(keys, key),
{
    let added = seq![key];
    assert(added.drop_last() =~= Seq::empty());
    assert(with_keys(keys, added.drop_last()) == keys);
}

fn ask_instance_keys(instance: &Instance, keys: &mut Projection)
    ensures
        final(keys)@ == with_keys(old(keys)@, instance_keys(instance@)),
{
    proof {
        reveal(instance_model);
    }
    let ghost start = keys@;
    if let Some(snapshot) = &instance.snapshot {
        let ghost all = snapshot@.workspaces;
        assert(all.len() == snapshot.workspaces@.len());
        if snapshot.workspaces.len() > 0 {
            let mut i: usize = 0;
            while i < snapshot.workspaces.len()
                invariant
                    i <= snapshot.workspaces@.len(),
                    all == views(snapshot.workspaces@),
                    keys@ == with_keys(
                        start,
                        workspaces_keys(instance.id@, snapshot@, all.take(i as int)),
                    ),
                decreases snapshot.workspaces@.len() - i,
            {
                proof {
                    reveal(instance_model);
                }
                ask_workspace_keys(
                    instance.id.as_str(),
                    snapshot,
                    &snapshot.workspaces[i],
                    keys,
                );
                proof {
                    assert(all.take(i + 1).drop_last() =~= all.take(i as int));
                    assert(all.take(i + 1).last() == snapshot.workspaces@[i as int]@);
                    lemma_with_keys_concat(
                        start,
                        workspaces_keys(instance.id@, snapshot@, all.take(i as int)),
                        workspace_keys(
                            instance.id@,
                            snapshot@,
                            snapshot.workspaces@[i as int]@,
                        ),
                    );
                }
                i += 1;
            }
            assert(all.take(i as int) =~= all);
            return;
        }
    }
    keys.ask(make_empty_key(instance.id.as_str()));
    proof {
        lemma_with_one_key(start, empty_key(instance.id@));
    }
}

/// The rows of one instance.
fn make_instance_rows(index: usize, instance: &Instance, keys: &Projection) -> (rows: Vec<
    SidebarRow,
>)
    ensures
        views(rows@) == instance_rows(index, instance@, keys@),
{
    proof {
        reveal(instance_model);
    }
    let mut rows: Vec<SidebarRow> = Vec::new();
    if let Some(snapshot) = &instance.snapshot {
        assert(snapshot@.workspaces.len() == snapshot.workspaces@.len());
        if snapshot.workspaces.len() > 0 {
            let mut i: usize = 0;
            while i < snapshot.workspaces.len()
                invariant
                    i <= snapshot.workspaces@.len(),
                    rows@.len() == i,
                    forall|j: int|
                        0 <= j < i ==> (#[trigger] rows@[j])@ == workspace_row(
                            index,
                            instance@,
                            snapshot@,
                            snapshot@.workspaces[j],
                            keys@,
                        ),
                decreases snapshot.workspaces@.len() - i,
            {
                proof {
                    reveal(instance_model);
                }
                rows.push(
                    make_workspace_row(index, instance, snapshot, &snapshot.workspaces[i], keys),
                );
                i += 1;
            }
            assert(views(rows@) =~= instance_rows(index, instance@, keys@));
            return rows;
        }
    }
    rows.push(make_instance_row(index, instance, keys));
    assert(views(rows@) =~= instance_rows(index, instance@, keys@));
    rows
}

/// The sidebar of a fleet in which the instance at `active_instance` is
/// active. Panes that were not listed before get an identity; those that were
/// keep theirs.
pub fn build_sidebar_state(
    instances: &Vec<Instance>,
    active_instance: usize,
    projection: &mut Projection,
) -> (model: SidebarModel)
    ensures
        final(projection)@ == with_keys(old(projection)@, sidebar_keys(views(instances@))),
        model@ == sidebar_model(views(instances@), active_instance, final(projection)@),
{
    let ghost all = views(instances@);
    let ghost start = projection@;
    let mut i: usize = 0;
    while i < instances.len()
        invariant
            i <= instances@.len(),
            all == views(instances@),
            projection@ == with_keys(start, sidebar_keys(all.take(i as int))),
        decreases instances@.len() - i,
    {
        ask_instance_keys(&instances[i], projection);
        proof {
            assert(all.take(i + 1).drop_last() =~= all.take(i as int));
            assert(all.take(i + 1).last() == instances@[i as int]@);
            lemma_with_keys_concat(
                start,
                sidebar_keys(all.take(i as int)),
                instance_keys(instances@[i as int]@),
            );
        }
        i += 1;
    }
    assert(all.take(i as int) =~= all);
    let ghost keys = projection@;
    let mut rows: Vec<SidebarRow> = Vec::new();
    assert(views(rows@) =~= sidebar_rows(all.take(0), keys));
    let mut index: usize = 0;
    while index < instances.len()
        invariant
            index <= instances@.len(),
            all == views(instances@),
            keys == projection@,
            views(rows@) == sidebar_rows(all.take(index as int), keys),
        decreases instances@.len() - index,
    {
        let mut own = make_instance_rows(index, &instances[index], projection);
        let ghost before = rows@;
        let ghost added = own@;
        rows.append(&mut own);
        proof {
            assert(views(rows@) =~= views(before) + views(added));
            assert(all.take(index + 1).drop_last() =~= all.take(index as int));
            assert(all.take(index + 1).last() == instances@[index as int]@);
        }
        index += 1;
    }
    assert(all.take(index as int) =~= all);
    let active = find_active_row(&rows, active_instance);
    let selected: usize = match active {
        Some(row) => row,
        None => 0,
    };
    SidebarModel { rows, active, selected }
}

} // verus!
