//! What each row of the sidebar shows, and where it leads.

use vstd::prelude::*;
use vstd::string::*;

use crate::instance::InstanceView;
use crate::projection::{
    key_number, law_asked_keys_have_numbers, law_key_numbers_are_distinct, PaneId, TerminalId,
};
use crate::routes::HitView;
use crate::sidebar::{
    agent_of, empty_key, empty_workspace_key, first_row, focused_pane, instance_keys,
    instance_rows, is_focused_pane, is_open_tab, last_focused_row, numbered_tab, open_tab,
    pane_key, panes_of, sidebar_keys, sidebar_model, sidebar_rows, tab_pane_routes, tab_terminals,
    tabs_keys, tabs_of, tabs_pane_routes, tabs_terminals, workspace_keys, workspaces_keys,
    PaneReportView, PaneRouteView, RowView, SidebarPane, SidebarTerminalView,
};
use crate::sidebar_actions::last_pane_route;
use crate::snapshot::{
    native_state, AgentInfoView, AgentStatus, PaneInfoView, SnapshotView, TabInfoView,
    WorkspaceInfoView,
};

verus! {

/// The tabs that a snapshot lists for a workspace.
pub open spec fn own_tabs(snapshot: SnapshotView, workspace: WorkspaceInfoView) -> Seq<
    TabInfoView,
> {
    snapshot.tabs.filter(|tab: TabInfoView| tab.workspace_id == workspace.workspace_id)
}

/// The panes that a snapshot lists for a tab.
pub open spec fn own_panes(snapshot: SnapshotView, tab: TabInfoView) -> Seq<PaneInfoView> {
    snapshot.panes.filter(|pane: PaneInfoView| pane.tab_id == tab.tab_id)
}

/// Whether an agent is the first one that a snapshot lists for a pane, or the
/// snapshot lists none.
pub open spec fn is_agent_of(
    snapshot: SnapshotView,
    pane: PaneInfoView,
    agent: Option<AgentInfoView>,
) -> bool {
    match agent {
        Some(agent) => exists|i: int|
            {
                &&& 0 <= i < snapshot.agents.len()
                &&& #[trigger] snapshot.agents[i] == agent
                &&& agent.pane_id == pane.pane_id
                &&& forall|j: int|
                    0 <= j < i ==> (#[trigger] snapshot.agents[j]).pane_id != pane.pane_id
            },
        None => forall|i: int|
            0 <= i < snapshot.agents.len() ==> (#[trigger] snapshot.agents[i]).pane_id
                != pane.pane_id,
    }
}

/// What a pane is reported to be doing: what its agent reports, where it has
/// one.
pub open spec fn reported_status(pane: PaneInfoView, agent: Option<AgentInfoView>) -> AgentStatus {
    match agent {
        Some(agent) => agent.agent_status,
        None => pane.agent_status,
    }
}

proof fn lemma_tabs_of(tabs: Seq<TabInfoView>, workspace_id: Seq<char>)
    ensures
        tabs_of(tabs, workspace_id) == tabs.filter(
            |tab: TabInfoView| tab.workspace_id == workspace_id,
        ),
    decreases tabs.len(),
{
    reveal(Seq::filter);
    if tabs.len() > 0 {
        lemma_tabs_of(tabs.drop_last(), workspace_id);
    }
    assert(tabs_of(tabs, workspace_id) =~= tabs.filter(
        |tab: TabInfoView| tab.workspace_id == workspace_id,
    ));
}

proof fn lemma_panes_of(panes: Seq<PaneInfoView>, tab_id: Seq<char>)
    ensures
        panes_of(panes, tab_id) == panes.filter(|pane: PaneInfoView| pane.tab_id == tab_id),
    decreases panes.len(),
{
    reveal(Seq::filter);
    if panes.len() > 0 {
        lemma_panes_of(panes.drop_last(), tab_id);
    }
    assert(panes_of(panes, tab_id) =~= panes.filter(
        |pane: PaneInfoView| pane.tab_id == tab_id,
    ));
}

proof fn lemma_own_tabs(tabs: Seq<TabInfoView>, workspace_id: Seq<char>)
    ensures
        forall|i: int|
            0 <= i < tabs_of(tabs, workspace_id).len() ==> (#[trigger] tabs_of(
                tabs,
                workspace_id,
            )[i]).workspace_id == workspace_id && tabs.contains(tabs_of(tabs, workspace_id)[i]),
    decreases tabs.len(),
{
    if tabs.len() > 0 {
        let front = tabs.drop_last();
        lemma_own_tabs(front, workspace_id);
        let all = tabs_of(tabs, workspace_id);
        let rest = tabs_of(front, workspace_id);
        assert forall|i: int| 0 <= i < all.len() implies (#[trigger] all[i]).workspace_id
            == workspace_id && tabs.contains(all[i]) by {
            if i < rest.len() {
                assert(all[i] == rest[i]);
                let k = choose|k: int| 0 <= k < front.len() && front[k] == rest[i];
                assert(tabs[k] == all[i]);
            } else {
                assert(tabs[tabs.len() - 1] == all[i]);
            }
        }
    }
}

proof fn lemma_agent_of(agents: Seq<AgentInfoView>, pane_id: Seq<char>, i: int)
    requires
        0 <= i <= agents.len(),
        forall|j: int| 0 <= j < i ==> (#[trigger] agents[j]).pane_id != pane_id,
        i < agents.len() ==> agents[i].pane_id == pane_id,
    ensures
        agent_of(agents, pane_id) == if i < agents.len() {
            Some(agents[i])
        } else {
            None
        },
    decreases agents.len(),
{
    if i > 0 {
        let rest = agents.skip(1);
        assert(agents[0].pane_id != pane_id);
        assert forall|j: int| 0 <= j < i - 1 implies (#[trigger] rest[j]).pane_id != pane_id by {
            assert(rest[j] == agents[j + 1]);
        }
        lemma_agent_of(rest, pane_id, i - 1);
    }
}

proof fn lemma_agent(snapshot: SnapshotView, pane: PaneInfoView, agent: Option<AgentInfoView>)
    requires
        is_agent_of(snapshot, pane, agent),
    ensures
        agent_of(snapshot.agents, pane.pane_id) == agent,
{
    match agent {
        Some(agent) => {
            let i = choose|i: int|
                {
                    &&& 0 <= i < snapshot.agents.len()
                    &&& #[trigger] snapshot.agents[i] == agent
                    &&& agent.pane_id == pane.pane_id
                    &&& forall|j: int|
                        0 <= j < i ==> (#[trigger] snapshot.agents[j]).pane_id != pane.pane_id
                };
            lemma_agent_of(snapshot.agents, pane.pane_id, i);
        },
        None => {
            lemma_agent_of(snapshot.agents, pane.pane_id, snapshot.agents.len() as int);
        },
    }
}

proof fn lemma_numbered_tab(tabs: Seq<TabInfoView>, workspace_id: Seq<char>, number: usize)
    ensures
        match numbered_tab(tabs, workspace_id, number) {
            Some(found) => exists|i: int|
                {
                    &&& 0 <= i < tabs.len()
                    &&& #[trigger] tabs[i] == found
                    &&& found.workspace_id == workspace_id
                    &&& found.number == number
                    &&& forall|j: int|
                        0 <= j < i ==> (#[trigger] tabs[j]).workspace_id != workspace_id
                            || tabs[j].number != number
                },
            None => forall|i: int|
                0 <= i < tabs.len() ==> (#[trigger] tabs[i]).workspace_id != workspace_id
                    || tabs[i].number != number,
        },
    decreases tabs.len(),
{
    if tabs.len() > 0 && !(tabs[0].workspace_id == workspace_id && tabs[0].number == number) {
        let rest = tabs.skip(1);
        lemma_numbered_tab(rest, workspace_id, number);
        match numbered_tab(tabs, workspace_id, number) {
            Some(found) => {
                let i = choose|i: int|
                    {
                        &&& 0 <= i < rest.len()
                        &&& #[trigger] rest[i] == found
                        &&& found.workspace_id == workspace_id
                        &&& found.number == number
                        &&& forall|j: int|
                            0 <= j < i ==> (#[trigger] rest[j]).workspace_id != workspace_id
                                || rest[j].number != number
                    };
                assert(tabs[i + 1] == found);
                assert forall|j: int| 0 <= j < i + 1 implies (#[trigger] tabs[j]).workspace_id
                    != workspace_id || tabs[j].number != number by {
                    if j > 0 {
                        assert(rest[j - 1] == tabs[j]);
                    }
                }
            },
            None => {
                assert forall|j: int| 0 <= j < tabs.len() implies (#[trigger] tabs[j]).workspace_id
                    != workspace_id || tabs[j].number != number by {
                    if j > 0 {
                        assert(rest[j - 1] == tabs[j]);
                    }
                }
            },
        }
    }
}

proof fn lemma_open_tab(
    snapshot: SnapshotView,
    workspace: WorkspaceInfoView,
    tabs: Seq<TabInfoView>,
    from: int,
)
    requires
        0 <= from <= tabs.len(),
        forall|i: int| 0 <= i < from ==> !is_open_tab(snapshot, workspace, #[trigger] tabs[i]),
    ensures
        ({
            let open = open_tab(snapshot, workspace, tabs, from);
            ||| {
                &&& 0 <= open < tabs.len()
                &&& is_open_tab(snapshot, workspace, tabs[open])
                &&& forall|i: int|
                    0 <= i < open ==> !is_open_tab(snapshot, workspace, #[trigger] tabs[i])
            }
            ||| {
                &&& open == 0
                &&& forall|i: int|
                    0 <= i < tabs.len() ==> !is_open_tab(snapshot, workspace, #[trigger] tabs[i])
            }
        }),
    decreases tabs.len() - from,
{
    if from < tabs.len() && !is_open_tab(snapshot, workspace, tabs[from]) {
        lemma_open_tab(snapshot, workspace, tabs, from + 1);
    }
}

proof fn lemma_focused_pane(snapshot: SnapshotView, panes: Seq<PaneInfoView>)
    requires
        panes.len() <= usize::MAX,
    ensures
        match focused_pane(snapshot, panes) {
            Some(place) => {
                &&& place < panes.len()
                &&& is_focused_pane(snapshot, panes[place as int])
                &&& forall|i: int|
                    place < i < panes.len() ==> !is_focused_pane(snapshot, #[trigger] panes[i])
            },
            None => forall|i: int|
                0 <= i < panes.len() ==> !is_focused_pane(snapshot, #[trigger] panes[i]),
        },
    decreases panes.len(),
{
    if panes.len() > 0 && !is_focused_pane(snapshot, panes.last()) {
        let front = panes.drop_last();
        lemma_focused_pane(snapshot, front);
        assert forall|i: int| 0 <= i < front.len() implies front[i] == #[trigger] panes[i] by {}
    }
}

/// A fleet without instances has no rows, and one more instance adds its rows
/// below those of the others.
pub proof fn law_instances_follow_each_other(
    instances: Seq<InstanceView>,
    instance: InstanceView,
    keys: Seq<Seq<char>>,
)
    ensures
        sidebar_rows(Seq::empty(), keys).len() == 0,
        sidebar_rows(instances.push(instance), keys) == sidebar_rows(instances, keys)
            + instance_rows(instances.len() as usize, instance, keys),
{
    assert(instances.push(instance).drop_last() =~= instances);
}

/// An instance that reports no workspaces has one row, which leads to the
/// instance itself and says how it is: what is wrong with it, that it has no
/// workspaces, or that it is being connected.
pub proof fn law_instances_without_workspaces_have_one_row(
    index: usize,
    instance: InstanceView,
    keys: Seq<Seq<char>>,
)
    requires
        instance.snapshot matches Some(snapshot) ==> snapshot.workspaces.len() == 0,
    ensures
        ({
            let rows = instance_rows(index, instance, keys);
            let row = rows[0];
            let said = if instance.error is Some {
                instance.error->0
            } else if instance.connected {
                "no spaces"@
            } else {
                "connecting"@
            };
            let number = key_number(keys, instance.id + "\0empty"@) as usize;
            let tab = row.workspace.tabs[0];
            &&& rows.len() == 1
            &&& row.instance == index
            &&& !row.focused
            &&& row.route == HitView::Instance { index }
            &&& row.workspace.key == "fleet:"@ + instance.id + ":empty"@
            &&& row.workspace.label == instance.name + " · "@ + said
            &&& row.workspace.branch is None
            &&& row.workspace.active_tab == 0
            &&& row.workspace.tokens == Map::<Seq<char>, Seq<char>>::empty()
            &&& row.workspace.tabs.len() == 1
            &&& tab.label is None
            &&& tab.number == 1
            &&& tab.focused_pane == Some(0usize)
            &&& tab.panes == seq![
                SidebarPane {
                    terminal_id: TerminalId { number },
                    pane_id: PaneId { number },
                    seen: true,
                },
            ]
            &&& row.tab_routes == seq![None::<HitView>]
            &&& row.pane_routes.len() == 0
            &&& row.terminals == seq![
                SidebarTerminalView {
                    id: TerminalId { number },
                    cwd: "/"@,
                    state: None,
                    report: None,
                },
            ]
        }),
{
}

/// An instance that reports workspaces has a row for each, in order. A row has
/// the name of its instance before that of the workspace, leads to the
/// workspace, and shows what the instance says of it, with the name of the
/// instance as its host.
pub proof fn law_workspaces_have_a_row_each(
    index: usize,
    instance: InstanceView,
    snapshot: SnapshotView,
    keys: Seq<Seq<char>>,
    i: int,
)
    requires
        instance.snapshot == Some(snapshot),
        0 <= i < snapshot.workspaces.len(),
    ensures
        ({
            let rows = instance_rows(index, instance, keys);
            let row = rows[i];
            let workspace = snapshot.workspaces[i];
            &&& rows.len() == snapshot.workspaces.len()
            &&& row.instance == index
            &&& row.focused <==> workspace.focused || snapshot.focused_workspace_id == Some(
                workspace.workspace_id,
            )
            &&& row.route == HitView::Workspace { index, workspace_id: workspace.workspace_id }
            &&& row.workspace.key == "fleet:"@ + instance.id + ":"@ + workspace.workspace_id
            &&& row.workspace.label == instance.name + " · "@ + workspace.label
            &&& workspace.tokens.contains_key("branch"@) ==> row.workspace.branch == Some(
                workspace.tokens["branch"@],
            )
            &&& !workspace.tokens.contains_key("branch"@) ==> row.workspace.branch is None
            &&& row.workspace.tokens.contains_key("host"@)
            &&& row.workspace.tokens["host"@] == instance.name
            &&& row.workspace.tokens.remove("host"@) == workspace.tokens.remove("host"@)
        }),
{
    let row = instance_rows(index, instance, keys)[i];
    let workspace = snapshot.workspaces[i];
    assert(row.workspace.tokens.remove("host"@) =~= workspace.tokens.remove("host"@));
}

/// A workspace without tabs has a tab to stand in for them, with one pane that
/// shows what the workspace is doing. It leads nowhere of its own.
pub proof fn law_workspaces_without_tabs_have_a_stand_in(
    index: usize,
    instance: InstanceView,
    snapshot: SnapshotView,
    keys: Seq<Seq<char>>,
    i: int,
)
    requires
        instance.snapshot == Some(snapshot),
        0 <= i < snapshot.workspaces.len(),
        forall|t: int|
            0 <= t < snapshot.tabs.len() ==> (#[trigger] snapshot.tabs[t]).workspace_id
                != snapshot.workspaces[i].workspace_id,
    ensures
        ({
            let row = instance_rows(index, instance, keys)[i];
            let workspace = snapshot.workspaces[i];
            let number = key_number(
                keys,
                instance.id + "\0"@ + workspace.workspace_id + "\0empty"@,
            ) as usize;
            let tab = row.workspace.tabs[0];
            &&& row.workspace.active_tab == 0
            &&& row.workspace.tabs.len() == 1
            &&& tab.label is None
            &&& tab.number == 1
            &&& tab.focused_pane == Some(0usize)
            &&& tab.panes == seq![
                SidebarPane {
                    terminal_id: TerminalId { number },
                    pane_id: PaneId { number },
                    seen: !(workspace.agent_status is Done),
                },
            ]
            &&& row.tab_routes == seq![None::<HitView>]
            &&& row.pane_routes.len() == 0
            &&& row.terminals == seq![
                SidebarTerminalView {
                    id: TerminalId { number },
                    cwd: "/"@,
                    state: Some(native_state(workspace.agent_status).0),
                    report: None,
                },
            ]
        }),
{
    let row = instance_rows(index, instance, keys)[i];
    let workspace = snapshot.workspaces[i];
    lemma_own_tabs(snapshot.tabs, workspace.workspace_id);
    let tabs = tabs_of(snapshot.tabs, workspace.workspace_id);
    if tabs.len() > 0 {
        let k = choose|k: int| 0 <= k < snapshot.tabs.len() && snapshot.tabs[k] == tabs[0];
        assert(snapshot.tabs[k].workspace_id == workspace.workspace_id);
    }
    lemma_numbered_tab(snapshot.tabs, workspace.workspace_id, 1);
    assert(row.tab_routes =~= seq![None::<HitView>]);
}

/// A row has the tabs that the instance reports for its workspace, in order,
/// under their labels and numbers. It opens at the first one that the workspace
/// has open or the instance has its focus on, and at the first of all where
/// there is none.
pub proof fn law_rows_list_the_tabs_of_their_workspace(
    index: usize,
    instance: InstanceView,
    snapshot: SnapshotView,
    keys: Seq<Seq<char>>,
    i: int,
    t: int,
)
    requires
        instance.snapshot == Some(snapshot),
        0 <= i < snapshot.workspaces.len(),
        0 <= t < own_tabs(snapshot, snapshot.workspaces[i]).len(),
        own_tabs(snapshot, snapshot.workspaces[i]).len() <= usize::MAX,
    ensures
        ({
            let row = instance_rows(index, instance, keys)[i];
            let workspace = snapshot.workspaces[i];
            let tabs = own_tabs(snapshot, workspace);
            let open = row.workspace.active_tab as int;
            let is_open = |tab: TabInfoView|
                tab.tab_id == workspace.active_tab_id || snapshot.focused_tab_id == Some(
                    tab.tab_id,
                );
            &&& row.workspace.tabs.len() == tabs.len()
            &&& row.tab_routes.len() == tabs.len()
            &&& row.workspace.tabs[t].label == Some(tabs[t].label)
            &&& row.workspace.tabs[t].number == tabs[t].number
            &&& open < tabs.len()
            &&& t < open ==> !is_open(tabs[t])
            &&& is_open(tabs[t]) ==> is_open(tabs[open])
            &&& open > 0 ==> is_open(tabs[open])
        }),
{
    let workspace = snapshot.workspaces[i];
    lemma_tabs_of(snapshot.tabs, workspace.workspace_id);
    let tabs = tabs_of(snapshot.tabs, workspace.workspace_id);
    assert(tabs == own_tabs(snapshot, workspace));
    lemma_open_tab(snapshot, workspace, tabs, 0);
}

/// A tab of a row leads to a tab of its own workspace that has its number, the
/// first one where there are several. Where the numbers of a workspace's tabs
/// are distinct, each leads to itself.
pub proof fn law_tabs_lead_to_themselves(
    index: usize,
    instance: InstanceView,
    snapshot: SnapshotView,
    keys: Seq<Seq<char>>,
    i: int,
    t: int,
)
    requires
        instance.snapshot == Some(snapshot),
        0 <= i < snapshot.workspaces.len(),
        0 <= t < own_tabs(snapshot, snapshot.workspaces[i]).len(),
    ensures
        ({
            let row = instance_rows(index, instance, keys)[i];
            let workspace = snapshot.workspaces[i];
            let tabs = own_tabs(snapshot, workspace);
            &&& exists|k: int|
                {
                    &&& 0 <= k < snapshot.tabs.len()
                    &&& (#[trigger] snapshot.tabs[k]).workspace_id == workspace.workspace_id
                    &&& snapshot.tabs[k].number == tabs[t].number
                    &&& row.tab_routes[t] == Some(
                        HitView::Tab { index, tab_id: snapshot.tabs[k].tab_id },
                    )
                    &&& forall|j: int|
                        0 <= j < k ==> (#[trigger] snapshot.tabs[j]).workspace_id
                            != workspace.workspace_id || snapshot.tabs[j].number != tabs[t].number
                }
            &&& (forall|a: int, b: int|
                0 <= a < b < tabs.len() ==> (#[trigger] tabs[a]).number != (
                #[trigger] tabs[b]).number) ==> row.tab_routes[t] == Some(
                HitView::Tab { index, tab_id: tabs[t].tab_id },
            )
        }),
{
    let row = instance_rows(index, instance, keys)[i];
    let workspace = snapshot.workspaces[i];
    let id = workspace.workspace_id;
    lemma_tabs_of(snapshot.tabs, id);
    lemma_own_tabs(snapshot.tabs, id);
    let tabs = tabs_of(snapshot.tabs, id);
    assert(tabs == own_tabs(snapshot, workspace));
    let number = tabs[t].number;
    lemma_numbered_tab(snapshot.tabs, id, number);
    let own = choose|k: int| 0 <= k < snapshot.tabs.len() && snapshot.tabs[k] == tabs[t];
    assert(snapshot.tabs[own].workspace_id == id && snapshot.tabs[own].number == number);
    assert(numbered_tab(snapshot.tabs, id, number) is Some);
    let found = numbered_tab(snapshot.tabs, id, number)->0;
    assert(row.tab_routes[t] == Some(HitView::Tab { index, tab_id: found.tab_id }));
    let k = choose|k: int|
        {
            &&& 0 <= k < snapshot.tabs.len()
            &&& #[trigger] snapshot.tabs[k] == found
            &&& found.workspace_id == id
            &&& found.number == number
            &&& forall|j: int|
                0 <= j < k ==> (#[trigger] snapshot.tabs[j]).workspace_id != id
                    || snapshot.tabs[j].number != number
        };
    assert(snapshot.tabs[k] == found);
    if forall|a: int, b: int|
        0 <= a < b < tabs.len() ==> (#[trigger] tabs[a]).number != (#[trigger] tabs[b]).number {
        lemma_tab_is_listed(snapshot.tabs, id, k);
        let place = choose|p: int| 0 <= p < tabs.len() && tabs[p] == found;
        if place < t {
            assert(tabs[place].number != tabs[t].number);
        } else if place > t {
            assert(tabs[t].number != tabs[place].number);
        }
    }
}

proof fn lemma_tab_is_listed(tabs: Seq<TabInfoView>, workspace_id: Seq<char>, k: int)
    requires
        0 <= k < tabs.len(),
        tabs[k].workspace_id == workspace_id,
    ensures
        tabs_of(tabs, workspace_id).contains(tabs[k]),
    decreases tabs.len(),
{
    let front = tabs.drop_last();
    let rest = tabs_of(front, workspace_id);
    let all = tabs_of(tabs, workspace_id);
    if k < front.len() {
        lemma_tab_is_listed(front, workspace_id, k);
        let p = choose|p: int| 0 <= p < rest.len() && rest[p] == front[k];
        assert(all[p] == tabs[k]);
    } else {
        assert(all[rest.len() as int] == tabs[k]);
    }
}

/// A tab of a row has the panes that the instance reports for it, in order, each
/// under the identity of its key. A pane counts as seen unless what runs in it is
/// done, and the pane that has the focus is the last one that is said to.
pub proof fn law_tabs_list_their_panes(
    index: usize,
    instance: InstanceView,
    snapshot: SnapshotView,
    keys: Seq<Seq<char>>,
    i: int,
    t: int,
    p: int,
    agent: Option<AgentInfoView>,
)
    requires
        instance.snapshot == Some(snapshot),
        0 <= i < snapshot.workspaces.len(),
        0 <= t < own_tabs(snapshot, snapshot.workspaces[i]).len(),
        0 <= p < own_panes(snapshot, own_tabs(snapshot, snapshot.workspaces[i])[t]).len(),
        own_panes(snapshot, own_tabs(snapshot, snapshot.workspaces[i])[t]).len() <= usize::MAX,
        is_agent_of(
            snapshot,
            own_panes(snapshot, own_tabs(snapshot, snapshot.workspaces[i])[t])[p],
            agent,
        ),
    ensures
        ({
            let listed = instance_rows(index, instance, keys)[i].workspace.tabs[t];
            let panes = own_panes(snapshot, own_tabs(snapshot, snapshot.workspaces[i])[t]);
            let pane = panes[p];
            let number = key_number(keys, instance.id + "\0"@ + pane.pane_id) as usize;
            let has_focus = |pane: PaneInfoView|
                pane.focused || snapshot.focused_pane_id == Some(pane.pane_id);
            &&& listed.panes.len() == panes.len()
            &&& listed.panes[p].terminal_id.number == number
            &&& listed.panes[p].pane_id.number == number
            &&& listed.panes[p].seen <==> !(reported_status(pane, agent) is Done)
            &&& listed.focused_pane matches Some(focused) ==> focused < panes.len() && has_focus(
                panes[focused as int],
            ) && (focused < p ==> !has_focus(pane))
            &&& listed.focused_pane is None ==> !has_focus(pane)
        }),
{
    let workspace = snapshot.workspaces[i];
    lemma_tabs_of(snapshot.tabs, workspace.workspace_id);
    let tabs = tabs_of(snapshot.tabs, workspace.workspace_id);
    assert(tabs == own_tabs(snapshot, workspace));
    lemma_panes_of(snapshot.panes, tabs[t].tab_id);
    let panes = panes_of(snapshot.panes, tabs[t].tab_id);
    assert(panes == own_panes(snapshot, tabs[t]));
    lemma_agent(snapshot, panes[p], agent);
    lemma_focused_pane(snapshot, panes);
    crate::snapshot::law_statuses_are_shown_by_name(reported_status(panes[p], agent));
}

/// The terminal of a pane, as the sidebar is to know it: in the directory of its
/// foreground process, or else its own, or else the root; in the state that is
/// reported of it; and with what its agent says before what the pane says.
pub open spec fn expected_terminal(
    instance_id: Seq<char>,
    keys: Seq<Seq<char>>,
    pane: PaneInfoView,
    agent: Option<AgentInfoView>,
) -> SidebarTerminalView {
    SidebarTerminalView {
        id: TerminalId { number: key_number(keys, instance_id + "\0"@ + pane.pane_id) as usize },
        cwd: if pane.foreground_cwd is Some {
            pane.foreground_cwd->0
        } else if pane.cwd is Some {
            pane.cwd->0
        } else {
            "/"@
        },
        state: Some(native_state(reported_status(pane, agent)).0),
        report: Some(
            PaneReportView {
                detect_from: if pane.agent is Some {
                    pane.agent
                } else {
                    pane.display_agent
                },
                state_change_seq: if agent is Some {
                    Some(agent->0.state_change_seq)
                } else {
                    None
                },
                agent_name: if agent is Some {
                    agent->0.name
                } else {
                    None
                },
                agent_label: pane.agent,
                title: if agent is Some && agent->0.title is Some {
                    agent->0.title
                } else {
                    pane.title
                },
                display_agent: if agent is Some && agent->0.display_agent is Some {
                    agent->0.display_agent
                } else {
                    pane.display_agent
                },
                state_labels: if agent is Some {
                    agent->0.state_labels
                } else {
                    pane.state_labels
                },
                seq: if agent is Some {
                    agent->0.revision
                } else {
                    pane.revision
                },
                manual_label: pane.label,
                terminal_title: pane.terminal_title,
                tokens: pane.tokens,
            },
        ),
    }
}

/// How many panes the first tabs have.
pub open spec fn panes_before(snapshot: SnapshotView, tabs: Seq<TabInfoView>, t: int) -> nat
    decreases t,
{
    if t <= 0 || t > tabs.len() {
        0
    } else {
        panes_before(snapshot, tabs, t - 1) + own_panes(snapshot, tabs[t - 1]).len()
    }
}

proof fn lemma_panes_before_prefix(
    snapshot: SnapshotView,
    tabs: Seq<TabInfoView>,
    front: Seq<TabInfoView>,
    t: int,
)
    requires
        0 <= t <= front.len() <= tabs.len(),
        forall|i: int| 0 <= i < front.len() ==> #[trigger] front[i] == tabs[i],
    ensures
        panes_before(snapshot, tabs, t) == panes_before(snapshot, front, t),
    decreases t,
{
    if t > 0 {
        lemma_panes_before_prefix(snapshot, tabs, front, t - 1);
        assert(front[t - 1] == tabs[t - 1]);
    }
}

proof fn lemma_tabs_are_joined(
    index: usize,
    instance_id: Seq<char>,
    snapshot: SnapshotView,
    tabs: Seq<TabInfoView>,
    keys: Seq<Seq<char>>,
    t: int,
    p: int,
)
    requires
        0 <= t < tabs.len(),
        0 <= p < panes_of(snapshot.panes, tabs[t].tab_id).len(),
    ensures
        ({
            let place = panes_before(snapshot, tabs, t) + p;
            let terminals = tabs_terminals(instance_id, snapshot, tabs, keys);
            let routes = tabs_pane_routes(index, instance_id, snapshot, tabs, keys);
            &&& terminals.len() == panes_before(snapshot, tabs, tabs.len() as int)
            &&& routes.len() == panes_before(snapshot, tabs, tabs.len() as int)
            &&& 0 <= place < terminals.len()
            &&& terminals[place] == tab_terminals(instance_id, snapshot, tabs[t], keys)[p]
            &&& routes[place] == tab_pane_routes(index, instance_id, snapshot, tabs[t], keys)[p]
        }),
    decreases tabs.len(),
{
    let front = tabs.drop_last();
    let last = tabs.len() - 1;
    lemma_panes_before_prefix(snapshot, tabs, front, last);
    lemma_joined_len(index, instance_id, snapshot, front, keys);
    lemma_panes_of(snapshot.panes, tabs[last].tab_id);
    if t < last {
        lemma_panes_before_prefix(snapshot, tabs, front, t);
        lemma_tabs_are_joined(index, instance_id, snapshot, front, keys, t, p);
        assert(front[t] == tabs[t]);
    }
}

proof fn lemma_joined_len(
    index: usize,
    instance_id: Seq<char>,
    snapshot: SnapshotView,
    tabs: Seq<TabInfoView>,
    keys: Seq<Seq<char>>,
)
    ensures
        tabs_terminals(instance_id, snapshot, tabs, keys).len() == panes_before(
            snapshot,
            tabs,
            tabs.len() as int,
        ),
        tabs_pane_routes(index, instance_id, snapshot, tabs, keys).len() == panes_before(
            snapshot,
            tabs,
            tabs.len() as int,
        ),
    decreases tabs.len(),
{
    if tabs.len() > 0 {
        let front = tabs.drop_last();
        lemma_joined_len(index, instance_id, snapshot, front, keys);
        lemma_panes_before_prefix(snapshot, tabs, front, front.len() as int);
        lemma_panes_of(snapshot.panes, tabs.last().tab_id);
    }
}

/// A row knows the terminal of each of its panes, and nothing else: tab by tab,
/// and pane by pane in each. Each pane leads to the pane of the instance that it
/// stands for.
pub proof fn law_panes_have_their_terminals_and_routes(
    index: usize,
    instance: InstanceView,
    snapshot: SnapshotView,
    keys: Seq<Seq<char>>,
    i: int,
    t: int,
    p: int,
    agent: Option<AgentInfoView>,
)
    requires
        instance.snapshot == Some(snapshot),
        0 <= i < snapshot.workspaces.len(),
        0 <= t < own_tabs(snapshot, snapshot.workspaces[i]).len(),
        0 <= p < own_panes(snapshot, own_tabs(snapshot, snapshot.workspaces[i])[t]).len(),
        is_agent_of(
            snapshot,
            own_panes(snapshot, own_tabs(snapshot, snapshot.workspaces[i])[t])[p],
            agent,
        ),
    ensures
        ({
            let row = instance_rows(index, instance, keys)[i];
            let tabs = own_tabs(snapshot, snapshot.workspaces[i]);
            let pane = own_panes(snapshot, tabs[t])[p];
            let place = panes_before(snapshot, tabs, t) + p;
            let number = key_number(keys, instance.id + "\0"@ + pane.pane_id) as usize;
            &&& row.terminals.len() == panes_before(snapshot, tabs, tabs.len() as int)
            &&& row.pane_routes.len() == panes_before(snapshot, tabs, tabs.len() as int)
            &&& row.terminals[place] == expected_terminal(instance.id, keys, pane, agent)
            &&& row.pane_routes[place].pane.number == number
            &&& row.pane_routes[place].target == HitView::Pane { index, pane_id: pane.pane_id }
        }),
{
    let workspace = snapshot.workspaces[i];
    lemma_tabs_of(snapshot.tabs, workspace.workspace_id);
    let tabs = tabs_of(snapshot.tabs, workspace.workspace_id);
    assert(tabs == own_tabs(snapshot, workspace));
    lemma_panes_of(snapshot.panes, tabs[t].tab_id);
    let panes = panes_of(snapshot.panes, tabs[t].tab_id);
    assert(panes == own_panes(snapshot, tabs[t]));
    lemma_agent(snapshot, panes[p], agent);
    lemma_tabs_are_joined(index, instance.id, snapshot, tabs, keys, t, p);
}

proof fn lemma_routes_of_panes(
    index: usize,
    instance_id: Seq<char>,
    snapshot: SnapshotView,
    tabs: Seq<TabInfoView>,
    keys: Seq<Seq<char>>,
)
    ensures
        forall|r: int|
            0 <= r < tabs_pane_routes(index, instance_id, snapshot, tabs, keys).len()
                ==> is_route_of_a_pane(
                index,
                instance_id,
                keys,
                snapshot,
                #[trigger] tabs_pane_routes(index, instance_id, snapshot, tabs, keys)[r],
            ),
    decreases tabs.len(),
{
    if tabs.len() > 0 {
        let front = tabs.drop_last();
        let rest = tabs_pane_routes(index, instance_id, snapshot, front, keys);
        let own = tab_pane_routes(index, instance_id, snapshot, tabs.last(), keys);
        let all = tabs_pane_routes(index, instance_id, snapshot, tabs, keys);
        lemma_routes_of_panes(index, instance_id, snapshot, front, keys);
        assert forall|r: int| 0 <= r < all.len() implies is_route_of_a_pane(
            index,
            instance_id,
            keys,
            snapshot,
            #[trigger] all[r],
        ) by {
            if r < rest.len() {
                assert(all[r] == rest[r]);
            } else {
                let k = r - rest.len();
                assert(all[r] == own[k]);
                let panes = panes_of(snapshot.panes, tabs.last().tab_id);
                lemma_listed_panes_are_reported(snapshot.panes, tabs.last().tab_id, k);
                let place = choose|place: int|
                    0 <= place < snapshot.panes.len() && snapshot.panes[place] == panes[k];
                assert(snapshot.panes[place].pane_id == panes[k].pane_id);
            }
        }
    }
}

proof fn lemma_listed_panes_are_reported(panes: Seq<PaneInfoView>, tab_id: Seq<char>, k: int)
    requires
        0 <= k < panes_of(panes, tab_id).len(),
    ensures
        panes.contains(panes_of(panes, tab_id)[k]),
    decreases panes.len(),
{
    let front = panes.drop_last();
    let rest = panes_of(front, tab_id);
    if k < rest.len() {
        lemma_listed_panes_are_reported(front, tab_id, k);
        let i = choose|i: int| 0 <= i < front.len() && front[i] == rest[k];
        assert(panes[i] == rest[k]);
    } else {
        assert(panes[panes.len() - 1] == panes_of(panes, tab_id)[k]);
    }
}

/// Whether a route is that of a pane which a snapshot reports.
spec fn is_route_of_a_pane(
    index: usize,
    instance_id: Seq<char>,
    keys: Seq<Seq<char>>,
    snapshot: SnapshotView,
    route: PaneRouteView,
) -> bool {
    exists|k: int|
        {
            &&& 0 <= k < snapshot.panes.len()
            &&& route.pane.number == key_number(
                keys,
                instance_id + "\0"@ + (#[trigger] snapshot.panes[k]).pane_id,
            ) as usize
            &&& route.target == HitView::Pane { index, pane_id: snapshot.panes[k].pane_id }
        }
}

proof fn lemma_last_pane_route_found(routes: Seq<PaneRouteView>, place: int)
    requires
        0 <= place < routes.len(),
    ensures
        exists|r: int|
            {
                &&& place <= r < routes.len()
                &&& (#[trigger] routes[r]).pane == routes[place].pane
                &&& last_pane_route(routes, routes[place].pane) == Some(routes[r].target)
            },
    decreases routes.len(),
{
    let front = routes.drop_last();
    if routes.last().pane == routes[place].pane {
        assert(routes[routes.len() - 1].pane == routes[place].pane);
    } else {
        lemma_last_pane_route_found(front, place);
        let r = choose|r: int|
            {
                &&& place <= r < front.len()
                &&& (#[trigger] front[r]).pane == front[place].pane
                &&& last_pane_route(front, front[place].pane) == Some(front[r].target)
            };
        assert(routes[r] == front[r]);
    }
}

/// Each pane of a row leads to the pane that it stands for, whichever other panes
/// the row has: no two of them are taken for one another. The keys have to hold
/// those of all panes, as they do once the sidebar is up to date.
pub proof fn law_panes_lead_to_themselves(
    index: usize,
    instance: InstanceView,
    snapshot: SnapshotView,
    keys: Seq<Seq<char>>,
    i: int,
    t: int,
    p: int,
)
    requires
        instance.snapshot == Some(snapshot),
        0 <= i < snapshot.workspaces.len(),
        0 <= t < own_tabs(snapshot, snapshot.workspaces[i]).len(),
        0 <= p < own_panes(snapshot, own_tabs(snapshot, snapshot.workspaces[i])[t]).len(),
        keys.len() <= usize::MAX,
        forall|k: int|
            0 <= k < snapshot.panes.len() ==> keys.contains(
                instance.id + "\0"@ + (#[trigger] snapshot.panes[k]).pane_id,
            ),
    ensures
        ({
            let row = instance_rows(index, instance, keys)[i];
            let pane = own_panes(snapshot, own_tabs(snapshot, snapshot.workspaces[i])[t])[p];
            last_pane_route(row.pane_routes, row.workspace.tabs[t].panes[p].pane_id) == Some(
                HitView::Pane { index, pane_id: pane.pane_id },
            )
        }),
{
    let row = instance_rows(index, instance, keys)[i];
    let workspace = snapshot.workspaces[i];
    lemma_tabs_of(snapshot.tabs, workspace.workspace_id);
    let tabs = tabs_of(snapshot.tabs, workspace.workspace_id);
    assert(tabs == own_tabs(snapshot, workspace));
    lemma_panes_of(snapshot.panes, tabs[t].tab_id);
    let panes = panes_of(snapshot.panes, tabs[t].tab_id);
    assert(panes == own_panes(snapshot, tabs[t]));
    let pane = panes[p];
    lemma_tabs_are_joined(index, instance.id, snapshot, tabs, keys, t, p);
    let routes = tabs_pane_routes(index, instance.id, snapshot, tabs, keys);
    assert(row.pane_routes == routes);
    let place = panes_before(snapshot, tabs, t) + p;
    assert(routes[place].pane == row.workspace.tabs[t].panes[p].pane_id);
    lemma_last_pane_route_found(routes, place);
    let r = choose|r: int|
        {
            &&& place <= r < routes.len()
            &&& (#[trigger] routes[r]).pane == routes[place].pane
            &&& last_pane_route(routes, routes[place].pane) == Some(routes[r].target)
        };
    lemma_routes_of_panes(index, instance.id, snapshot, tabs, keys);
    assert(is_route_of_a_pane(index, instance.id, keys, snapshot, routes[r]));
    let k = choose|k: int|
        {
            &&& 0 <= k < snapshot.panes.len()
            &&& routes[r].pane.number == key_number(
                keys,
                instance.id + "\0"@ + (#[trigger] snapshot.panes[k]).pane_id,
            ) as usize
            &&& routes[r].target == HitView::Pane { index, pane_id: snapshot.panes[k].pane_id }
        };
    let other = snapshot.panes[k];
    lemma_listed_panes_are_reported(snapshot.panes, tabs[t].tab_id, p);
    let own = choose|own: int| 0 <= own < snapshot.panes.len() && snapshot.panes[own] == pane;
    assert(keys.contains(instance.id + "\0"@ + snapshot.panes[own].pane_id));
    let a = instance.id + "\0"@ + pane.pane_id;
    let b = instance.id + "\0"@ + other.pane_id;
    assert(keys.contains(a) && keys.contains(b));
    crate::projection::lemma_key_number_found(keys, a);
    crate::projection::lemma_key_number_found(keys, b);
    law_key_numbers_are_distinct(keys, a, b);
    let start = (instance.id + "\0"@).len() as int;
    assert(a.skip(start) =~= pane.pane_id);
    assert(b.skip(start) =~= other.pane_id);
}

proof fn lemma_workspace_keys(
    instance_id: Seq<char>,
    snapshot: SnapshotView,
    tabs: Seq<TabInfoView>,
    t: int,
    p: int,
)
    requires
        0 <= t < tabs.len(),
        0 <= p < panes_of(snapshot.panes, tabs[t].tab_id).len(),
    ensures
        tabs_keys(instance_id, snapshot, tabs).contains(
            pane_key(instance_id, panes_of(snapshot.panes, tabs[t].tab_id)[p].pane_id),
        ),
    decreases tabs.len(),
{
    let front = tabs.drop_last();
    let rest = tabs_keys(instance_id, snapshot, front);
    let all = tabs_keys(instance_id, snapshot, tabs);
    let key = pane_key(instance_id, panes_of(snapshot.panes, tabs[t].tab_id)[p].pane_id);
    if t < front.len() {
        assert(front[t] == tabs[t]);
        lemma_workspace_keys(instance_id, snapshot, front, t, p);
        let k = choose|k: int| 0 <= k < rest.len() && rest[k] == key;
        assert(all[k] == key);
    } else {
        assert(all[rest.len() + p] == key);
    }
}

proof fn lemma_workspaces_keys(
    instance_id: Seq<char>,
    snapshot: SnapshotView,
    workspaces: Seq<WorkspaceInfoView>,
    i: int,
    key: Seq<char>,
)
    requires
        0 <= i < workspaces.len(),
        workspace_keys(instance_id, snapshot, workspaces[i]).contains(key),
    ensures
        workspaces_keys(instance_id, snapshot, workspaces).contains(key),
    decreases workspaces.len(),
{
    let front = workspaces.drop_last();
    let rest = workspaces_keys(instance_id, snapshot, front);
    let own = workspace_keys(instance_id, snapshot, workspaces.last());
    let all = workspaces_keys(instance_id, snapshot, workspaces);
    if i < front.len() {
        assert(front[i] == workspaces[i]);
        lemma_workspaces_keys(instance_id, snapshot, front, i, key);
        let k = choose|k: int| 0 <= k < rest.len() && rest[k] == key;
        assert(all[k] == key);
    } else {
        let k = choose|k: int| 0 <= k < own.len() && own[k] == key;
        assert(all[rest.len() + k] == key);
    }
}

proof fn lemma_sidebar_keys(instances: Seq<InstanceView>, i: int, key: Seq<char>)
    requires
        0 <= i < instances.len(),
        instance_keys(instances[i]).contains(key),
    ensures
        sidebar_keys(instances).contains(key),
    decreases instances.len(),
{
    let front = instances.drop_last();
    let rest = sidebar_keys(front);
    let own = instance_keys(instances.last());
    let all = sidebar_keys(instances);
    if i < front.len() {
        assert(front[i] == instances[i]);
        lemma_sidebar_keys(front, i, key);
        let k = choose|k: int| 0 <= k < rest.len() && rest[k] == key;
        assert(all[k] == key);
    } else {
        let k = choose|k: int| 0 <= k < own.len() && own[k] == key;
        assert(all[rest.len() + k] == key);
    }
}

/// Every pane that the sidebar lists has a key of its own, which tells it from
/// every other pane of the fleet: once the keys have been asked for, they hold
/// it. The same goes for what stands in for a workspace without tabs or an
/// instance without workspaces.
pub proof fn law_listed_panes_have_keys(
    known: Seq<Seq<char>>,
    instances: Seq<InstanceView>,
    index: int,
    i: int,
    t: int,
    p: int,
)
    requires
        0 <= index < instances.len(),
    ensures
        ({
            let keys = crate::projection::with_keys(known, sidebar_keys(instances));
            let instance = instances[index];
            match instance.snapshot {
                Some(snapshot) => {
                    &&& snapshot.workspaces.len() == 0 ==> keys.contains(
                        instance.id + "\0empty"@,
                    )
                    &&& 0 <= i < snapshot.workspaces.len() ==> {
                        let workspace = snapshot.workspaces[i];
                        let tabs = own_tabs(snapshot, workspace);
                        &&& tabs.len() == 0 ==> keys.contains(
                            instance.id + "\0"@ + workspace.workspace_id + "\0empty"@,
                        )
                        &&& 0 <= t < tabs.len() && 0 <= p < own_panes(snapshot, tabs[t]).len()
                            ==> keys.contains(
                            instance.id + "\0"@ + own_panes(snapshot, tabs[t])[p].pane_id,
                        )
                    }
                },
                None => keys.contains(instance.id + "\0empty"@),
            }
        }),
{
    let instance = instances[index];
    let added = sidebar_keys(instances);
    match instance.snapshot {
        Some(snapshot) if 0 <= i < snapshot.workspaces.len() => {
            let workspace = snapshot.workspaces[i];
            lemma_tabs_of(snapshot.tabs, workspace.workspace_id);
            let tabs = tabs_of(snapshot.tabs, workspace.workspace_id);
            assert(tabs == own_tabs(snapshot, workspace));
            if tabs.len() == 0 {
                let key = empty_workspace_key(instance.id, workspace.workspace_id);
                assert(workspace_keys(instance.id, snapshot, workspace)[0] == key);
                lemma_workspaces_keys(instance.id, snapshot, snapshot.workspaces, i, key);
                lemma_sidebar_keys(instances, index, key);
                law_asked_keys_have_numbers(known, added, key);
            } else if 0 <= t < tabs.len() {
                lemma_panes_of(snapshot.panes, tabs[t].tab_id);
                let panes = panes_of(snapshot.panes, tabs[t].tab_id);
                assert(panes == own_panes(snapshot, tabs[t]));
                if 0 <= p < panes.len() {
                    let key = pane_key(instance.id, panes[p].pane_id);
                    lemma_workspace_keys(instance.id, snapshot, tabs, t, p);
                    lemma_workspaces_keys(instance.id, snapshot, snapshot.workspaces, i, key);
                    lemma_sidebar_keys(instances, index, key);
                    law_asked_keys_have_numbers(known, added, key);
                }
            }
        },
        _ => {},
    }
    if instance.snapshot is None || instance.snapshot->0.workspaces.len() == 0 {
        let key = empty_key(instance.id);
        assert(instance_keys(instance)[0] == key);
        lemma_sidebar_keys(instances, index, key);
        law_asked_keys_have_numbers(known, added, key);
    }
}

proof fn lemma_last_focused(rows: Seq<RowView>, instance: usize)
    requires
        rows.len() <= usize::MAX,
    ensures
        match last_focused_row(rows, instance) {
            Some(row) => {
                &&& row < rows.len()
                &&& rows[row as int].instance == instance && rows[row as int].focused
                &&& forall|i: int|
                    row < i < rows.len() ==> !((#[trigger] rows[i]).instance == instance
                        && rows[i].focused)
            },
            None => forall|i: int|
                0 <= i < rows.len() ==> !((#[trigger] rows[i]).instance == instance
                    && rows[i].focused),
        },
    decreases rows.len(),
{
    if rows.len() > 0 && !(rows.last().instance == instance && rows.last().focused) {
        let front = rows.drop_last();
        lemma_last_focused(front, instance);
        assert forall|i: int| 0 <= i < front.len() implies front[i] == #[trigger] rows[i] by {}
    }
}

proof fn lemma_first(rows: Seq<RowView>, instance: usize)
    requires
        rows.len() <= usize::MAX,
    ensures
        match first_row(rows, instance) {
            Some(row) => {
                &&& row < rows.len()
                &&& rows[row as int].instance == instance
                &&& forall|i: int| 0 <= i < row ==> (#[trigger] rows[i]).instance != instance
            },
            None => forall|i: int|
                0 <= i < rows.len() ==> (#[trigger] rows[i]).instance != instance,
        },
    decreases rows.len(),
{
    if rows.len() > 0 {
        let front = rows.drop_last();
        lemma_first(front, instance);
        assert forall|i: int| 0 <= i < front.len() implies front[i] == #[trigger] rows[i] by {}
    }
}

/// The active row is the last one in which the active instance has its focus;
/// where it has its focus in none, its first row; and where it has no row, the
/// first of all. It is the one selected.
pub proof fn law_active_row_has_the_focus(
    instances: Seq<InstanceView>,
    active: usize,
    keys: Seq<Seq<char>>,
    other: int,
)
    requires
        sidebar_rows(instances, keys).len() <= usize::MAX,
        0 <= other < sidebar_rows(instances, keys).len(),
    ensures
        ({
            let model = sidebar_model(instances, active, keys);
            let rows = model.rows;
            &&& rows == sidebar_rows(instances, keys)
            &&& model.active matches Some(row) && {
                &&& row < rows.len()
                &&& model.selected == row
                &&& rows[other].instance == active ==> rows[row as int].instance == active
                &&& rows[other].instance == active && rows[other].focused
                    ==> rows[row as int].focused && other <= row
                &&& rows[other].instance == active && !rows[row as int].focused ==> row <= other
                &&& rows[row as int].instance != active ==> row == 0
            }
        }),
{
    let rows = sidebar_rows(instances, keys);
    lemma_last_focused(rows, active);
    lemma_first(rows, active);
}

} // verus!
