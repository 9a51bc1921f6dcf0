//! What each action of the user brings about.

use vstd::prelude::*;
use vstd::string::*;

use crate::app_state::{AppStateView, IntegrationRecommendationView};
use crate::fleet_state::{FleetView, HostStateView};
use crate::messages::{
    ClientSidebarActionView, ConfigEditView, EffectView, MethodView, ToastDelivery,
};
use crate::projection::PaneId;
use crate::routes::HitView;
use crate::sidebar::PaneRouteView;
use crate::sidebar_actions::{
    action_dispatched, close_requested, installed, installing, labels_to_install, last_pane_route,
    outcome_messages, reload_requested, rename_requested, rename_started, requests_to,
    route_followed, starting_with, workspace_label, InstallOutcome,
};
use crate::snapshot::{SnapshotView, WorkspaceInfoView};

verus! {

/// Whether a target was followed from a row: its instance and the row are active,
/// the screen is painted again, the instance is asked to bring the target into
/// focus where it takes requests, and the host follows the instance in its modes,
/// its input source and its title. Nothing else differs.
pub open spec fn is_followed(
    before: FleetView,
    after: FleetView,
    ws_idx: usize,
    hit: HitView,
) -> bool {
    let index = match hit {
        HitView::Instance { index } => index,
        HitView::Workspace { index, .. } => index,
        HitView::Tab { index, .. } => index,
        HitView::Pane { index, .. } => index,
    };
    let instance = before.instances[index as int];
    let asked = match hit {
        HitView::Instance { .. } => None,
        HitView::Workspace { workspace_id, .. } => Some(
            MethodView::WorkspaceFocus { workspace_id },
        ),
        HitView::Tab { tab_id, .. } => Some(MethodView::TabFocus { tab_id }),
        HitView::Pane { pane_id, .. } => Some(MethodView::PaneFocus { pane_id }),
    };
    let followed = seq![
        EffectView::ApplyHostModes,
        if instance.prefix_input_active {
            EffectView::SwitchPrefixInput
        } else {
            EffectView::RestorePrefixInput
        },
        EffectView::WriteWindowTitle { title: instance.window_title },
    ];
    &&& after.active == index
    &&& after.effects == (if asked is Some && instance.accepts_requests {
        before.effects.push(EffectView::Request { index, id: "fleet-focus"@, method: asked->0 })
    } else {
        before.effects
    }) + followed
    &&& after == (FleetView {
        active: after.active,
        effects: after.effects,
        sidebar: AppStateView { active: Some(ws_idx), selected: ws_idx, ..before.sidebar },
        host: HostStateView { repaint_pending: true, ..before.host },
        ..before
    })
}

/// Whether a target belongs to an instance that there is.
pub open spec fn is_in_fleet(state: FleetView, hit: HitView) -> bool {
    match hit {
        HitView::Instance { index } => index < state.instances.len(),
        HitView::Workspace { index, .. } => index < state.instances.len(),
        HitView::Tab { index, .. } => index < state.instances.len(),
        HitView::Pane { index, .. } => index < state.instances.len(),
    }
}

proof fn lemma_followed(state: FleetView, ws_idx: usize, hit: HitView)
    requires
        is_in_fleet(state, hit),
    ensures
        is_followed(state, route_followed(state, ws_idx, Some(hit)), ws_idx, hit),
{
    reveal(route_followed);
    let after = route_followed(state, ws_idx, Some(hit));
    let index = after.active;
    let instance = state.instances[index as int];
    let followed = seq![
        EffectView::ApplyHostModes,
        if instance.prefix_input_active {
            EffectView::SwitchPrefixInput
        } else {
            EffectView::RestorePrefixInput
        },
        EffectView::WriteWindowTitle { title: instance.window_title },
    ];
    if after.effects.len() == state.effects.len() + 4 {
        assert(after.effects =~= state.effects.push(after.effects[state.effects.len() as int])
            + followed);
    } else {
        assert(after.effects =~= state.effects + followed);
    }
}

/// Choosing a row leads to where the row leads.
pub proof fn law_chosen_rows_are_followed(state: FleetView, ws_idx: usize)
    requires
        ws_idx < state.sidebar.rows.len(),
        is_in_fleet(state, state.sidebar.rows[ws_idx as int].route),
    ensures
        is_followed(
            state,
            action_dispatched(state, ClientSidebarActionView::FocusWorkspace { ws_idx }),
            ws_idx,
            state.sidebar.rows[ws_idx as int].route,
        ),
{
    reveal(action_dispatched);
    lemma_followed(state, ws_idx, state.sidebar.rows[ws_idx as int].route);
}

/// Choosing a tab of a row leads to where the tab leads. A tab that leads nowhere,
/// or is not there, changes nothing.
pub proof fn law_chosen_tabs_are_followed(state: FleetView, ws_idx: usize, tab_idx: usize)
    requires
        ws_idx < state.sidebar.rows.len(),
    ensures
        ({
            let routes = state.sidebar.rows[ws_idx as int].tab_routes;
            let after = action_dispatched(
                state,
                ClientSidebarActionView::FocusTab { ws_idx, tab_idx },
            );
            &&& tab_idx >= routes.len() ==> after == state
            &&& tab_idx < routes.len() ==> match routes[tab_idx as int] {
                Some(hit) => is_in_fleet(state, hit) ==> is_followed(state, after, ws_idx, hit),
                None => after == state,
            }
        }),
{
    reveal(action_dispatched);
    reveal(route_followed);
    let routes = state.sidebar.rows[ws_idx as int].tab_routes;
    if tab_idx < routes.len() {
        if let Some(hit) = routes[tab_idx as int] {
            if is_in_fleet(state, hit) {
                lemma_followed(state, ws_idx, hit);
            }
        }
    }
}

proof fn lemma_last_route(routes: Seq<PaneRouteView>, pane: PaneId, place: int)
    requires
        -1 <= place < routes.len(),
        place >= 0 ==> routes[place].pane == pane,
        forall|i: int| place < i < routes.len() ==> (#[trigger] routes[i]).pane != pane,
    ensures
        last_pane_route(routes, pane) == if place >= 0 {
            Some(routes[place].target)
        } else {
            None
        },
    decreases routes.len(),
{
    if routes.len() > 0 && place < routes.len() - 1 {
        let front = routes.drop_last();
        assert(routes[routes.len() - 1].pane != pane);
        assert forall|i: int| place < i < front.len() implies (#[trigger] front[i]).pane
            != pane by {
            assert(front[i] == routes[i]);
        }
        lemma_last_route(front, pane, place);
    }
}

/// Choosing a pane of a row leads to where the pane leads: the last route that is
/// listed for it counts. A pane that is not listed leads to where its row does.
pub proof fn law_chosen_panes_are_followed(
    state: FleetView,
    ws_idx: usize,
    pane_id: PaneId,
    place: int,
)
    requires
        ws_idx < state.sidebar.rows.len(),
        ({
            let routes = state.sidebar.rows[ws_idx as int].pane_routes;
            &&& -1 <= place < routes.len()
            &&& place >= 0 ==> routes[place].pane == pane_id
            &&& forall|i: int| place < i < routes.len() ==> (#[trigger] routes[i]).pane != pane_id
        }),
        is_in_fleet(
            state,
            if place >= 0 {
                state.sidebar.rows[ws_idx as int].pane_routes[place].target
            } else {
                state.sidebar.rows[ws_idx as int].route
            },
        ),
    ensures
        is_followed(
            state,
            action_dispatched(state, ClientSidebarActionView::FocusPane { ws_idx, pane_id }),
            ws_idx,
            if place >= 0 {
                state.sidebar.rows[ws_idx as int].pane_routes[place].target
            } else {
                state.sidebar.rows[ws_idx as int].route
            },
        ),
{
    reveal(action_dispatched);
    let row = state.sidebar.rows[ws_idx as int];
    lemma_last_route(row.pane_routes, pane_id, place);
    lemma_followed(
        state,
        ws_idx,
        if place >= 0 {
            row.pane_routes[place].target
        } else {
            row.route
        },
    );
}

proof fn lemma_workspace_label(workspaces: Seq<WorkspaceInfoView>, id: Seq<char>, place: int)
    requires
        0 <= place <= workspaces.len(),
        place < workspaces.len() ==> workspaces[place].workspace_id == id,
        forall|i: int| 0 <= i < place ==> (#[trigger] workspaces[i]).workspace_id != id,
    ensures
        workspace_label(workspaces, id) == if place < workspaces.len() {
            Some(workspaces[place].label)
        } else {
            None
        },
    decreases workspaces.len(),
{
    if place > 0 {
        let rest = workspaces.skip(1);
        assert(workspaces[0].workspace_id != id);
        assert forall|i: int| 0 <= i < place - 1 implies (#[trigger] rest[i]).workspace_id
            != id by {
            assert(rest[i] == workspaces[i + 1]);
        }
        lemma_workspace_label(rest, id, place - 1);
    }
}

/// Starting to rename a row offers the label of its workspace, as its instance
/// reports it, for editing. Nothing else differs.
pub proof fn law_renaming_starts_from_the_label(
    state: FleetView,
    ws_idx: usize,
    snapshot: SnapshotView,
    index: usize,
    place: int,
)
    requires
        ws_idx < state.sidebar.rows.len(),
        index < state.instances.len(),
        state.instances[index as int].snapshot == Some(snapshot),
        0 <= place < snapshot.workspaces.len(),
        state.sidebar.rows[ws_idx as int].route == (HitView::Workspace {
            index,
            workspace_id: snapshot.workspaces[place].workspace_id,
        }),
        forall|i: int|
            0 <= i < place ==> (#[trigger] snapshot.workspaces[i]).workspace_id
                != snapshot.workspaces[place].workspace_id,
    ensures
        action_dispatched(state, ClientSidebarActionView::RenameStarted { ws_idx }) == (FleetView {
            sidebar: AppStateView {
                name_input: snapshot.workspaces[place].label,
                ..state.sidebar
            },
            ..state
        }),
{
    reveal(action_dispatched);
    reveal(rename_started);
    lemma_workspace_label(
        snapshot.workspaces,
        snapshot.workspaces[place].workspace_id,
        place,
    );
}

/// Renaming or closing the workspace of a row asks its instance for it, where it
/// takes requests. Nothing else differs.
pub proof fn law_workspaces_are_renamed_and_closed(
    state: FleetView,
    ws_idx: usize,
    index: usize,
    workspace_id: Seq<char>,
    label: Seq<char>,
)
    requires
        ws_idx < state.sidebar.rows.len(),
        index < state.instances.len(),
        state.sidebar.rows[ws_idx as int].route == (HitView::Workspace { index, workspace_id }),
    ensures
        ({
            let renaming = action_dispatched(
                state,
                ClientSidebarActionView::RenameWorkspace { ws_idx, label },
            );
            let closing = action_dispatched(
                state,
                ClientSidebarActionView::CloseWorkspace { ws_idx },
            );
            if state.instances[index as int].accepts_requests {
                &&& renaming == (FleetView {
                    effects: state.effects.push(
                        EffectView::Request {
                            index,
                            id: "fleet-workspace-rename"@,
                            method: MethodView::WorkspaceRename { workspace_id, label },
                        },
                    ),
                    ..state
                })
                &&& closing == (FleetView {
                    effects: state.effects.push(
                        EffectView::Request {
                            index,
                            id: "fleet-workspace-close"@,
                            method: MethodView::WorkspaceClose { workspace_id },
                        },
                    ),
                    ..state
                })
            } else {
                &&& renaming == state
                &&& closing == state
            }
        }),
{
    reveal(action_dispatched);
    reveal(rename_requested);
    reveal(close_requested);
    let renaming = action_dispatched(
        state,
        ClientSidebarActionView::RenameWorkspace { ws_idx, label },
    );
    let closing = action_dispatched(state, ClientSidebarActionView::CloseWorkspace { ws_idx });
    if state.instances[index as int].accepts_requests {
        assert(renaming.effects =~= state.effects.push(renaming.effects.last()));
        assert(closing.effects =~= state.effects.push(closing.effects.last()));
    } else {
        assert(renaming.effects =~= state.effects);
        assert(closing.effects =~= state.effects);
    }
}

/// A row that does not lead to a workspace has nothing to rename or close.
pub proof fn law_other_rows_are_not_renamed(
    state: FleetView,
    ws_idx: usize,
    label: Seq<char>,
)
    requires
        ws_idx < state.sidebar.rows.len(),
        !(state.sidebar.rows[ws_idx as int].route is Workspace),
    ensures
        action_dispatched(state, ClientSidebarActionView::RenameStarted { ws_idx }) == state,
        action_dispatched(state, ClientSidebarActionView::RenameWorkspace { ws_idx, label })
            == state,
        action_dispatched(state, ClientSidebarActionView::CloseWorkspace { ws_idx }) == state,
{
    reveal(action_dispatched);
    reveal(rename_started);
    reveal(rename_requested);
    reveal(close_requested);
}

/// A fresh workspace is asked of the active instance, where it takes requests: to
/// be brought into focus, with nothing else said of it.
pub proof fn law_fresh_workspaces_are_the_active_instances(state: FleetView)
    requires
        state.active < state.instances.len(),
    ensures
        action_dispatched(state, ClientSidebarActionView::NewWorkspace) == (FleetView {
            effects: if state.instances[state.active as int].accepts_requests {
                state.effects.push(
                    EffectView::Request {
                        index: state.active,
                        id: "fleet-workspace-create"@,
                        method: MethodView::WorkspaceCreate {
                            cwd: None,
                            focus: true,
                            label: None,
                            env: Map::empty(),
                        },
                    },
                )
            } else {
                state.effects
            },
            ..state
        }),
{
    reveal(action_dispatched);
    let after = action_dispatched(state, ClientSidebarActionView::NewWorkspace);
    if state.instances[state.active as int].accepts_requests {
        assert(after.effects =~= state.effects.push(after.effects.last()));
    } else {
        assert(after.effects =~= state.effects);
    }
}

/// Drawing again changes nothing, and detaching nothing but that the client is to
/// quit.
pub proof fn law_redrawing_and_detaching(state: FleetView)
    ensures
        action_dispatched(state, ClientSidebarActionView::Redraw) == state,
        action_dispatched(state, ClientSidebarActionView::Detach) == (FleetView {
            quit_requested: true,
            ..state
        }),
{
    reveal(action_dispatched);
}

proof fn lemma_requests_to(
    instances: Seq<crate::instance::InstanceView>,
    id: Seq<char>,
    method: MethodView,
)
    requires
        instances.len() <= usize::MAX,
    ensures
        forall|i: int|
            0 <= i < requests_to(instances, id, method).len() ==> ((#[trigger] requests_to(
                instances,
                id,
                method,
            )[i]) matches EffectView::Request { index, id: named, method: asked } && index
                < instances.len() && instances[index as int].accepts_requests && named == id
                && asked == method),
    decreases instances.len(),
{
    if instances.len() > 0 {
        let front = instances.drop_last();
        lemma_requests_to(front, id, method);
        let rest = requests_to(front, id, method);
        let all = requests_to(instances, id, method);
        assert forall|i: int| 0 <= i < all.len() implies ((#[trigger] all[i]) matches
            EffectView::Request { index, id: named, method: asked } && index < instances.len()
            && instances[index as int].accepts_requests && named == id && asked == method) by {
            if i < rest.len() {
                assert(all[i] == rest[i]);
            }
        }
    }
}

/// Reloading has the configuration read again here first. All that follows are
/// requests to the instances to do so too.
pub proof fn law_reloading_starts_here(state: FleetView, i: int)
    requires
        state.instances.len() <= usize::MAX,
    ensures
        ({
            let after = action_dispatched(state, ClientSidebarActionView::ReloadConfig);
            let start = state.effects.len() as int;
            &&& after == (FleetView { effects: after.effects, ..state })
            &&& after.effects.len() > start
            &&& after.effects.take(start) == state.effects
            &&& after.effects[start] == EffectView::ReloadVisualConfig
            &&& start < i < after.effects.len() ==> (after.effects[i] matches
                EffectView::Request { index, id, method } && index < state.instances.len()
                && state.instances[index as int].accepts_requests && id == "fleet-reload-config"@
                && method == MethodView::ServerReloadConfig)
        }),
{
    reveal(action_dispatched);
    reveal(reload_requested);
    let after = action_dispatched(state, ClientSidebarActionView::ReloadConfig);
    let start = state.effects.len() as int;
    let id = "fleet-reload-config"@;
    let method = MethodView::ServerReloadConfig;
    let asked = requests_to(state.instances, id, method);
    lemma_requests_to(state.instances, id, method);
    assert(after.effects.take(start) =~= state.effects);
    if start < i < after.effects.len() {
        assert(after.effects[i] == asked[i - start - 1]);
    }
}

/// Choosing a theme writes its name, in quotes, and switches off that themes
/// change by themselves.
pub proof fn law_chosen_theme_is_the_only_one(state: FleetView, name: Seq<char>)
    ensures
        action_dispatched(state, ClientSidebarActionView::SaveTheme { name }) == (FleetView {
            effects: state.effects.push(
                EffectView::UpdateConfigFile {
                    context: "theme"@,
                    edits: seq![
                        ConfigEditView::SetValue {
                            section: "theme"@,
                            key: "name"@,
                            value: "\""@ + name + "\""@,
                        },
                        ConfigEditView::SetBool {
                            section: "theme"@,
                            key: "auto_switch"@,
                            value: false,
                        },
                    ],
                },
            ),
            ..state
        }),
{
    reveal(action_dispatched);
}

/// Choosing a style for the status indicators writes it, in quotes.
pub proof fn law_chosen_indicators_are_saved(state: FleetView, style: Seq<char>)
    ensures
        action_dispatched(state, ClientSidebarActionView::SaveStatusIndicators { style }) == (
        FleetView {
            effects: state.effects.push(
                EffectView::UpdateConfigFile {
                    context: "status indicators"@,
                    edits: seq![
                        ConfigEditView::SetValue {
                            section: "ui"@,
                            key: "status_indicators"@,
                            value: "\""@ + style + "\""@,
                        },
                    ],
                },
            ),
            ..state
        }),
{
    reveal(action_dispatched);
}

/// Switching sound on or off writes just that.
pub proof fn law_chosen_sound_is_saved(state: FleetView, enabled: bool)
    ensures
        action_dispatched(state, ClientSidebarActionView::SaveSound { enabled }) == (FleetView {
            effects: state.effects.push(
                EffectView::UpdateConfigFile {
                    context: "sound setting"@,
                    edits: seq![
                        ConfigEditView::SetBool {
                            section: "ui.sound"@,
                            key: "enabled"@,
                            value: enabled,
                        },
                    ],
                },
            ),
            ..state
        }),
{
    reveal(action_dispatched);
}

/// Showing or hiding the labels on pane borders writes just that.
pub proof fn law_chosen_border_labels_are_saved(state: FleetView, enabled: bool)
    ensures
        action_dispatched(state, ClientSidebarActionView::SaveAgentBorderLabels { enabled }) == (
        FleetView {
            effects: state.effects.push(
                EffectView::UpdateConfigFile {
                    context: "agent border labels"@,
                    edits: seq![
                        ConfigEditView::SetBool {
                            section: "ui"@,
                            key: "show_agent_labels_on_pane_borders"@,
                            value: enabled,
                        },
                    ],
                },
            ),
            ..state
        }),
{
    reveal(action_dispatched);
}

/// Choosing the order of the agent panel writes it, in quotes.
pub proof fn law_chosen_order_is_saved(state: FleetView, sort: Seq<char>)
    ensures
        action_dispatched(state, ClientSidebarActionView::SaveAgentPanelSort { sort }) == (
        FleetView {
            effects: state.effects.push(
                EffectView::UpdateConfigFile {
                    context: "agent panel sort"@,
                    edits: seq![
                        ConfigEditView::SetValue {
                            section: "ui"@,
                            key: "agent_panel_sort"@,
                            value: "\""@ + sort + "\""@,
                        },
                    ],
                },
            ),
            ..state
        }),
{
    reveal(action_dispatched);
}

/// Choosing how notifications are delivered writes the word for it, in quotes, and
/// removes the switch that it replaces.
pub proof fn law_chosen_delivery_is_saved(state: FleetView, delivery: ToastDelivery)
    ensures
        action_dispatched(state, ClientSidebarActionView::SaveToastDelivery { delivery }) == (
        FleetView {
            effects: state.effects.push(
                EffectView::UpdateConfigFile {
                    context: "toast setting"@,
                    edits: seq![
                        ConfigEditView::SetValue {
                            section: "ui.toast"@,
                            key: "delivery"@,
                            value: if delivery is Off {
                                "\"off\""@
                            } else if delivery is Herdr {
                                "\"herdr\""@
                            } else if delivery is Terminal {
                                "\"terminal\""@
                            } else {
                                "\"system\""@
                            },
                        },
                        ConfigEditView::RemoveKey { section: "ui.toast"@, key: "enabled"@ },
                    ],
                },
            ),
            ..state
        }),
{
    reveal(action_dispatched);
}

proof fn lemma_labels_to_install(list: Seq<IntegrationRecommendationView>)
    ensures
        labels_to_install(list) == list.filter(
            |item: IntegrationRecommendationView| item.needs_install,
        ).map_values(|item: IntegrationRecommendationView| item.label),
    decreases list.len(),
{
    reveal(Seq::filter);
    if list.len() > 0 {
        lemma_labels_to_install(list.drop_last());
    }
    assert(labels_to_install(list) =~= list.filter(
        |item: IntegrationRecommendationView| item.needs_install,
    ).map_values(|item: IntegrationRecommendationView| item.label));
}

/// Installing what is recommended has the integrations installed that need it, in
/// order, and starts with nothing told. Where none needs it, the user is told just
/// that.
pub proof fn law_needed_integrations_are_installed(state: FleetView)
    ensures
        ({
            let labels = state.sidebar.integration_recommendations.filter(
                |item: IntegrationRecommendationView| item.needs_install,
            ).map_values(|item: IntegrationRecommendationView| item.label);
            let after = action_dispatched(
                state,
                ClientSidebarActionView::InstallRecommendedIntegrations,
            );
            &&& labels.len() == 0 ==> after == (FleetView {
                sidebar: AppStateView {
                    integration_install_messages: seq!["all detected integrations are current"@],
                    ..state.sidebar
                },
                ..state
            })
            &&& labels.len() > 0 ==> after == (FleetView {
                sidebar: AppStateView {
                    integration_install_messages: seq![],
                    ..state.sidebar
                },
                effects: state.effects.push(EffectView::InstallIntegrations { labels }),
                ..state
            })
        }),
{
    reveal(action_dispatched);
    reveal(installing);
    lemma_labels_to_install(state.sidebar.integration_recommendations);
}

proof fn lemma_starting_with(messages: Seq<Seq<char>>, prefix: Seq<char>)
    ensures
        starting_with(messages, prefix) == messages.filter(
            |message: Seq<char>| prefix.is_prefix_of(message),
        ),
    decreases messages.len(),
{
    reveal(Seq::filter);
    if messages.len() > 0 {
        lemma_starting_with(messages.drop_last(), prefix);
    }
    assert(starting_with(messages, prefix) =~= messages.filter(
        |message: Seq<char>| prefix.is_prefix_of(message),
    ));
}

/// Of an integration that was installed the user is told that it was, and then
/// what it warned of. Of one that failed they are told why. Each follows what was
/// told before, and what is recommended now takes the place of what was.
pub proof fn law_outcomes_are_told(
    state: FleetView,
    outcomes: Seq<InstallOutcome>,
    outcome: InstallOutcome,
    prefix: Seq<char>,
    recommendations: Seq<IntegrationRecommendationView>,
)
    ensures
        ({
            let none = installed(state, Seq::empty(), prefix, recommendations);
            let some = installed(state, outcomes, prefix, recommendations);
            let more = installed(state, outcomes.push(outcome), prefix, recommendations);
            let told = match outcome.result {
                Ok(messages) => seq!["installed "@ + outcome.label@] + Seq::new(
                    messages@.len(),
                    |i: int| messages@[i]@,
                ).filter(|message: Seq<char>| prefix.is_prefix_of(message)),
                Err(error) => seq![outcome.label@ + ": "@ + error@],
            };
            &&& none == (FleetView {
                sidebar: AppStateView {
                    integration_recommendations: recommendations,
                    ..state.sidebar
                },
                ..state
            })
            &&& more == (FleetView {
                sidebar: AppStateView {
                    integration_install_messages: some.sidebar.integration_install_messages
                        + told,
                    integration_recommendations: recommendations,
                    ..state.sidebar
                },
                ..state
            })
        }),
{
    let none = installed(state, Seq::empty(), prefix, recommendations);
    assert(none.sidebar.integration_install_messages
        =~= state.sidebar.integration_install_messages);
    assert(outcomes.push(outcome).drop_last() =~= outcomes);
    let some = installed(state, outcomes, prefix, recommendations);
    let more = installed(state, outcomes.push(outcome), prefix, recommendations);
    if let Ok(messages) = outcome.result {
        let all = Seq::new(messages@.len(), |i: int| messages@[i]@);
        assert(crate::frame::texts(messages@) =~= all);
        lemma_starting_with(all, prefix);
    }
    assert(more.sidebar.integration_install_messages
        =~= some.sidebar.integration_install_messages + outcome_messages(outcome, prefix));
}

} // verus!
