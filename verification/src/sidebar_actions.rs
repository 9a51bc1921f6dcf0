//! What the user asks of the sidebar, and what the fleet client does about it.

use vstd::prelude::*;
use vstd::string::*;

use crate::app_state::{
    shell_model, AppStateView, IntegrationRecommendation, IntegrationRecommendationView,
};
use crate::compare::{copy_option_text, opt_text, opt_view, views};
use crate::fleet_state::{
    emitted, emitting, is_sound, prefix_input_of, repainted, request_to, requested, row_is_known,
    rows_are_known, with_sidebar, FleetState, FleetView,
};
use crate::frame::texts;
use crate::instance::{instance_model, Instance, InstanceView};
use crate::messages::{
    ClientSidebarAction, ClientSidebarActionView, ConfigEdit, ConfigEditView, Effect, EffectView,
    Method, MethodView, ToastDelivery,
};
use crate::projection::PaneId;
use crate::routes::{hit_instance, opt_hit, HitView, SidebarHit};
use crate::sidebar::{shown_workspaces, PaneRouteView, RowView};
use crate::snapshot::WorkspaceInfoView;
use crate::text::{same_text, text_chars};
use crate::tokens::Tokens;

verus! {

/// Where a row leads.
pub open spec fn row_route(rows: Seq<RowView>, ws_idx: usize) -> Option<HitView> {
    if ws_idx < rows.len() {
        Some(rows[ws_idx as int].route)
    } else {
        None
    }
}

/// Where a tab of a row leads.
pub open spec fn row_tab_route(rows: Seq<RowView>, ws_idx: usize, tab_idx: usize) -> Option<
    HitView,
> {
    if ws_idx < rows.len() && tab_idx < rows[ws_idx as int].tab_routes.len() {
        rows[ws_idx as int].tab_routes[tab_idx as int]
    } else {
        None
    }
}

/// Where a pane leads: the route that was listed for it last counts.
pub open spec fn last_pane_route(routes: Seq<PaneRouteView>, pane: PaneId) -> Option<HitView>
    decreases routes.len(),
{
    if routes.len() == 0 {
        None
    } else if routes.last().pane == pane {
        Some(routes.last().target)
    } else {
        last_pane_route(routes.drop_last(), pane)
    }
}

/// Where a pane of a row leads; where the row does, if the pane is not listed.
pub open spec fn row_pane_route(
    rows: Seq<RowView>,
    ws_idx: usize,
    pane: PaneId,
) -> Option<HitView> {
    if ws_idx < rows.len() {
        match last_pane_route(rows[ws_idx as int].pane_routes, pane) {
            Some(hit) => Some(hit),
            None => Some(rows[ws_idx as int].route),
        }
    } else {
        None
    }
}

/// What an instance is asked to bring into focus.
pub open spec fn focus_method(hit: HitView) -> Option<MethodView> {
    match hit {
        HitView::Instance { .. } => None,
        HitView::Workspace { workspace_id, .. } => Some(
            MethodView::WorkspaceFocus { workspace_id },
        ),
        HitView::Tab { tab_id, .. } => Some(MethodView::TabFocus { tab_id }),
        HitView::Pane { pane_id, .. } => Some(MethodView::PaneFocus { pane_id }),
    }
}

/// The state once an instance is active and its row is, too.
pub open spec fn moved_to(state: FleetView, ws_idx: usize, index: usize) -> FleetView {
    repainted(
        FleetView {
            active: index,
            sidebar: AppStateView { active: Some(ws_idx), selected: ws_idx, ..state.sidebar },
            ..state
        },
    )
}

/// What has the host follow an instance: its modes, its input source, and its
/// title.
pub open spec fn host_effects(instance: InstanceView) -> Seq<EffectView> {
    seq![
        EffectView::ApplyHostModes,
        prefix_input_of(instance),
        EffectView::WriteWindowTitle { title: instance.window_title },
    ]
}

/// What following a target asks for: that the target is brought into focus, and
/// that the host follows its instance.
pub open spec fn route_effects(instances: Seq<InstanceView>, hit: HitView) -> Seq<EffectView> {
    let index = hit_instance(hit);
    (match focus_method(hit) {
        Some(method) => request_to(instances, index, "fleet-focus"@, method),
        None => seq![],
    }) + host_effects(instances[index as int])
}

/// The state once a row was followed: its instance is active, and so is the row.
#[verifier::opaque]
pub open spec fn route_followed(
    state: FleetView,
    ws_idx: usize,
    route: Option<HitView>,
) -> FleetView {
    match route {
        None => state,
        Some(hit) => emitting(
            moved_to(state, ws_idx, hit_instance(hit)),
            route_effects(state.instances, hit),
        ),
    }
}

/// The label of the first workspace with an id.
pub open spec fn workspace_label(
    workspaces: Seq<WorkspaceInfoView>,
    workspace_id: Seq<char>,
) -> Option<Seq<char>>
    decreases workspaces.len(),
{
    if workspaces.len() == 0 {
        None
    } else if workspaces[0].workspace_id == workspace_id {
        Some(workspaces[0].label)
    } else {
        workspace_label(workspaces.skip(1), workspace_id)
    }
}

/// The state once the name of a row's workspace is being edited.
#[verifier::opaque]
pub open spec fn rename_started(state: FleetView, ws_idx: usize) -> FleetView {
    match row_route(state.sidebar.rows, ws_idx) {
        Some(HitView::Workspace { index, workspace_id }) => match workspace_label(
            shown_workspaces(state.instances[index as int]),
            workspace_id,
        ) {
            Some(label) => with_sidebar(
                state,
                AppStateView { name_input: label, ..state.sidebar },
            ),
            None => state,
        },
        _ => state,
    }
}

/// The state once a row's workspace is to be renamed.
#[verifier::opaque]
pub open spec fn rename_requested(state: FleetView, ws_idx: usize, label: Seq<char>) -> FleetView {
    match row_route(state.sidebar.rows, ws_idx) {
        Some(HitView::Workspace { index, workspace_id }) => requested(
            state,
            index,
            "fleet-workspace-rename"@,
            MethodView::WorkspaceRename { workspace_id, label },
        ),
        _ => state,
    }
}

/// The state once a row's workspace is to be closed.
#[verifier::opaque]
pub open spec fn close_requested(state: FleetView, ws_idx: usize) -> FleetView {
    match row_route(state.sidebar.rows, ws_idx) {
        Some(HitView::Workspace { index, workspace_id }) => requested(
            state,
            index,
            "fleet-workspace-close"@,
            MethodView::WorkspaceClose { workspace_id },
        ),
        _ => state,
    }
}

/// A request to each instance that takes requests.
pub open spec fn requests_to(
    instances: Seq<InstanceView>,
    id: Seq<char>,
    method: MethodView,
) -> Seq<EffectView>
    decreases instances.len(),
{
    if instances.len() == 0 {
        seq![]
    } else {
        let rest = requests_to(instances.drop_last(), id, method);
        if instances.last().accepts_requests {
            rest.push(EffectView::Request { index: (instances.len() - 1) as usize, id, method })
        } else {
            rest
        }
    }
}

/// A text in quotes.
pub open spec fn quoted(text: Seq<char>) -> Seq<char> {
    "\""@ + text + "\""@
}

/// How the configuration words a delivery.
pub open spec fn delivery_text(delivery: ToastDelivery) -> Seq<char> {
    match delivery {
        ToastDelivery::Off => "\"off\""@,
        ToastDelivery::Herdr => "\"herdr\""@,
        ToastDelivery::Terminal => "\"terminal\""@,
        ToastDelivery::System => "\"system\""@,
    }
}

/// The state once the configuration file is to be changed.
pub open spec fn config_saved(
    state: FleetView,
    context: Seq<char>,
    edits: Seq<ConfigEditView>,
) -> FleetView {
    emitted(state, EffectView::UpdateConfigFile { context, edits })
}

/// The change that makes a theme the only one.
pub open spec fn theme_edits(name: Seq<char>) -> Seq<ConfigEditView> {
    seq![
        ConfigEditView::SetValue { section: "theme"@, key: "name"@, value: quoted(name) },
        ConfigEditView::SetBool { section: "theme"@, key: "auto_switch"@, value: false },
    ]
}

/// The change that makes a style that of the status indicators.
pub open spec fn indicator_edits(style: Seq<char>) -> Seq<ConfigEditView> {
    seq![
        ConfigEditView::SetValue {
            section: "ui"@,
            key: "status_indicators"@,
            value: quoted(style),
        },
    ]
}

/// The change that switches sound on or off.
pub open spec fn sound_edits(enabled: bool) -> Seq<ConfigEditView> {
    seq![ConfigEditView::SetBool { section: "ui.sound"@, key: "enabled"@, value: enabled }]
}

/// The change that chooses how notifications are delivered.
pub open spec fn toast_edits(delivery: ToastDelivery) -> Seq<ConfigEditView> {
    seq![
        ConfigEditView::SetValue {
            section: "ui.toast"@,
            key: "delivery"@,
            value: delivery_text(delivery),
        },
        ConfigEditView::RemoveKey { section: "ui.toast"@, key: "enabled"@ },
    ]
}

/// The change that shows or hides the labels of agents on pane borders.
pub open spec fn border_edits(enabled: bool) -> Seq<ConfigEditView> {
    seq![
        ConfigEditView::SetBool {
            section: "ui"@,
            key: "show_agent_labels_on_pane_borders"@,
            value: enabled,
        },
    ]
}

/// The change that chooses the order of the agent panel.
pub open spec fn sort_edits(sort: Seq<char>) -> Seq<ConfigEditView> {
    seq![ConfigEditView::SetValue { section: "ui"@, key: "agent_panel_sort"@, value: quoted(sort) }]
}

/// The integrations that are recommended and have to be installed, in order.
pub open spec fn labels_to_install(list: Seq<IntegrationRecommendationView>) -> Seq<Seq<char>>
    decreases list.len(),
{
    if list.len() == 0 {
        seq![]
    } else {
        let rest = labels_to_install(list.drop_last());
        if list.last().needs_install {
            rest.push(list.last().label)
        } else {
            rest
        }
    }
}

/// The state once the recommended integrations are to be installed. Where there
/// is none, that is what the user is told.
#[verifier::opaque]
pub open spec fn installing(state: FleetView) -> FleetView {
    let labels = labels_to_install(state.sidebar.integration_recommendations);
    if labels.len() == 0 {
        with_sidebar(
            state,
            AppStateView {
                integration_install_messages: seq!["all detected integrations are current"@],
                ..state.sidebar
            },
        )
    } else {
        emitted(
            with_sidebar(
                state,
                AppStateView { integration_install_messages: seq![], ..state.sidebar },
            ),
            EffectView::InstallIntegrations { labels },
        )
    }
}

/// The request for a fresh workspace.
pub open spec fn new_workspace() -> MethodView {
    MethodView::WorkspaceCreate { cwd: None, focus: true, label: None, env: Map::empty() }
}

/// The state once the configuration is to be read again, here and by all
/// instances.
#[verifier::opaque]
pub open spec fn reload_requested(state: FleetView) -> FleetView {
    emitting(
        state,
        seq![EffectView::ReloadVisualConfig] + requests_to(
            state.instances,
            "fleet-reload-config"@,
            MethodView::ServerReloadConfig,
        ),
    )
}

/// The state after an action on a row.
pub open spec fn row_dispatched(state: FleetView, action: ClientSidebarActionView) -> FleetView {
    match action {
        ClientSidebarActionView::FocusWorkspace { ws_idx } => route_followed(
            state,
            ws_idx,
            row_route(state.sidebar.rows, ws_idx),
        ),
        ClientSidebarActionView::FocusTab { ws_idx, tab_idx } => route_followed(
            state,
            ws_idx,
            row_tab_route(state.sidebar.rows, ws_idx, tab_idx),
        ),
        ClientSidebarActionView::FocusPane { ws_idx, pane_id } => route_followed(
            state,
            ws_idx,
            row_pane_route(state.sidebar.rows, ws_idx, pane_id),
        ),
        ClientSidebarActionView::RenameStarted { ws_idx } => rename_started(state, ws_idx),
        ClientSidebarActionView::RenameWorkspace { ws_idx, label } => rename_requested(
            state,
            ws_idx,
            label,
        ),
        ClientSidebarActionView::CloseWorkspace { ws_idx } => close_requested(state, ws_idx),
        _ => state,
    }
}

/// The change to the configuration file that an action asks for, and what it is
/// called.
pub open spec fn setting_change(action: ClientSidebarActionView) -> Option<
    (Seq<char>, Seq<ConfigEditView>),
> {
    match action {
        ClientSidebarActionView::SaveTheme { name } => Some(("theme"@, theme_edits(name))),
        ClientSidebarActionView::SaveStatusIndicators { style } => Some(
            ("status indicators"@, indicator_edits(style)),
        ),
        ClientSidebarActionView::SaveSound { enabled } => Some(
            ("sound setting"@, sound_edits(enabled)),
        ),
        ClientSidebarActionView::SaveToastDelivery { delivery } => Some(
            ("toast setting"@, toast_edits(delivery)),
        ),
        ClientSidebarActionView::SaveAgentBorderLabels { enabled } => Some(
            ("agent border labels"@, border_edits(enabled)),
        ),
        ClientSidebarActionView::SaveAgentPanelSort { sort } => Some(
            ("agent panel sort"@, sort_edits(sort)),
        ),
        _ => None,
    }
}

/// The state after an action that may be about a setting.
pub open spec fn setting_dispatched(
    state: FleetView,
    action: ClientSidebarActionView,
) -> FleetView {
    match setting_change(action) {
        Some((context, edits)) => config_saved(state, context, edits),
        None => state,
    }
}

/// The state after an action of the user.
#[verifier::opaque]
pub open spec fn action_dispatched(
    state: FleetView,
    action: ClientSidebarActionView,
) -> FleetView {
    match action {
        ClientSidebarActionView::Redraw => state,
        ClientSidebarActionView::NewWorkspace => requested(
            state,
            state.active,
            "fleet-workspace-create"@,
            new_workspace(),
        ),
        ClientSidebarActionView::InstallRecommendedIntegrations => installing(state),
        ClientSidebarActionView::ReloadConfig => reload_requested(state),
        ClientSidebarActionView::Detach => FleetView { quit_requested: true, ..state },
        _ => if named_row(action) is Some {
            row_dispatched(state, action)
        } else {
            setting_dispatched(state, action)
        },
    }
}

/// The row that an action is about.
pub open spec fn named_row(action: ClientSidebarActionView) -> Option<usize> {
    match action {
        ClientSidebarActionView::FocusWorkspace { ws_idx } => Some(ws_idx),
        ClientSidebarActionView::FocusTab { ws_idx, .. } => Some(ws_idx),
        ClientSidebarActionView::FocusPane { ws_idx, .. } => Some(ws_idx),
        ClientSidebarActionView::RenameStarted { ws_idx } => Some(ws_idx),
        ClientSidebarActionView::RenameWorkspace { ws_idx, .. } => Some(ws_idx),
        ClientSidebarActionView::CloseWorkspace { ws_idx } => Some(ws_idx),
        _ => None,
    }
}

/// What came of installing an integration: what it had to say, or why it
/// failed.
#[derive(Debug)]
pub struct InstallOutcome {
    pub label: String,
    pub result: Result<Vec<String>, String>,
}

/// The messages that start with a text, in order.
pub open spec fn starting_with(messages: Seq<Seq<char>>, prefix: Seq<char>) -> Seq<Seq<char>>
    decreases messages.len(),
{
    if messages.len() == 0 {
        seq![]
    } else {
        let rest = starting_with(messages.drop_last(), prefix);
        if prefix.is_prefix_of(messages.last()) {
            rest.push(messages.last())
        } else {
            rest
        }
    }
}

/// What the user is told of installing an integration: that it went well, with
/// the warnings, or why it failed.
pub open spec fn outcome_messages(outcome: InstallOutcome, prefix: Seq<char>) -> Seq<Seq<char>> {
    match outcome.result {
        Ok(messages) => seq!["installed "@ + outcome.label@] + starting_with(
            texts(messages@),
            prefix,
        ),
        Err(error) => seq![outcome.label@ + ": "@ + error@],
    }
}

/// What the user is told of installing several integrations.
pub open spec fn all_outcome_messages(outcomes: Seq<InstallOutcome>, prefix: Seq<char>) -> Seq<
    Seq<char>,
>
    decreases outcomes.len(),
{
    if outcomes.len() == 0 {
        seq![]
    } else {
        all_outcome_messages(outcomes.drop_last(), prefix) + outcome_messages(
            outcomes.last(),
            prefix,
        )
    }
}

/// The state once integrations have been installed, as far as they could, and
/// others are recommended.
pub open spec fn installed(
    state: FleetView,
    outcomes: Seq<InstallOutcome>,
    prefix: Seq<char>,
    recommendations: Seq<IntegrationRecommendationView>,
) -> FleetView {
    with_sidebar(
        state,
        AppStateView {
            integration_install_messages: state.sidebar.integration_install_messages
                + all_outcome_messages(outcomes, prefix),
            integration_recommendations: recommendations,
            ..state.sidebar
        },
    )
}

/// Whether a text starts with another.
fn starts_with_text(text: &str, prefix: &str) -> (r: bool)
    ensures
        r == prefix@.is_prefix_of(text@),
{
    let whole = text_chars(text);
    let start = text_chars(prefix);
    if start.len() > whole.len() {
        return false;
    }
    let mut i: usize = 0;
    while i < start.len()
        invariant
            i <= start@.len() <= whole@.len(),
            whole@ == text@,
            start@ == prefix@,
            forall|j: int| 0 <= j < i ==> start@[j] == whole@[j],
        decreases start@.len() - i,
    {
        if start[i] != whole[i] {
            assert(text@.subrange(0, prefix@.len() as int)[i as int] != prefix@[i as int]);
            return false;
        }
        i += 1;
    }
    assert(prefix@ =~= text@.subrange(0, prefix@.len() as int));
    true
}

fn quote(text: &str) -> (r: String)
    ensures
        r@ == quoted(text@),
{
    "\"".to_string().concat(text).concat("\"")
}

fn set_value(section: &str, key: &str, value: String) -> (r: ConfigEdit)
    ensures
        r@ == (ConfigEditView::SetValue { section: section@, key: key@, value: value@ }),
{
    ConfigEdit::SetValue { section: section.to_string(), key: key.to_string(), value }
}

fn set_bool(section: &str, key: &str, value: bool) -> (r: ConfigEdit)
    ensures
        r@ == (ConfigEditView::SetBool { section: section@, key: key@, value }),
{
    ConfigEdit::SetBool { section: section.to_string(), key: key.to_string(), value }
}

fn remove_key(section: &str, key: &str) -> (r: ConfigEdit)
    ensures
        r@ == (ConfigEditView::RemoveKey { section: section@, key: key@ }),
{
    ConfigEdit::RemoveKey { section: section.to_string(), key: key.to_string() }
}

fn one_edit(edit: ConfigEdit) -> (r: Vec<ConfigEdit>)
    ensures
        views(r@) == seq![edit@],
{
    let mut edits: Vec<ConfigEdit> = Vec::new();
    edits.push(edit);
    assert(views(edits@) =~= seq![edit@]);
    edits
}

fn two_edits(first: ConfigEdit, second: ConfigEdit) -> (r: Vec<ConfigEdit>)
    ensures
        views(r@) == seq![first@, second@],
{
    let mut edits: Vec<ConfigEdit> = Vec::new();
    edits.push(first);
    edits.push(second);
    assert(views(edits@) =~= seq![first@, second@]);
    edits
}

fn delivery_value(delivery: ToastDelivery) -> (r: String)
    ensures
        r@ == delivery_text(delivery),
{
    match delivery {
        ToastDelivery::Off => "\"off\"".to_string(),
        ToastDelivery::Herdr => "\"herdr\"".to_string(),
        ToastDelivery::Terminal => "\"terminal\"".to_string(),
        ToastDelivery::System => "\"system\"".to_string(),
    }
}

/// The instance that a target belongs to, and what it is asked for.
fn focus_request(hit: SidebarHit) -> (r: (usize, Option<Method>))
    ensures
        r.0 == hit_instance(hit@),
        opt_view(r.1) == focus_method(hit@),
{
    match hit {
        SidebarHit::Instance { index } => (index, None),
        SidebarHit::Workspace { index, workspace_id } => (
            index,
            Some(Method::WorkspaceFocus { workspace_id }),
        ),
        SidebarHit::Tab { index, tab_id } => (index, Some(Method::TabFocus { tab_id })),
        SidebarHit::Pane { index, pane_id } => (index, Some(Method::PaneFocus { pane_id })),
    }
}

impl FleetState {
    /// Where a row leads.
    fn route_of_row(&self, ws_idx: usize) -> (r: Option<SidebarHit>)
        ensures
            opt_hit(r) == row_route(self@.sidebar.rows, ws_idx),
    {
        proof {
            reveal(shell_model);
        }
        if ws_idx >= self.sidebar.rows.len() {
            return None;
        }
        assert(self@.sidebar.rows[ws_idx as int] == self.sidebar.rows@[ws_idx as int]@);
        Some(self.sidebar.rows[ws_idx].route.clone())
    }

    /// Where a tab of a row leads.
    fn route_of_tab(&self, ws_idx: usize, tab_idx: usize) -> (r: Option<SidebarHit>)
        ensures
            opt_hit(r) == row_tab_route(self@.sidebar.rows, ws_idx, tab_idx),
    {
        proof {
            reveal(shell_model);
        }
        if ws_idx >= self.sidebar.rows.len() {
            return None;
        }
        let row = &self.sidebar.rows[ws_idx];
        assert(self@.sidebar.rows[ws_idx as int] == row@);
        if tab_idx >= row.tab_routes.len() {
            return None;
        }
        assert(row@.tab_routes[tab_idx as int] == opt_hit(row.tab_routes@[tab_idx as int]));
        match &row.tab_routes[tab_idx] {
            Some(hit) => Some(hit.clone()),
            None => None,
        }
    }

    /// Where a pane of a row leads.
    fn route_of_pane(&self, ws_idx: usize, pane_id: PaneId) -> (r: Option<SidebarHit>)
        ensures
            opt_hit(r) == row_pane_route(self@.sidebar.rows, ws_idx, pane_id),
    {
        proof {
            reveal(shell_model);
        }
        if ws_idx >= self.sidebar.rows.len() {
            return None;
        }
        let row = &self.sidebar.rows[ws_idx];
        assert(self@.sidebar.rows[ws_idx as int] == row@);
        let ghost routes = row@.pane_routes;
        assert(routes.take(routes.len() as int) =~= routes);
        let mut i: usize = row.pane_routes.len();
        while i > 0
            invariant
                i <= row.pane_routes@.len(),
                ws_idx < self@.sidebar.rows.len(),
                self@.sidebar.rows[ws_idx as int] == row@,
                routes == views(row.pane_routes@),
                last_pane_route(routes, pane_id) == last_pane_route(
                    routes.take(i as int),
                    pane_id,
                ),
            decreases i,
        {
            proof {
                reveal(shell_model);
            }
            assert(routes.take(i as int).last() == row.pane_routes@[i - 1]@);
            assert(routes.take(i as int).drop_last() =~= routes.take(i - 1));
            i -= 1;
            if row.pane_routes[i].pane == pane_id {
                return Some(row.pane_routes[i].target.clone());
            }
        }
        Some(row.route.clone())
    }

    /// Follows a row to where it leads.
    pub fn activate_sidebar_route(&mut self, ws_idx: usize, route: Option<SidebarHit>)
        requires
            opt_hit(route) matches Some(hit) ==> hit_instance(hit) < old(self)@.instances.len(),
        ensures
            final(self)@ == route_followed(old(self)@, ws_idx, opt_hit(route)),
    {
        proof {
            reveal(route_followed);
        }
        let route = match route {
            Some(route) => route,
            None => {
                return;
            },
        };
        let ghost hit = route@;
        let (index, method): (usize, Option<Method>) = focus_request(route);
        self.move_to(ws_idx, index);
        if let Some(method) = method {
            self.request_for_instance(index, "fleet-focus", method);
        }
        self.follow_active();
        assert(self@.effects =~= old(self)@.effects + route_effects(
            old(self)@.instances,
            hit,
        ));
    }

    fn move_to(&mut self, ws_idx: usize, index: usize)
        ensures
            final(self)@ == moved_to(old(self)@, ws_idx, index),
    {
        proof {
            reveal(shell_model);
        }
        self.active = index;
        self.request_repaint();
        self.sidebar.active = Some(ws_idx);
        self.sidebar.selected = ws_idx;
    }

    fn follow_active(&mut self)
        requires
            old(self)@.active < old(self)@.instances.len(),
        ensures
            final(self)@ == emitting(
                old(self)@,
                host_effects(old(self)@.instances[old(self)@.active as int]),
            ),
    {
        proof {
            reveal(instance_model);
        }
        self.apply_active_host_modes();
        self.apply_active_prefix_input_source();
        let index: usize = self.active;
        assert(self@.instances[index as int] == self.instances@[index as int]@);
        let title = copy_option_text(&self.instances[index].window_title);
        self.emit(Effect::WriteWindowTitle { title });
        assert(self@.effects =~= old(self)@.effects + host_effects(
            old(self)@.instances[index as int],
        ));
    }

    /// Follows a row.
    pub fn focus_sidebar_route(&mut self, ws_idx: usize)
        requires
            rows_are_known(old(self)@.sidebar.rows, old(self)@.instances.len()),
        ensures
            final(self)@ == route_followed(
                old(self)@,
                ws_idx,
                row_route(old(self)@.sidebar.rows, ws_idx),
            ),
    {
        let route = self.route_of_row(ws_idx);
        self.activate_sidebar_route(ws_idx, route);
    }

    /// Follows a tab of a row.
    pub fn focus_tab_route(&mut self, ws_idx: usize, tab_idx: usize)
        requires
            rows_are_known(old(self)@.sidebar.rows, old(self)@.instances.len()),
        ensures
            final(self)@ == route_followed(
                old(self)@,
                ws_idx,
                row_tab_route(old(self)@.sidebar.rows, ws_idx, tab_idx),
            ),
    {
        let route = self.route_of_tab(ws_idx, tab_idx);
        proof {
            lemma_routes_are_known(
                self@.sidebar.rows,
                self@.instances.len(),
                ws_idx,
                tab_idx,
                PaneId { number: 0 },
            );
        }
        self.activate_sidebar_route(ws_idx, route);
    }

    /// Follows a pane of a row.
    pub fn focus_pane_route(&mut self, ws_idx: usize, pane_id: PaneId)
        requires
            rows_are_known(old(self)@.sidebar.rows, old(self)@.instances.len()),
        ensures
            final(self)@ == route_followed(
                old(self)@,
                ws_idx,
                row_pane_route(old(self)@.sidebar.rows, ws_idx, pane_id),
            ),
    {
        let route = self.route_of_pane(ws_idx, pane_id);
        proof {
            lemma_routes_are_known(self@.sidebar.rows, self@.instances.len(), ws_idx, 0, pane_id);
        }
        self.activate_sidebar_route(ws_idx, route);
    }

    /// Starts editing the name of a row's workspace.
    fn start_rename(&mut self, ws_idx: usize)
        requires
            rows_are_known(old(self)@.sidebar.rows, old(self)@.instances.len()),
        ensures
            final(self)@ == rename_started(old(self)@, ws_idx),
    {
        proof {
            reveal(shell_model);
            reveal(instance_model);
            reveal(rename_started);
        }
        let route = self.route_of_row(ws_idx);
        if let Some(SidebarHit::Workspace { index, workspace_id }) = route {
            assert(self@.instances[index as int] == self.instances@[index as int]@);
            if let Some(label) = label_of(&self.instances[index], workspace_id.as_str()) {
                self.sidebar.name_input = label;
            }
        }
    }

    fn rename_workspace(&mut self, ws_idx: usize, label: String)
        ensures
            final(self)@ == rename_requested(old(self)@, ws_idx, label@),
    {
        proof {
            reveal(rename_requested);
        }
        let route = self.route_of_row(ws_idx);
        if let Some(SidebarHit::Workspace { index, workspace_id }) = route {
            self.request_for_instance(
                index,
                "fleet-workspace-rename",
                Method::WorkspaceRename { workspace_id, label },
            );
        }
    }

    fn close_workspace(&mut self, ws_idx: usize)
        ensures
            final(self)@ == close_requested(old(self)@, ws_idx),
    {
        proof {
            reveal(close_requested);
        }
        let route = self.route_of_row(ws_idx);
        if let Some(SidebarHit::Workspace { index, workspace_id }) = route {
            self.request_for_instance(
                index,
                "fleet-workspace-close",
                Method::WorkspaceClose { workspace_id },
            );
        }
    }

    /// Has the configuration file changed.
    pub fn update_fleet_config_file(&mut self, context: &str, edits: Vec<ConfigEdit>)
        ensures
            final(self)@ == config_saved(old(self)@, context@, views(edits@)),
    {
        self.emit(Effect::UpdateConfigFile { context: context.to_string(), edits });
    }

    fn create_workspace(&mut self)
        ensures
            final(self)@ == requested(
                old(self)@,
                old(self)@.active,
                "fleet-workspace-create"@,
                new_workspace(),
            ),
    {
        self.request_for_active(
            "fleet-workspace-create",
            Method::WorkspaceCreate { cwd: None, focus: true, label: None, env: Tokens::new() },
        );
    }

    fn request_quit(&mut self)
        ensures
            final(self)@ == (FleetView { quit_requested: true, ..old(self)@ }),
    {
        self.quit_requested = true;
    }

    fn reload_everywhere(&mut self)
        ensures
            final(self)@ == reload_requested(old(self)@),
    {
        proof {
            reveal(reload_requested);
        }
        self.emit(Effect::ReloadVisualConfig);
        self.request_for_all("fleet-reload-config");
        assert(self@.effects =~= old(self)@.effects + (seq![EffectView::ReloadVisualConfig]
            + requests_to(
            old(self)@.instances,
            "fleet-reload-config"@,
            MethodView::ServerReloadConfig,
        )));
    }

    /// Asks all instances for something.
    fn request_for_all(&mut self, id: &str)
        ensures
            final(self)@ == emitting(
                old(self)@,
                requests_to(old(self)@.instances, id@, MethodView::ServerReloadConfig),
            ),
    {
        proof {
            reveal(instance_model);
        }
        let ghost all = self@.instances;
        let ghost start = self@.effects;
        let ghost method = MethodView::ServerReloadConfig;
        let mut i: usize = 0;
        assert(start + requests_to(all.take(0), id@, method) =~= start);
        while i < self.instances.len()
            invariant
                i <= self.instances@.len(),
                all == self@.instances,
                start == old(self)@.effects,
                method == MethodView::ServerReloadConfig,
                self@ == (FleetView {
                    effects: start + requests_to(all.take(i as int), id@, method),
                    ..old(self)@
                }),
            decreases self.instances@.len() - i,
        {
            proof {
                reveal(instance_model);
            }
            assert(all.take(i + 1).drop_last() =~= all.take(i as int));
            assert(all.take(i + 1).last() == all[i as int]);
            self.request_for_instance(i, id, Method::ServerReloadConfig);
            assert(self@.effects =~= start + requests_to(all.take(i + 1), id@, method));
            i += 1;
        }
        assert(all.take(i as int) =~= all);
    }

    /// Has the recommended integrations installed.
    pub fn install_recommended_fleet_integrations(&mut self)
        ensures
            final(self)@ == installing(old(self)@),
    {
        proof {
            reveal(shell_model);
            reveal(installing);
        }
        let labels = pending_labels(&self.sidebar.integration_recommendations);
        let mut messages: Vec<String> = Vec::new();
        if labels.len() == 0 {
            messages.push("all detected integrations are current".to_string());
            assert(texts(messages@) =~= seq!["all detected integrations are current"@]);
            self.sidebar.integration_install_messages = messages;
            return;
        }
        assert(texts(messages@) =~= seq![]);
        self.sidebar.integration_install_messages = messages;
        self.emit(Effect::InstallIntegrations { labels });
    }

    /// Takes in what came of installing integrations, and what is recommended
    /// now. Messages of a success count as warnings where they start with the
    /// given text.
    pub fn integrations_installed(
        &mut self,
        outcomes: Vec<InstallOutcome>,
        warning_prefix: &str,
        recommendations: Vec<IntegrationRecommendation>,
    )
        ensures
            final(self)@ == installed(
                old(self)@,
                outcomes@,
                warning_prefix@,
                views(recommendations@),
            ),
    {
        proof {
            reveal(shell_model);
        }
        let mut told = all_outcome_lines(&outcomes, warning_prefix);
        let ghost said = texts(told@);
        self.sidebar.integration_install_messages.append(&mut told);
        assert(self@.sidebar.integration_install_messages
            =~= old(self)@.sidebar.integration_install_messages + said);
        self.sidebar.integration_recommendations = recommendations;
    }

    /// Does what the user asked of a row.
    fn dispatch_row_action(&mut self, action: ClientSidebarAction)
        requires
            is_sound(old(self)@),
        ensures
            final(self)@ == row_dispatched(old(self)@, action@),
    {
        match action {
            ClientSidebarAction::FocusWorkspace { ws_idx } => {
                self.focus_sidebar_route(ws_idx);
            },
            ClientSidebarAction::FocusTab { ws_idx, tab_idx } => {
                self.focus_tab_route(ws_idx, tab_idx);
            },
            ClientSidebarAction::FocusPane { ws_idx, pane_id } => {
                self.focus_pane_route(ws_idx, pane_id);
            },
            ClientSidebarAction::RenameStarted { ws_idx } => {
                self.start_rename(ws_idx);
            },
            ClientSidebarAction::RenameWorkspace { ws_idx, label } => {
                self.rename_workspace(ws_idx, label);
            },
            ClientSidebarAction::CloseWorkspace { ws_idx } => {
                self.close_workspace(ws_idx);
            },
            _ => {},
        }
    }

    /// Changes the setting that the user chose.
    fn dispatch_setting_action(&mut self, action: &ClientSidebarAction)
        ensures
            final(self)@ == setting_dispatched(old(self)@, action@),
    {
        match config_edits(action) {
            Some((context, edits)) => {
                self.update_fleet_config_file(context.as_str(), edits);
            },
            None => {},
        }
    }

    /// Does what the user asked of the sidebar.
    pub fn dispatch_sidebar_action(&mut self, action: ClientSidebarAction)
        requires
            is_sound(old(self)@),
        ensures
            final(self)@ == action_dispatched(old(self)@, action@),
    {
        proof {
            reveal(action_dispatched);
        }
        match &action {
            ClientSidebarAction::Redraw => {},
            ClientSidebarAction::NewWorkspace => {
                self.create_workspace();
            },
            ClientSidebarAction::InstallRecommendedIntegrations => {
                self.install_recommended_fleet_integrations();
            },
            ClientSidebarAction::ReloadConfig => {
                self.reload_everywhere();
            },
            ClientSidebarAction::Detach => {
                self.request_quit();
            },
            _ => {
                if is_about_row(&action) {
                    self.dispatch_row_action(action);
                } else {
                    self.dispatch_setting_action(&action);
                }
            },
        }
    }
}

/// Whether an action is about a row.
fn is_about_row(action: &ClientSidebarAction) -> (r: bool)
    ensures
        r == (named_row(action@) is Some),
{
    match action {
        ClientSidebarAction::FocusWorkspace { .. } => true,
        ClientSidebarAction::FocusTab { .. } => true,
        ClientSidebarAction::FocusPane { .. } => true,
        ClientSidebarAction::RenameStarted { .. } => true,
        ClientSidebarAction::RenameWorkspace { .. } => true,
        ClientSidebarAction::CloseWorkspace { .. } => true,
        _ => false,
    }
}

/// The change to the configuration file that an action asks for.
pub fn config_edits(action: &ClientSidebarAction) -> (r: Option<(String, Vec<ConfigEdit>)>)
    ensures
        (match r {
            Some((context, edits)) => Some((context@, views(edits@))),
            None => None,
        }) == setting_change(action@),
{
    match action {
        ClientSidebarAction::SaveTheme { name } => Some(
            (
                "theme".to_string(),
                two_edits(
                    set_value("theme", "name", quote(name.as_str())),
                    set_bool("theme", "auto_switch", false),
                ),
            ),
        ),
        ClientSidebarAction::SaveStatusIndicators { style } => Some(
            (
                "status indicators".to_string(),
                one_edit(set_value("ui", "status_indicators", quote(style.as_str()))),
            ),
        ),
        ClientSidebarAction::SaveSound { enabled } => Some(
            (
                "sound setting".to_string(),
                one_edit(set_bool("ui.sound", "enabled", *enabled)),
            ),
        ),
        ClientSidebarAction::SaveToastDelivery { delivery } => Some(
            (
                "toast setting".to_string(),
                two_edits(
                    set_value("ui.toast", "delivery", delivery_value(*delivery)),
                    remove_key("ui.toast", "enabled"),
                ),
            ),
        ),
        ClientSidebarAction::SaveAgentBorderLabels { enabled } => Some(
            (
                "agent border labels".to_string(),
                one_edit(set_bool("ui", "show_agent_labels_on_pane_borders", *enabled)),
            ),
        ),
        ClientSidebarAction::SaveAgentPanelSort { sort } => Some(
            (
                "agent panel sort".to_string(),
                one_edit(set_value("ui", "agent_panel_sort", quote(sort.as_str()))),
            ),
        ),
        _ => None,
    }
}

/// The label of the first workspace with an id that an instance shows.
fn label_of(instance: &Instance, workspace_id: &str) -> (r: Option<String>)
    ensures
        opt_text(r) == workspace_label(shown_workspaces(instance@), workspace_id@),
{
    proof {
        reveal(instance_model);
    }
    let snapshot = match &instance.snapshot {
        Some(snapshot) => snapshot,
        None => {
            return None;
        },
    };
    let ghost all = snapshot@.workspaces;
    let mut i: usize = 0;
    assert(all.skip(0) =~= all);
    while i < snapshot.workspaces.len()
        invariant
            i <= snapshot.workspaces@.len(),
            all == views(snapshot.workspaces@),
            all == shown_workspaces(instance@),
            workspace_label(all, workspace_id@) == workspace_label(
                all.skip(i as int),
                workspace_id@,
            ),
        decreases snapshot.workspaces@.len() - i,
    {
        proof {
            reveal(instance_model);
        }
        let workspace = &snapshot.workspaces[i];
        assert(all.skip(i as int)[0] == workspace@);
        if same_text(workspace.workspace_id.as_str(), workspace_id) {
            return Some(workspace.label.clone());
        }
        assert(all.skip(i as int).skip(1) =~= all.skip(i + 1));
        i += 1;
    }
    None
}

/// The integrations that have to be installed.
fn pending_labels(list: &Vec<IntegrationRecommendation>) -> (r: Vec<String>)
    ensures
        texts(r@) == labels_to_install(views(list@)),
{
    let ghost all = views(list@);
    let mut labels: Vec<String> = Vec::new();
    let mut i: usize = 0;
    assert(texts(labels@) =~= labels_to_install(all.take(0)));
    while i < list.len()
        invariant
            i <= list@.len(),
            all == views(list@),
            texts(labels@) == labels_to_install(all.take(i as int)),
        decreases list@.len() - i,
    {
        let ghost before = texts(labels@);
        assert(all.take(i + 1).drop_last() =~= all.take(i as int));
        assert(all.take(i + 1).last() == list@[i as int]@);
        if list[i].needs_install {
            labels.push(list[i].label.clone());
            assert(texts(labels@) =~= before.push(list@[i as int].label@));
        }
        i += 1;
    }
    assert(all.take(i as int) =~= all);
    labels
}

/// What the user is told of installing an integration.
fn outcome_lines(outcome: &InstallOutcome, prefix: &str) -> (r: Vec<String>)
    ensures
        texts(r@) == outcome_messages(*outcome, prefix@),
{
    let mut lines: Vec<String> = Vec::new();
    match &outcome.result {
        Ok(messages) => {
            lines.push("installed ".to_string().concat(outcome.label.as_str()));
            let ghost head = seq!["installed "@ + outcome.label@];
            let ghost all = texts(messages@);
            let mut i: usize = 0;
            assert(texts(lines@) =~= head + starting_with(all.take(0), prefix@));
            while i < messages.len()
                invariant
                    i <= messages@.len(),
                    all == texts(messages@),
                    texts(lines@) == head + starting_with(all.take(i as int), prefix@),
                decreases messages@.len() - i,
            {
                let ghost before = texts(lines@);
                assert(all.take(i + 1).drop_last() =~= all.take(i as int));
                assert(all.take(i + 1).last() == messages@[i as int]@);
                if starts_with_text(messages[i].as_str(), prefix) {
                    lines.push(messages[i].clone());
                    assert(texts(lines@) =~= before.push(messages@[i as int]@));
                    assert(texts(lines@) =~= head + starting_with(all.take(i + 1), prefix@));
                }
                i += 1;
            }
            assert(all.take(i as int) =~= all);
        },
        Err(error) => {
            lines.push(outcome.label.clone().concat(": ").concat(error.as_str()));
            assert(texts(lines@) =~= seq![outcome.label@ + ": "@ + error@]);
        },
    }
    lines
}

/// What the user is told of installing several integrations.
fn all_outcome_lines(outcomes: &Vec<InstallOutcome>, prefix: &str) -> (r: Vec<String>)
    ensures
        texts(r@) == all_outcome_messages(outcomes@, prefix@),
{
    let mut lines: Vec<String> = Vec::new();
    let mut i: usize = 0;
    assert(texts(lines@) =~= all_outcome_messages(outcomes@.take(0), prefix@));
    while i < outcomes.len()
        invariant
            i <= outcomes@.len(),
            texts(lines@) == all_outcome_messages(outcomes@.take(i as int), prefix@),
        decreases outcomes@.len() - i,
    {
        let ghost before = texts(lines@);
        let mut told = outcome_lines(&outcomes[i], prefix);
        let ghost said = texts(told@);
        lines.append(&mut told);
        assert(texts(lines@) =~= before + said);
        assert(outcomes@.take(i + 1).drop_last() =~= outcomes@.take(i as int));
        assert(outcomes@.take(i + 1).last() == outcomes@[i as int]);
        i += 1;
    }
    assert(outcomes@.take(i as int) =~= outcomes@);
    lines
}

/// Where rows lead to known instances, so do the routes that are looked up in
/// them.
proof fn lemma_routes_are_known(
    rows: Seq<RowView>,
    count: nat,
    ws_idx: usize,
    tab_idx: usize,
    pane: PaneId,
)
    requires
        rows_are_known(rows, count),
    ensures
        row_route(rows, ws_idx) matches Some(hit) ==> hit_instance(hit) < count,
        row_tab_route(rows, ws_idx, tab_idx) matches Some(hit) ==> hit_instance(hit) < count,
        row_pane_route(rows, ws_idx, pane) matches Some(hit) ==> hit_instance(hit) < count,
{
    if ws_idx < rows.len() {
        let row = rows[ws_idx as int];
        assert(row_is_known(row, count));
        if tab_idx < row.tab_routes.len() {
            let route = row.tab_routes[tab_idx as int];
        }
        lemma_last_pane_route(row.pane_routes, pane);
    }
}

proof fn lemma_last_pane_route(routes: Seq<PaneRouteView>, pane: PaneId)
    ensures
        last_pane_route(routes, pane) matches Some(hit) ==> exists|i: int|
            0 <= i < routes.len() && (#[trigger] routes[i]).target == hit && routes[i].pane == pane,
    decreases routes.len(),
{
    if routes.len() > 0 {
        if routes.last().pane == pane {
            assert(routes[routes.len() - 1].target == routes.last().target);
        } else {
            lemma_last_pane_route(routes.drop_last(), pane);
            if let Some(hit) = last_pane_route(routes.drop_last(), pane) {
                let front = routes.drop_last();
                let i = choose|i: int|
                    0 <= i < front.len() && (#[trigger] front[i]).target == hit && front[i].pane
                        == pane;
                assert(routes[i] == front[i]);
            }
        }
    }
}

/// An action keeps the state sound, and touches no instance.
pub proof fn law_actions_keep_the_state_sound(state: FleetView, action: ClientSidebarActionView)
    requires
        is_sound(state),
    ensures
        is_sound(action_dispatched(state, action)),
        action_dispatched(state, action).instances == state.instances,
        action_dispatched(state, action).sidebar.rows == state.sidebar.rows,
{
    reveal(action_dispatched);
    reveal(route_followed);
    reveal(rename_started);
    reveal(rename_requested);
    reveal(close_requested);
    reveal(installing);
    reveal(reload_requested);
    match action {
        ClientSidebarActionView::FocusWorkspace { ws_idx } => {
            lemma_routes_are_known(
                state.sidebar.rows,
                state.instances.len(),
                ws_idx,
                0,
                PaneId { number: 0 },
            );
        },
        ClientSidebarActionView::FocusTab { ws_idx, tab_idx } => {
            lemma_routes_are_known(
                state.sidebar.rows,
                state.instances.len(),
                ws_idx,
                tab_idx,
                PaneId { number: 0 },
            );
        },
        ClientSidebarActionView::FocusPane { ws_idx, pane_id } => {
            lemma_routes_are_known(state.sidebar.rows, state.instances.len(), ws_idx, 0, pane_id);
        },
        _ => {},
    }
}

/// Following a row that leads somewhere makes its instance the active one and
/// the row the active and selected row, and has the screen painted again.
pub proof fn law_following_a_row_activates_it(state: FleetView, ws_idx: usize, hit: HitView)
    ensures
        ({
            let after = route_followed(state, ws_idx, Some(hit));
            &&& after.active == hit_instance(hit)
            &&& after.sidebar.active == Some(ws_idx)
            &&& after.sidebar.selected == ws_idx
            &&& after.host.repaint_pending
        }),
{
    reveal(route_followed);
}

/// An action on a row that is not there changes nothing.
pub proof fn law_missing_rows_do_nothing(state: FleetView, action: ClientSidebarActionView)
    requires
        named_row(action) matches Some(ws_idx) && ws_idx >= state.sidebar.rows.len(),
    ensures
        action_dispatched(state, action) == state,
{
    reveal(action_dispatched);
    reveal(route_followed);
    reveal(rename_started);
    reveal(rename_requested);
    reveal(close_requested);
    reveal(installing);
    reveal(reload_requested);
}

/// Only detaching has the client quit.
pub proof fn law_only_detaching_quits(state: FleetView, action: ClientSidebarActionView)
    ensures
        action_dispatched(state, action).quit_requested == (state.quit_requested
            || action is Detach),
{
    reveal(action_dispatched);
    reveal(route_followed);
    reveal(rename_started);
    reveal(rename_requested);
    reveal(close_requested);
    reveal(installing);
    reveal(reload_requested);
}

/// Reloading the configuration asks every instance that takes requests to do so
/// too, once, and no other.
pub proof fn law_reload_reaches_all_instances(instances: Seq<InstanceView>, index: usize)
    requires
        instances.len() <= usize::MAX,
    ensures
        requests_to(instances, "fleet-reload-config"@, MethodView::ServerReloadConfig).contains(
            EffectView::Request {
                index,
                id: "fleet-reload-config"@,
                method: MethodView::ServerReloadConfig,
            },
        ) <==> index < instances.len() && instances[index as int].accepts_requests,
    decreases instances.len(),
{
    let id = "fleet-reload-config"@;
    let method = MethodView::ServerReloadConfig;
    let wanted = EffectView::Request { index, id, method };
    let all = requests_to(instances, id, method);
    if instances.len() == 0 {
        assert(!all.contains(wanted));
    } else {
        let front = instances.drop_last();
        law_reload_reaches_all_instances(front, index);
        let rest = requests_to(front, id, method);
        let last = EffectView::Request { index: (instances.len() - 1) as usize, id, method };
        if instances.last().accepts_requests {
            assert(all == rest.push(last));
            assert(all[rest.len() as int] == last);
            if rest.contains(wanted) {
                let i = choose|i: int| 0 <= i < rest.len() && rest[i] == wanted;
                assert(all[i] == wanted);
            }
            if all.contains(wanted) {
                let i = choose|i: int| 0 <= i < all.len() && all[i] == wanted;
                if i < rest.len() {
                    assert(rest[i] == wanted);
                }
            }
        }
        if index < front.len() {
            assert(front[index as int] == instances[index as int]);
        }
    }
}

} // verus!
