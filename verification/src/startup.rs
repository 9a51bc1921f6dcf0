//! The fleet client when it starts: its instances, its shell, and its state.

use vstd::prelude::*;
use vstd::string::*;

use crate::app_state::{shell_model, AppState, AppStateView, SidebarWidthSource};
use crate::compare::{copy_option_text, result_view, views};
use crate::fleet_state::{
    copy_texts, emitting, with_instance, FleetState, FleetView, HostState, HostStateView,
};
use crate::instance::{
    instance_model, keep_taking_requests, ApiTarget, ApiTargetView, Instance, InstanceView,
};
use crate::messages::{BridgeSockets, BridgeSocketsView, Effect, EffectView};
use crate::projection::Projection;
use crate::registry::{
    enabled_of, FleetPresentation, FleetPresentationView, FleetRegistry, RemoteInstance,
    RemoteInstanceView,
};
use crate::visual::{clamp_width, clamped, copy_key, FleetVisualConfig, FleetVisualConfigView};

verus! {

/// The id of the instance of this machine.
pub const LOCAL_INSTANCE_ID: &'static str = "local";

/// An instance about which nothing is known yet.
pub open spec fn fresh_instance(
    id: Seq<char>,
    name: Seq<char>,
    mouse_capture: bool,
) -> InstanceView {
    InstanceView {
        id,
        name,
        remote_target: None,
        remote_session: None,
        bridge_connecting: false,
        connected: false,
        api_target: None,
        snapshot: None,
        frame: None,
        error: None,
        mouse_capture,
        keyboard_report_all: false,
        prefix_input_active: false,
        window_title: None,
        accepts_requests: false,
        client_socket: None,
    }
}

/// The instance of this machine.
pub open spec fn local_instance(
    session: Seq<char>,
    socket: Seq<char>,
    mouse_capture: bool,
) -> InstanceView {
    InstanceView {
        api_target: Some(ApiTargetView::LocalSession(session)),
        client_socket: Some(socket),
        ..fresh_instance(LOCAL_INSTANCE_ID@, "local"@, mouse_capture)
    }
}

/// The instance of a configured remote.
pub open spec fn remote_instance(remote: RemoteInstanceView, mouse_capture: bool) -> InstanceView {
    InstanceView {
        remote_target: Some(remote.target),
        remote_session: remote.session,
        ..fresh_instance(remote.id, remote.name, mouse_capture)
    }
}

/// The instances of a fleet: that of this machine, and those of the enabled
/// remotes.
pub open spec fn fleet_instances(
    session: Seq<char>,
    socket: Seq<char>,
    remotes: Seq<RemoteInstanceView>,
    mouse_capture: bool,
) -> Seq<InstanceView> {
    seq![local_instance(session, socket, mouse_capture)] + enabled_of(remotes).map_values(
        |remote: RemoteInstanceView| remote_instance(remote, mouse_capture),
    )
}

fn new_instance(id: String, name: String, mouse_capture: bool) -> (r: Instance)
    ensures
        r@ == fresh_instance(id@, name@, mouse_capture),
{
    proof {
        reveal(instance_model);
    }
    Instance {
        id,
        name,
        remote_target: None,
        remote_session: None,
        bridge_connecting: false,
        connected: false,
        api_target: None,
        snapshot: None,
        frame: None,
        error: None,
        mouse_capture,
        keyboard_report_all: false,
        prefix_input_active: false,
        window_title: None,
        accepts_requests: false,
        client_socket: None,
    }
}

/// The instances that a fleet starts with. `session` is the active session of
/// this machine, and `socket` is where its content is reached.
pub fn initial_instances(
    session: String,
    socket: String,
    registry: &FleetRegistry,
    mouse_capture: bool,
) -> (r: Vec<Instance>)
    ensures
        views(r@) == fleet_instances(session@, socket@, registry@.instances, mouse_capture),
{
    proof {
        reveal(instance_model);
    }
    let mut instances: Vec<Instance> = Vec::new();
    let mut local = new_instance(
        LOCAL_INSTANCE_ID.to_string(),
        "local".to_string(),
        mouse_capture,
    );
    local.api_target = Some(ApiTarget::LocalSession(session));
    local.client_socket = Some(socket);
    let ghost first = local@;
    assert(first == local_instance(session@, socket@, mouse_capture));
    instances.push(local);
    let remotes = registry.enabled_instances();
    let ghost all = enabled_of(registry@.instances);
    let ghost wanted = fleet_instances(session@, socket@, registry@.instances, mouse_capture);
    let mut i: usize = 0;
    assert(views(instances@) =~= wanted.take(1));
    while i < remotes.len()
        invariant
            i <= remotes@.len(),
            views(remotes@) == all,
            all == enabled_of(registry@.instances),
            wanted == fleet_instances(session@, socket@, registry@.instances, mouse_capture),
            views(instances@) == wanted.take(i + 1),
        decreases remotes@.len() - i,
    {
        proof {
            reveal(instance_model);
        }
        let ghost before = views(instances@);
        let remote: &RemoteInstance = remotes[i];
        assert(all[i as int] == remote@);
        let mut instance = new_instance(
            remote.id.as_str().to_string(),
            remote.name.clone(),
            mouse_capture,
        );
        instance.remote_target = Some(remote.target.clone());
        instance.remote_session = copy_option_text(&remote.session);
        assert(instance@ == remote_instance(remote@, mouse_capture));
        instances.push(instance);
        assert(views(instances@) =~= before.push(instance@));
        assert(wanted[i + 1] == instance@);
        assert(views(instances@) =~= wanted.take(i + 2));
        i += 1;
    }
    assert(wanted.take(i + 1) =~= wanted);
    instances
}

/// An instance once its bridge was started, or could not be. `connected` tells
/// whether its content was reached through the bridge.
pub open spec fn bridged(
    instance: InstanceView,
    result: Result<BridgeSocketsView, Seq<char>>,
    connected: bool,
) -> InstanceView {
    match result {
        Ok(bridge) => InstanceView {
            api_target: Some(ApiTargetView::SocketPath(bridge.api_socket)),
            client_socket: Some(bridge.client_socket),
            connected,
            error: if connected {
                instance.error
            } else {
                Some("app connection failed"@)
            },
            ..instance
        },
        Err(error) => InstanceView { error: Some(error), ..instance },
    }
}

/// The instance of this machine once its content was reached, or could not be.
pub open spec fn reached(instance: InstanceView, result: Result<(), String>) -> InstanceView {
    InstanceView { connected: instance.connected || result is Ok, ..instance }
}

impl Instance {
    /// Takes in what came of reaching the content of this machine. Without it
    /// there is nothing to start with, so a failure is handed back.
    pub fn take_local_content(&mut self, result: Result<(), String>) -> (r: Result<(), String>)
        ensures
            final(self)@ == reached(old(self)@, result),
            r == result,
    {
        proof {
            reveal(instance_model);
        }
        if result.is_ok() {
            self.connected = true;
        }
        result
    }

    /// Takes in what came of starting the instance's bridge.
    pub fn take_first_bridge(&mut self, result: Result<BridgeSockets, String>, connected: bool)
        ensures
            final(self)@ == bridged(old(self)@, result_view(result), connected),
    {
        proof {
            reveal(instance_model);
        }
        match result {
            Ok(bridge) => {
                self.api_target = Some(ApiTarget::SocketPath(bridge.api_socket));
                self.client_socket = Some(bridge.client_socket);
                self.connected = connected;
                if !connected {
                    self.error = Some("app connection failed".to_string());
                }
            },
            Err(error) => {
                self.error = Some(error);
            },
        }
    }
}

/// The shell with the layout that the registry keeps.
pub open spec fn laid_out(app: AppStateView, presentation: FleetPresentationView) -> AppStateView {
    let sized = match presentation.sidebar_width {
        Some(width) => AppStateView {
            sidebar_width: clamped(width, app.sidebar_min_width, app.sidebar_max_width),
            sidebar_width_source: SidebarWidthSource::Persisted,
            ..app
        },
        None => app,
    };
    AppStateView {
        sidebar_section_split: match presentation.sidebar_section_split {
            Some(split) => split,
            None => sized.sidebar_section_split,
        },
        collapsed_space_keys: presentation.collapsed_space_keys,
        ..sized
    }
}

/// Lays the shell out as the registry keeps it.
pub fn restore_presentation(app: &mut AppState, presentation: &FleetPresentation)
    requires
        presentation.sidebar_width is Some ==> old(app).sidebar_min_width <= old(
            app,
        ).sidebar_max_width,
    ensures
        final(app)@ == laid_out(old(app)@, presentation@),
{
    proof {
        reveal(shell_model);
    }
    if let Some(width) = presentation.sidebar_width {
        app.sidebar_width = clamp_width(width, app.sidebar_min_width, app.sidebar_max_width);
        app.sidebar_width_source = SidebarWidthSource::Persisted;
    }
    if let Some(split) = presentation.sidebar_section_split {
        app.sidebar_section_split = split;
    }
    app.collapsed_space_keys = copy_texts(&presentation.collapsed_space_keys);
}

/// The screen that the fleet client starts on.
#[derive(Debug, Clone, Copy, PartialEq, Eq, Structural)]
pub struct Screen {
    pub cols: u16,
    pub rows: u16,
    pub cell_width_px: u32,
    pub cell_height_px: u32,
}

/// The host terminal as the fleet client finds it.
pub open spec fn initial_host(screen: Screen, visual: FleetVisualConfigView) -> HostStateView {
    HostStateView {
        mouse_capture_active: visual.settings.mouse_capture,
        keyboard_report_all_active: false,
        reported_cols: screen.cols,
        reported_rows: screen.rows,
        sound: visual.settings.sound,
        kitty_graphics_enabled: visual.kitty_graphics_enabled,
        mouse_scroll_lines: visual.mouse_scroll_lines,
        remote_image_paste_key: visual.remote_image_paste_key,
        redraw_on_focus_gained: visual.redraw_on_focus_gained,
        repaint_pending: true,
        draw_host_cursor: visual.draw_host_cursor,
    }
}

/// The state that the fleet client starts in: the first instance is active, and
/// nothing is wanted done.
pub open spec fn initial_state(
    instances: Seq<InstanceView>,
    sidebar: AppStateView,
    screen: Screen,
    visual: FleetVisualConfigView,
    now: u64,
) -> FleetView {
    FleetView {
        instances,
        active: 0,
        sidebar,
        projection: seq![],
        quit_requested: false,
        host: initial_host(screen, visual),
        pending_prefix_bytes: seq![],
        cell_width_px: screen.cell_width_px,
        cell_height_px: screen.cell_height_px,
        last_reconnect_attempt: now,
        visual,
        effects: seq![],
    }
}

/// What starts the threads of an instance: one that reads its content, and two
/// that talk to its API.
pub open spec fn start_effects(index: usize, instance: InstanceView) -> Seq<EffectView> {
    (if instance.connected {
        seq![EffectView::StartServerReader { index }]
    } else {
        seq![]
    }) + (match instance.api_target {
        Some(target) => seq![
            EffectView::StartApiWorker { index, target },
            EffectView::StartSnapshotWatcher { instance_id: instance.id, target },
        ],
        None => seq![],
    })
}

/// What starts the threads of all instances, in order.
pub open spec fn all_start_effects(instances: Seq<InstanceView>) -> Seq<EffectView>
    decreases instances.len(),
{
    if instances.len() == 0 {
        seq![]
    } else {
        all_start_effects(instances.drop_last()) + start_effects(
            (instances.len() - 1) as usize,
            instances.last(),
        )
    }
}

/// An instance once its threads are started.
pub open spec fn started_instance(instance: InstanceView) -> InstanceView {
    InstanceView {
        accepts_requests: instance.accepts_requests || instance.api_target is Some,
        ..instance
    }
}

/// The state once the threads of all instances are started.
pub open spec fn threads_started(state: FleetView) -> FleetView {
    FleetView {
        instances: state.instances.map_values(
            |instance: InstanceView| started_instance(instance),
        ),
        effects: state.effects + all_start_effects(state.instances),
        ..state
    }
}

/// A copy of an API target.
pub fn copy_target(target: &ApiTarget) -> (r: ApiTarget)
    ensures
        r == *target,
{
    match target {
        ApiTarget::LocalSession(name) => ApiTarget::LocalSession(name.clone()),
        ApiTarget::SocketPath(path) => ApiTarget::SocketPath(path.clone()),
    }
}

/// What starts the threads of an instance.
fn start_list(index: usize, instance: &Instance) -> (r: Vec<Effect>)
    ensures
        views(r@) == start_effects(index, instance@),
{
    proof {
        reveal(instance_model);
    }
    let mut list: Vec<Effect> = Vec::new();
    if instance.connected {
        list.push(Effect::StartServerReader { index });
    }
    if let Some(target) = &instance.api_target {
        list.push(Effect::StartApiWorker { index, target: copy_target(target) });
        list.push(
            Effect::StartSnapshotWatcher {
                instance_id: instance.id.clone(),
                target: copy_target(target),
            },
        );
    }
    assert(views(list@) =~= start_effects(index, instance@));
    list
}

impl FleetState {
    /// The state that the fleet client starts in. `now` is a time in
    /// nanoseconds.
    pub fn start(
        instances: Vec<Instance>,
        sidebar: AppState,
        screen: Screen,
        visual: FleetVisualConfig,
        now: u64,
    ) -> (r: Self)
        ensures
            r@ == initial_state(views(instances@), sidebar@, screen, visual@, now),
    {
        let host = HostState {
            mouse_capture_active: visual.settings.mouse_capture,
            keyboard_report_all_active: false,
            reported_cols: screen.cols,
            reported_rows: screen.rows,
            sound: visual.settings.sound.clone(),
            kitty_graphics_enabled: visual.kitty_graphics_enabled,
            mouse_scroll_lines: visual.mouse_scroll_lines,
            remote_image_paste_key: copy_key(&visual.remote_image_paste_key),
            redraw_on_focus_gained: visual.redraw_on_focus_gained,
            repaint_pending: true,
            draw_host_cursor: visual.draw_host_cursor,
        };
        let r = FleetState {
            instances,
            active: 0,
            sidebar,
            projection: Projection::new(),
            quit_requested: false,
            host,
            pending_prefix_bytes: Vec::new(),
            cell_width_px: screen.cell_width_px,
            cell_height_px: screen.cell_height_px,
            last_reconnect_attempt: now,
            visual,
            effects: Vec::new(),
        };
        assert(r@.effects =~= seq![]);
        assert(r@.pending_prefix_bytes =~= seq![]);
        r
    }

    /// Starts the threads of an instance.
    fn start_one(&mut self, index: usize)
        requires
            index < old(self)@.instances.len(),
        ensures
            final(self)@ == with_instance(
                emitting(
                    old(self)@,
                    start_effects(index, old(self)@.instances[index as int]),
                ),
                index as int,
                started_instance(old(self)@.instances[index as int]),
            ),
    {
        proof {
            reveal(instance_model);
        }
        assert(self@.instances[index as int] == self.instances@[index as int]@);
        let ghost after = started_instance(self@.instances[index as int]);
        let mut list = start_list(index, &self.instances[index]);
        let ghost added = views(list@);
        self.effects.append(&mut list);
        assert(self@.effects =~= old(self)@.effects + added);
        if self.instances[index].api_target.is_some() {
            keep_taking_requests(&mut self.instances, index);
        }
        assert(self@.instances =~= old(self)@.instances.update(index as int, after));
    }

    /// Starts the threads of all instances.
    pub fn start_threads(&mut self)
        ensures
            final(self)@ == threads_started(old(self)@),
    {
        let ghost state = self@;
        let ghost all = state.instances;
        let mut i: usize = 0;
        assert(state.effects + all_start_effects(all.take(0)) =~= state.effects);
        let count: usize = self.instances.len();
        while i < count
            invariant
                i <= count,
                count == all.len(),
                self@.instances.len() == all.len(),
                all == state.instances,
                self@ == (FleetView {
                    instances: self@.instances,
                    effects: state.effects + all_start_effects(all.take(i as int)),
                    ..state
                }),
                forall|j: int|
                    0 <= j < i ==> #[trigger] self@.instances[j] == started_instance(all[j]),
                forall|j: int| i <= j < all.len() ==> #[trigger] self@.instances[j] == all[j],
            decreases count - i,
        {
            let ghost before = self@;
            assert(before.instances[i as int] == all[i as int]);
            self.start_one(i);
            proof {
                assert(all.take(i + 1).drop_last() =~= all.take(i as int));
                assert(all.take(i + 1).last() == all[i as int]);
                assert(self@.effects =~= state.effects + all_start_effects(all.take(i + 1)));
            }
            i += 1;
        }
        assert(all.take(i as int) =~= all);
        assert(self@.instances =~= threads_started(state).instances);
    }
}

/// A fleet shows this machine first, and after it the enabled remotes of the
/// registry, under their ids and names, and no others.
pub proof fn law_fleet_shows_the_enabled_remotes(
    session: Seq<char>,
    socket: Seq<char>,
    remotes: Seq<RemoteInstanceView>,
    mouse_capture: bool,
)
    ensures
        ({
            let instances = fleet_instances(session, socket, remotes, mouse_capture);
            let enabled = enabled_of(remotes);
            &&& instances.len() == enabled.len() + 1
            &&& instances[0].id == LOCAL_INSTANCE_ID@
            &&& instances[0].remote_target is None
            &&& forall|i: int|
                0 <= i < enabled.len() ==> (#[trigger] enabled[i]).id == instances[i + 1].id
                    && enabled[i].name == instances[i + 1].name && instances[i + 1].remote_target
                    == Some(enabled[i].target) && instances[i + 1].remote_session
                    == enabled[i].session
        }),
{
    let instances = fleet_instances(session, socket, remotes, mouse_capture);
    let enabled = enabled_of(remotes);
    assert forall|i: int| 0 <= i < enabled.len() implies (#[trigger] enabled[i]).id == instances[i
        + 1].id && enabled[i].name == instances[i + 1].name && instances[i + 1].remote_target
        == Some(enabled[i].target) && instances[i + 1].remote_session == enabled[i].session by {
        assert(instances[i + 1] == remote_instance(enabled[i], mouse_capture));
    }
}

/// A layout that is restored is the one that would be saved again, as far as the
/// bounds of the sidebar let it be.
pub proof fn law_restored_layout_is_kept(app: AppStateView, presentation: FleetPresentationView)
    requires
        presentation.sidebar_width matches Some(width) && app.sidebar_min_width <= width
            <= app.sidebar_max_width,
        presentation.sidebar_section_split is Some,
    ensures
        crate::fleet_state::current_presentation(laid_out(app, presentation)) == presentation,
{
}

/// A fleet that starts is sound, as long as it has an instance and its sidebar
/// has no rows yet.
pub proof fn law_fleet_starts_sound(
    instances: Seq<InstanceView>,
    sidebar: AppStateView,
    screen: Screen,
    visual: FleetVisualConfigView,
    now: u64,
)
    requires
        instances.len() > 0,
        sidebar.rows.len() == 0,
    ensures
        crate::fleet_state::is_sound(
            threads_started(initial_state(instances, sidebar, screen, visual, now)),
        ),
{
}

} // verus!
