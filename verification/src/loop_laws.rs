//! How the fleet client starts, goes on, and connects what was lost.

use vstd::prelude::*;
use vstd::string::*;

use crate::app_state::{AppStateView, ShellView, SidebarWidthSource};
use crate::fleet_events::event_handled;
use crate::fleet_state::{synced, FleetView, HostStateView};
use crate::instance::{ApiTargetView, InstanceView};
use crate::messages::{BridgeSocketsView, EffectView, FleetEventView};
use crate::raw_input::{is_remote_active, screen_resized};
use crate::reconnect::{
    content_handshake, reconnect_step, reconnect_steps, reconnecting, stream_connected,
    stream_refused, streams_reconnecting, ContentSize,
};
use crate::registry::{enabled_of, FleetPresentationView, RemoteInstanceView};
use crate::run_loop::{loop_begun, loop_stepped, LoopEventView};
use crate::startup::{
    all_start_effects, bridged, fleet_instances, initial_state, laid_out, reached, start_effects,
    threads_started, Screen,
};
use crate::visual::FleetVisualConfigView;

verus! {

/// Whether nothing is known of an instance but its id, its name, and how it is
/// reached.
pub open spec fn is_fresh(instance: InstanceView, mouse_capture: bool) -> bool {
    &&& !instance.bridge_connecting
    &&& !instance.connected
    &&& instance.snapshot is None
    &&& instance.frame is None
    &&& instance.error is None
    &&& instance.mouse_capture == mouse_capture
    &&& !instance.keyboard_report_all
    &&& !instance.prefix_input_active
    &&& instance.window_title is None
    &&& !instance.accepts_requests
}

proof fn lemma_enabled_of(remotes: Seq<RemoteInstanceView>)
    ensures
        enabled_of(remotes) == remotes.filter(|remote: RemoteInstanceView| remote.enabled),
    decreases remotes.len(),
{
    reveal(Seq::filter);
    if remotes.len() > 0 {
        lemma_enabled_of(remotes.drop_last());
    }
    assert(enabled_of(remotes) =~= remotes.filter(|remote: RemoteInstanceView| remote.enabled));
}

/// A fleet starts with this machine, which is reached by its session and its
/// socket, and then the enabled remotes in their order, which are reached by their
/// targets and sessions. Nothing else is known of any of them.
pub proof fn law_fleets_start_afresh(
    session: Seq<char>,
    socket: Seq<char>,
    remotes: Seq<RemoteInstanceView>,
    mouse_capture: bool,
    i: int,
)
    requires
        0 <= i < remotes.filter(|remote: RemoteInstanceView| remote.enabled).len(),
    ensures
        ({
            let enabled = remotes.filter(|remote: RemoteInstanceView| remote.enabled);
            let instances = fleet_instances(session, socket, remotes, mouse_capture);
            let local = instances[0];
            let remote = instances[i + 1];
            &&& instances.len() == enabled.len() + 1
            &&& is_fresh(local, mouse_capture)
            &&& local.id == "local"@
            &&& local.name == "local"@
            &&& local.remote_target is None
            &&& local.remote_session is None
            &&& local.api_target == Some(ApiTargetView::LocalSession(session))
            &&& local.client_socket == Some(socket)
            &&& is_fresh(remote, mouse_capture)
            &&& remote.id == enabled[i].id
            &&& remote.name == enabled[i].name
            &&& remote.remote_target == Some(enabled[i].target)
            &&& remote.remote_session == enabled[i].session
            &&& remote.api_target is None
            &&& remote.client_socket is None
        }),
{
    lemma_enabled_of(remotes);
}

/// A fleet without enabled remotes starts with this machine alone.
pub proof fn law_fleets_start_with_this_machine(
    session: Seq<char>,
    socket: Seq<char>,
    remotes: Seq<RemoteInstanceView>,
    mouse_capture: bool,
)
    requires
        forall|i: int| 0 <= i < remotes.len() ==> !(#[trigger] remotes[i]).enabled,
    ensures
        ({
            let instances = fleet_instances(session, socket, remotes, mouse_capture);
            &&& instances.len() == 1
            &&& is_fresh(instances[0], mouse_capture)
            &&& instances[0].id == "local"@
            &&& instances[0].name == "local"@
            &&& instances[0].remote_target is None
            &&& instances[0].api_target == Some(ApiTargetView::LocalSession(session))
            &&& instances[0].client_socket == Some(socket)
        }),
    decreases remotes.len(),
{
    if remotes.len() > 0 {
        let front = remotes.drop_last();
        assert forall|i: int| 0 <= i < front.len() implies !(#[trigger] front[i]).enabled by {
            assert(front[i] == remotes[i]);
        }
        assert(!remotes[remotes.len() - 1].enabled);
        law_fleets_start_with_this_machine(session, socket, front, mouse_capture);
    }
}

/// In a fleet as it starts, the active instance is a remote one exactly where it
/// has a target to be reached by.
pub proof fn law_remote_instances_have_targets(
    state: FleetView,
    session: Seq<char>,
    socket: Seq<char>,
    remotes: Seq<RemoteInstanceView>,
    mouse_capture: bool,
)
    requires
        state.instances == fleet_instances(session, socket, remotes, mouse_capture),
        state.active < state.instances.len(),
    ensures
        is_remote_active(state) <==> state.instances[state.active as int].remote_target is Some,
{
}

/// A bridge that was started is what its instance is reached by from then on, for
/// requests and for content. Whether its content was reached is known, and where it
/// was not, that is what is wrong. Of a bridge that failed only the reason is kept.
pub proof fn law_first_bridges_are_used(
    instance: InstanceView,
    bridge: BridgeSocketsView,
    error: Seq<char>,
    connected: bool,
)
    ensures
        ({
            let after = bridged(instance, Ok(bridge), connected);
            &&& after.api_target == Some(ApiTargetView::SocketPath(bridge.api_socket))
            &&& after.client_socket == Some(bridge.client_socket)
            &&& after.connected == connected
            &&& connected ==> after.error == instance.error
            &&& !connected ==> after.error == Some("app connection failed"@)
            &&& after == (InstanceView {
                api_target: after.api_target,
                client_socket: after.client_socket,
                connected: after.connected,
                error: after.error,
                ..instance
            })
        }),
        bridged(instance, Err(error), connected) == (InstanceView {
            error: Some(error),
            ..instance
        }),
{
}

/// The content of this machine counts as connected once it was reached.
pub proof fn law_local_content_is_connected(instance: InstanceView, error: String)
    ensures
        reached(instance, Ok(())) == (InstanceView { connected: true, ..instance }),
        reached(instance, Err(error)) == instance,
{
}

/// The layout that the registry keeps is the one that the shell starts with: the
/// width within its bounds, and known to be a kept one; the split; and the
/// collapsed spaces. What is not kept stays as it is.
pub proof fn law_kept_layouts_are_restored(app: AppStateView, kept: FleetPresentationView)
    requires
        app.sidebar_min_width <= app.sidebar_max_width,
    ensures
        ({
            let after = laid_out(app, kept);
            &&& after.collapsed_space_keys == kept.collapsed_space_keys
            &&& kept.sidebar_section_split matches Some(split) ==> after.sidebar_section_split
                == split
            &&& kept.sidebar_section_split is None ==> after.sidebar_section_split
                == app.sidebar_section_split
            &&& kept.sidebar_width is None ==> after.sidebar_width == app.sidebar_width
                && after.sidebar_width_source == app.sidebar_width_source
            &&& kept.sidebar_width matches Some(width) ==> {
                &&& after.sidebar_width_source == SidebarWidthSource::Persisted
                &&& width < app.sidebar_min_width ==> after.sidebar_width
                    == app.sidebar_min_width
                &&& app.sidebar_min_width <= width <= app.sidebar_max_width
                    ==> after.sidebar_width == width
                &&& width > app.sidebar_max_width ==> after.sidebar_width
                    == app.sidebar_max_width
            }
            &&& after == (AppStateView {
                collapsed_space_keys: after.collapsed_space_keys,
                sidebar_section_split: after.sidebar_section_split,
                sidebar_width: after.sidebar_width,
                sidebar_width_source: after.sidebar_width_source,
                ..app
            })
        }),
{
}

/// The client starts with its first instance active, a repaint due, nothing wanted
/// done, and with what the screen and the configuration say of the host.
pub proof fn law_clients_start_with_what_they_are_given(
    instances: Seq<InstanceView>,
    sidebar: AppStateView,
    screen: Screen,
    visual: FleetVisualConfigView,
    now: u64,
)
    ensures
        ({
            let state = initial_state(instances, sidebar, screen, visual, now);
            &&& state.instances == instances
            &&& state.active == 0
            &&& state.sidebar == sidebar
            &&& state.projection.len() == 0
            &&& !state.quit_requested
            &&& state.pending_prefix_bytes.len() == 0
            &&& state.cell_width_px == screen.cell_width_px
            &&& state.cell_height_px == screen.cell_height_px
            &&& state.last_reconnect_attempt == now
            &&& state.visual == visual
            &&& state.effects.len() == 0
            &&& state.host.mouse_capture_active == visual.settings.mouse_capture
            &&& !state.host.keyboard_report_all_active
            &&& state.host.reported_cols == screen.cols
            &&& state.host.reported_rows == screen.rows
            &&& state.host.sound == visual.settings.sound
            &&& state.host.kitty_graphics_enabled == visual.kitty_graphics_enabled
            &&& state.host.mouse_scroll_lines == visual.mouse_scroll_lines
            &&& state.host.remote_image_paste_key == visual.remote_image_paste_key
            &&& state.host.redraw_on_focus_gained == visual.redraw_on_focus_gained
            &&& state.host.repaint_pending
            &&& state.host.draw_host_cursor == visual.draw_host_cursor
        }),
{
}

/// Starting the threads adds those of each instance behind those of the ones
/// before it: a reader where it is connected, and, where its API is known, a worker
/// and a watcher for it. An instance with a worker takes requests from then on.
pub proof fn law_threads_are_started_in_order(
    state: FleetView,
    instances: Seq<InstanceView>,
    instance: InstanceView,
    i: int,
)
    requires
        0 <= i < state.instances.len(),
        instances.len() < usize::MAX,
    ensures
        ({
            let index = instances.len() as usize;
            let before = threads_started(FleetView { instances, ..state });
            let after = threads_started(
                FleetView { instances: instances.push(instance), ..state },
            );
            let read = if instance.connected {
                before.effects.push(EffectView::StartServerReader { index })
            } else {
                before.effects
            };
            &&& instance.api_target is None ==> after.effects == read
            &&& instance.api_target matches Some(target) ==> after.effects == read.push(
                EffectView::StartApiWorker { index, target },
            ).push(EffectView::StartSnapshotWatcher { instance_id: instance.id, target })
        }),
        ({
            let none = threads_started(FleetView { instances: Seq::empty(), ..state });
            none.effects == state.effects
        }),
        ({
            let after = threads_started(state);
            let old = state.instances[i];
            &&& after.instances.len() == state.instances.len()
            &&& after.instances[i] == (InstanceView {
                accepts_requests: old.accepts_requests || old.api_target is Some,
                ..old
            })
            &&& after == (FleetView {
                instances: after.instances,
                effects: after.effects,
                ..state
            })
        }),
{
    let index = instances.len() as usize;
    let before = threads_started(FleetView { instances, ..state });
    let after = threads_started(FleetView { instances: instances.push(instance), ..state });
    assert(instances.push(instance).drop_last() =~= instances);
    assert(after.effects =~= before.effects + start_effects(index, instance));
    let read = if instance.connected {
        before.effects.push(EffectView::StartServerReader { index })
    } else {
        before.effects
    };
    match instance.api_target {
        Some(target) => {
            assert(after.effects =~= read.push(EffectView::StartApiWorker { index, target }).push(
                EffectView::StartSnapshotWatcher { instance_id: instance.id, target },
            ));
        },
        None => {
            assert(after.effects =~= read);
        },
    }
    assert(state.effects + all_start_effects(Seq::empty()) =~= state.effects);
}

/// An instance is told the size that its content is shown at, to send frames with
/// their meaning, and that the content alone is shown, without a direct attachment.
pub proof fn law_content_is_asked_for(size: ContentSize)
    ensures
        content_handshake(size).size == size,
        content_handshake(size).encoding is SemanticFrame,
        !content_handshake(size).direct_attach,
        content_handshake(size).surface is Content,
{
}

/// A connected instance needs nothing. One whose socket is known is connected
/// through it, at the size of the content. A remote one without a socket gets a
/// bridge, unless it waits for one. Anything else cannot be connected.
pub proof fn law_lost_instances_are_connected(
    index: usize,
    instance: InstanceView,
    size: ContentSize,
)
    ensures
        ({
            let step = reconnect_step(index, instance, size);
            let after = reconnecting(index, instance, size);
            let bridging = !instance.connected && instance.client_socket is None
                && !instance.bridge_connecting && instance.remote_target is Some;
            &&& instance.connected ==> step is None
            &&& !instance.connected && instance.client_socket is Some ==> step == Some(
                EffectView::ConnectContent {
                    index,
                    socket: instance.client_socket->0,
                    cols: size.cols,
                    rows: size.rows,
                    cell_width_px: size.cell_width_px,
                    cell_height_px: size.cell_height_px,
                },
            )
            &&& bridging ==> step == Some(
                EffectView::StartBridge {
                    instance_id: instance.id,
                    target: instance.remote_target->0,
                    session: instance.remote_session,
                },
            )
            &&& !instance.connected && instance.client_socket is None && !bridging ==> step is None
            &&& after == (InstanceView {
                bridge_connecting: instance.bridge_connecting || bridging,
                ..instance
            })
        }),
{
}

/// What connects the instances comes in their order: one more instance adds what
/// connects it behind the rest.
pub proof fn law_instances_are_connected_in_order(
    instances: Seq<InstanceView>,
    instance: InstanceView,
    size: ContentSize,
)
    ensures
        reconnect_steps(Seq::empty(), size).len() == 0,
        reconnect_steps(instances.push(instance), size) == match reconnect_step(
            instances.len() as usize,
            instance,
            size,
        ) {
            Some(effect) => reconnect_steps(instances, size).push(effect),
            None => reconnect_steps(instances, size),
        },
{
    assert(instances.push(instance).drop_last() =~= instances);
}

/// Lost content streams are connected again once three quarters of a second have
/// passed since the last attempt, at the size that the content has then, and not
/// before.
pub proof fn law_attempts_are_made_in_time(
    state: FleetView,
    now: u64,
    view: ShellView,
    i: int,
)
    requires
        0 <= i < state.instances.len() <= usize::MAX,
    ensures
        ({
            let after = streams_reconnecting(state, now, view);
            let size = ContentSize {
                cols: if view.terminal_area.width < 2 {
                    2
                } else {
                    view.terminal_area.width
                },
                rows: if view.terminal_area.height == 0 {
                    1
                } else {
                    view.terminal_area.height
                },
                cell_width_px: state.cell_width_px,
                cell_height_px: state.cell_height_px,
            };
            &&& now < state.last_reconnect_attempt + 750_000_000 ==> after == state
            &&& now >= state.last_reconnect_attempt + 750_000_000 ==> {
                &&& after.last_reconnect_attempt == now
                &&& after.sidebar == (AppStateView { view, ..state.sidebar })
                &&& after.instances.len() == state.instances.len()
                &&& after.instances[i] == reconnecting(i as usize, state.instances[i], size)
                &&& after.effects == state.effects + reconnect_steps(state.instances, size)
                &&& after == (FleetView {
                    last_reconnect_attempt: after.last_reconnect_attempt,
                    sidebar: after.sidebar,
                    instances: after.instances,
                    effects: after.effects,
                    ..state
                })
            }
        }),
{
}

/// An instance whose content stream was had is connected and nothing is wrong with
/// it, and the screen is painted again. Of one that was refused only the reason is
/// kept. No other instance is touched.
pub proof fn law_connections_are_known(
    state: FleetView,
    index: int,
    error: Seq<char>,
)
    requires
        0 <= index < state.instances.len(),
    ensures
        stream_connected(state, index) == (FleetView {
            instances: state.instances.update(
                index,
                InstanceView { connected: true, error: None, ..state.instances[index] },
            ),
            host: HostStateView { repaint_pending: true, ..state.host },
            ..state
        }),
        stream_refused(state, index, error) == (FleetView {
            instances: state.instances.update(
                index,
                InstanceView { error: Some(error), ..state.instances[index] },
            ),
            ..state
        }),
{
}

/// Streams of instances that there are not change nothing.
pub proof fn law_unknown_connections_change_nothing(
    state: FleetView,
    index: int,
    error: Seq<char>,
)
    requires
        index >= state.instances.len(),
    ensures
        stream_connected(state, index) == state,
        stream_refused(state, index, error) == state,
{
}

/// The loop begins with the threads started and the sidebar up to date, and
/// renders last.
pub proof fn law_loop_begins_with_a_render(state: FleetView, view: ShellView)
    ensures
        ({
            let ready = synced(threads_started(state), view);
            loop_begun(state, view) == (FleetView {
                effects: ready.effects.push(EffectView::Render),
                ..ready
            })
        }),
{
}

/// Whatever happens to an instance is rendered last, and the sidebar is brought up
/// to date before that where the event changed what it shows. Another size of the
/// screen, and time that passes, are dealt with as such.
pub proof fn law_loop_deals_with_each_event(
    state: FleetView,
    event: FleetEventView,
    cols: u16,
    rows: u16,
    cell_width_px: u32,
    cell_height_px: u32,
    now: u64,
    view: ShellView,
)
    ensures
        ({
            let (handled, changed) = event_handled(state, event);
            let after = loop_stepped(state, LoopEventView::Fleet(event), view);
            let shown = synced(handled, view);
            &&& changed ==> after == (FleetView {
                effects: shown.effects.push(EffectView::Render),
                ..shown
            })
            &&& !changed ==> after == (FleetView {
                effects: handled.effects.push(EffectView::Render),
                ..handled
            })
        }),
        loop_stepped(
            state,
            LoopEventView::Resize { cols, rows, cell_width_px, cell_height_px },
            view,
        ) == screen_resized(state, cols, rows, cell_width_px, cell_height_px, view),
        loop_stepped(state, LoopEventView::Tick { now }, view) == streams_reconnecting(
            state,
            now,
            view,
        ),
{
}

} // verus!
