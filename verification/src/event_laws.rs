//! What each thing that happens to an instance comes to.

use vstd::prelude::*;

use crate::app_state::ShellView;
use crate::fleet_events::{
    bridge_ready, event_handled, instance_ids, instance_place, message_received, snapshot_received,
    wish_received,
};
use crate::fleet_state::{FleetView, HostStateView};
use crate::frame::FrameView;
use crate::instance::{ApiTargetView, InstanceView};
use crate::messages::{BridgeSocketsView, EffectView, FleetEventView, ServerMessageView};
use crate::projection::lemma_key_number;
use crate::render::{base_rendered, law_active_content_is_rendered};
use crate::snapshot::SnapshotView;

verus! {

/// Whether the instance at a place is the first one with an id.
pub open spec fn is_first(instances: Seq<InstanceView>, id: Seq<char>, index: int) -> bool {
    &&& 0 <= index < instances.len() <= usize::MAX
    &&& instances[index].id == id
    &&& forall|i: int| 0 <= i < index ==> (#[trigger] instances[i]).id != id
}

proof fn lemma_first_is_found(instances: Seq<InstanceView>, id: Seq<char>, index: int)
    requires
        is_first(instances, id, index),
    ensures
        instance_place(instances, id) == index,
{
    let ids = instance_ids(instances);
    assert forall|i: int| 0 <= i < index implies ids[i] != id by {
        assert(instances[i].id != id);
    }
    lemma_key_number(ids, id, index);
}

/// Something that happens to an instance that is not known changes nothing.
pub proof fn law_events_of_strangers_change_nothing(
    state: FleetView,
    id: Seq<char>,
    message: ServerMessageView,
    bridge: Result<BridgeSocketsView, Seq<char>>,
    snapshot: Result<SnapshotView, Seq<char>>,
)
    requires
        forall|i: int| 0 <= i < state.instances.len() ==> (#[trigger] state.instances[i]).id != id,
    ensures
        event_handled(state, FleetEventView::ServerMessage { instance_id: id, message }) == (
            state,
            false,
        ),
        event_handled(state, FleetEventView::BridgeReady { instance_id: id, result: bridge }) == (
            state,
            false,
        ),
        event_handled(state, FleetEventView::Snapshot { instance_id: id, result: snapshot }) == (
            state,
            false,
        ),
        event_handled(state, FleetEventView::Disconnected { instance_id: id }) == (state, false),
{
    let ids = instance_ids(state.instances);
    assert forall|i: int| 0 <= i < ids.len() implies ids[i] != id by {
        assert(state.instances[i].id != id);
    }
    lemma_key_number(ids, id, ids.len() as int);
}

/// A frame that an instance sends is what the instance shows from then on. It is
/// no news for the sidebar, and nothing else changes.
pub proof fn law_frames_are_shown(
    state: FleetView,
    id: Seq<char>,
    index: int,
    frame: FrameView,
)
    requires
        is_first(state.instances, id, index),
    ensures
        ({
            let message = ServerMessageView::Frame { frame };
            let (after, changed) = event_handled(
                state,
                FleetEventView::ServerMessage { instance_id: id, message },
            );
            &&& !changed
            &&& after.instances[index].frame == Some(frame)
            &&& after == (FleetView {
                instances: state.instances.update(
                    index,
                    InstanceView { frame: Some(frame), ..state.instances[index] },
                ),
                ..state
            })
        }),
{
    lemma_first_is_found(state.instances, id, index);
    reveal(message_received);
    reveal(wish_received);
}

/// A frame that the active instance sends is what is rendered next: each of its
/// cells lies as far to the right and down as the content area does.
pub proof fn law_frames_are_rendered(
    state: FleetView,
    id: Seq<char>,
    index: int,
    frame: FrameView,
    cols: u16,
    rows: u16,
    view: ShellView,
    row: int,
    column: int,
)
    requires
        is_first(state.instances, id, index),
        index == state.active,
        cols > 0,
        rows > 0,
        view.terminal_area.x + view.terminal_area.width <= cols,
        view.terminal_area.y + view.terminal_area.height <= rows,
        frame.cells.len() >= frame.width * frame.height,
        0 <= row < view.terminal_area.height,
        0 <= column < view.terminal_area.width,
        row < frame.height,
        column < frame.width,
    ensures
        ({
            let message = ServerMessageView::Frame { frame };
            let (after, changed) = event_handled(
                state,
                FleetEventView::ServerMessage { instance_id: id, message },
            );
            let area = view.terminal_area;
            &&& base_rendered(after, cols, rows, view).1 matches Some(base) && base.cells[(area.y
                + row) * cols + (area.x + column)] == frame.cells[row * frame.width + column]
        }),
{
    lemma_first_is_found(state.instances, id, index);
    law_frames_are_shown(state, id, index, frame);
    let after = event_handled(
        state,
        FleetEventView::ServerMessage {
            instance_id: id,
            message: ServerMessageView::Frame { frame },
        },
    ).0;
    law_active_content_is_rendered(after, cols, rows, view, frame, row, column);
}

/// A title is that of the instance that sends it, and the host takes it on where
/// that instance is the active one.
pub proof fn law_titles_are_kept(
    state: FleetView,
    id: Seq<char>,
    index: int,
    title: Option<Seq<char>>,
)
    requires
        is_first(state.instances, id, index),
    ensures
        ({
            let message = ServerMessageView::WindowTitle { title };
            let (after, changed) = event_handled(
                state,
                FleetEventView::ServerMessage { instance_id: id, message },
            );
            &&& !changed
            &&& after == (FleetView {
                instances: state.instances.update(
                    index,
                    InstanceView { window_title: title, ..state.instances[index] },
                ),
                effects: if index == state.active {
                    state.effects.push(EffectView::WriteWindowTitle { title })
                } else {
                    state.effects
                },
                ..state
            })
        }),
{
    lemma_first_is_found(state.instances, id, index);
    reveal(message_received);
    reveal(wish_received);
}

/// What the active instance puts on the clipboard goes to the clipboard of the
/// host, and what another one puts there goes nowhere.
pub proof fn law_clipboards_are_forwarded(
    state: FleetView,
    id: Seq<char>,
    index: int,
    data: Seq<u8>,
)
    requires
        is_first(state.instances, id, index),
    ensures
        ({
            let message = ServerMessageView::Clipboard { data };
            let (after, changed) = event_handled(
                state,
                FleetEventView::ServerMessage { instance_id: id, message },
            );
            &&& !changed
            &&& index == state.active ==> after.effects == state.effects.push(
                EffectView::ForwardClipboard { data },
            )
            &&& index != state.active ==> after.effects == state.effects
            &&& after == (FleetView { effects: after.effects, ..state })
        }),
{
    lemma_first_is_found(state.instances, id, index);
    reveal(message_received);
    reveal(wish_received);
}

/// What an instance has to tell the user is told, whether the instance is active
/// or not.
pub proof fn law_notifications_are_passed_on(
    state: FleetView,
    id: Seq<char>,
    index: int,
    kind: Seq<char>,
    text: Seq<char>,
    body: Option<Seq<char>>,
)
    requires
        is_first(state.instances, id, index),
    ensures
        ({
            let message = ServerMessageView::Notify { kind, message: text, body };
            let (after, changed) = event_handled(
                state,
                FleetEventView::ServerMessage { instance_id: id, message },
            );
            &&& !changed
            &&& after.effects == state.effects.push(
                EffectView::Notify { kind, message: text, body },
            )
            &&& after == (FleetView { effects: after.effects, ..state })
        }),
{
    lemma_first_is_found(state.instances, id, index);
    reveal(message_received);
    reveal(wish_received);
}

/// Whether an instance wants the mouse is kept with it, and the host follows the
/// active one.
pub proof fn law_mouse_wishes_are_kept(
    state: FleetView,
    id: Seq<char>,
    index: int,
    enabled: bool,
)
    requires
        is_first(state.instances, id, index),
    ensures
        ({
            let message = ServerMessageView::MouseCapture { enabled };
            let (after, changed) = event_handled(
                state,
                FleetEventView::ServerMessage { instance_id: id, message },
            );
            &&& !changed
            &&& after == (FleetView {
                instances: state.instances.update(
                    index,
                    InstanceView { mouse_capture: enabled, ..state.instances[index] },
                ),
                effects: if index == state.active {
                    state.effects.push(EffectView::ApplyHostModes)
                } else {
                    state.effects
                },
                ..state
            })
        }),
{
    lemma_first_is_found(state.instances, id, index);
    reveal(message_received);
    reveal(wish_received);
}

/// Whether an instance wants all keys reported is kept with it, and the host
/// follows the active one.
pub proof fn law_keyboard_wishes_are_kept(
    state: FleetView,
    id: Seq<char>,
    index: int,
    enabled: bool,
)
    requires
        is_first(state.instances, id, index),
    ensures
        ({
            let message = ServerMessageView::KittyKeyboardReportAll { enabled };
            let (after, changed) = event_handled(
                state,
                FleetEventView::ServerMessage { instance_id: id, message },
            );
            &&& !changed
            &&& after == (FleetView {
                instances: state.instances.update(
                    index,
                    InstanceView { keyboard_report_all: enabled, ..state.instances[index] },
                ),
                effects: if index == state.active {
                    state.effects.push(EffectView::ApplyHostModes)
                } else {
                    state.effects
                },
                ..state
            })
        }),
{
    lemma_first_is_found(state.instances, id, index);
    reveal(message_received);
    reveal(wish_received);
}

/// Whether an instance is in a prefix is kept with it. The input source of the
/// host is switched when the active one enters a prefix, and restored when it
/// leaves it.
pub proof fn law_prefix_wishes_are_kept(
    state: FleetView,
    id: Seq<char>,
    index: int,
    active: bool,
)
    requires
        is_first(state.instances, id, index),
    ensures
        ({
            let message = ServerMessageView::PrefixInputSource { active };
            let (after, changed) = event_handled(
                state,
                FleetEventView::ServerMessage { instance_id: id, message },
            );
            let effect = if active {
                EffectView::SwitchPrefixInput
            } else {
                EffectView::RestorePrefixInput
            };
            &&& !changed
            &&& after == (FleetView {
                instances: state.instances.update(
                    index,
                    InstanceView { prefix_input_active: active, ..state.instances[index] },
                ),
                effects: if index == state.active {
                    state.effects.push(effect)
                } else {
                    state.effects
                },
                ..state
            })
        }),
{
    lemma_first_is_found(state.instances, id, index);
    reveal(message_received);
    reveal(wish_received);
}

/// An instance that asks for it has the configuration read again, that of the host
/// first and then that of the shell, and the sidebar brought up to date.
pub proof fn law_configurations_are_read_again(
    state: FleetView,
    id: Seq<char>,
    index: int,
)
    requires
        is_first(state.instances, id, index),
    ensures
        ({
            let message = ServerMessageView::ReloadSoundConfig;
            let (after, changed) = event_handled(
                state,
                FleetEventView::ServerMessage { instance_id: id, message },
            );
            &&& changed
            &&& after == (FleetView {
                effects: state.effects.push(EffectView::ReloadLocalConfig).push(
                    EffectView::ReloadVisualConfig,
                ),
                ..state
            })
        }),
{
    lemma_first_is_found(state.instances, id, index);
    reveal(message_received);
    reveal(wish_received);
}

/// An instance that shuts down is lost: it shows nothing, is not written to, and
/// says why, in its own words where it gives any. The sidebar takes note.
pub proof fn law_shutdowns_are_told(
    state: FleetView,
    id: Seq<char>,
    index: int,
    reason: Option<Seq<char>>,
)
    requires
        is_first(state.instances, id, index),
    ensures
        ({
            let message = ServerMessageView::ServerShutdown { reason };
            let (after, changed) = event_handled(
                state,
                FleetEventView::ServerMessage { instance_id: id, message },
            );
            let lost = after.instances[index];
            &&& changed
            &&& reason is Some ==> lost.error == reason
            &&& reason is None ==> lost.error == Some("server shut down"@)
            &&& !lost.connected
            &&& lost.frame is None
            &&& after == (FleetView {
                instances: state.instances.update(
                    index,
                    InstanceView {
                        error: lost.error,
                        connected: false,
                        frame: None,
                        ..state.instances[index]
                    },
                ),
                ..state
            })
        }),
{
    lemma_first_is_found(state.instances, id, index);
    reveal(message_received);
    reveal(wish_received);
}

/// A message that a fleet client has no use for changes nothing.
pub proof fn law_other_messages_change_nothing(
    state: FleetView,
    id: Seq<char>,
    index: int,
    message: ServerMessageView,
)
    requires
        is_first(state.instances, id, index),
        message is Terminal || message is Graphics || message is Other,
    ensures
        ({
            let (after, changed) = event_handled(
                state,
                FleetEventView::ServerMessage { instance_id: id, message },
            );
            after == state && !changed
        }),
{
    lemma_first_is_found(state.instances, id, index);
    reveal(message_received);
    reveal(wish_received);
}

/// An instance whose content stream ends is lost: it shows nothing, is not written
/// to, and is said to be disconnected. The sidebar takes note.
pub proof fn law_disconnects_are_told(
    state: FleetView,
    id: Seq<char>,
    index: int,
)
    requires
        is_first(state.instances, id, index),
    ensures
        ({
            let (after, changed) = event_handled(
                state,
                FleetEventView::Disconnected { instance_id: id },
            );
            &&& changed
            &&& after == (FleetView {
                instances: state.instances.update(
                    index,
                    InstanceView {
                        error: Some("disconnected"@),
                        connected: false,
                        frame: None,
                        ..state.instances[index]
                    },
                ),
                ..state
            })
        }),
{
    lemma_first_is_found(state.instances, id, index);
}

/// A bridge that is ready is where its instance is reached from then on, for
/// content and for requests; what was wrong is forgotten, and requests and
/// snapshots go by it. The bridge is kept, and the screen painted again.
pub proof fn law_ready_bridges_are_used(
    state: FleetView,
    id: Seq<char>,
    index: int,
    bridge: BridgeSocketsView,
)
    requires
        is_first(state.instances, id, index),
    ensures
        ({
            let (after, changed) = event_handled(
                state,
                FleetEventView::BridgeReady { instance_id: id, result: Ok(bridge) },
            );
            let target = ApiTargetView::SocketPath(bridge.api_socket);
            &&& changed
            &&& after == (FleetView {
                instances: state.instances.update(
                    index,
                    InstanceView {
                        bridge_connecting: false,
                        client_socket: Some(bridge.client_socket),
                        api_target: Some(target),
                        accepts_requests: true,
                        error: None,
                        ..state.instances[index]
                    },
                ),
                effects: state.effects.push(
                    EffectView::StartApiWorker { index: index as usize, target },
                ).push(EffectView::StartSnapshotWatcher { instance_id: id, target }).push(
                    EffectView::KeepBridge,
                ),
                host: HostStateView { repaint_pending: true, ..state.host },
                ..state
            })
        }),
{
    lemma_first_is_found(state.instances, id, index);
    reveal(bridge_ready);
}

/// A bridge that could not be had leaves its instance free for another attempt,
/// and the instance says why. The screen is painted again.
pub proof fn law_failed_bridges_are_told(
    state: FleetView,
    id: Seq<char>,
    index: int,
    error: Seq<char>,
)
    requires
        is_first(state.instances, id, index),
    ensures
        ({
            let (after, changed) = event_handled(
                state,
                FleetEventView::BridgeReady { instance_id: id, result: Err(error) },
            );
            &&& changed
            &&& after == (FleetView {
                instances: state.instances.update(
                    index,
                    InstanceView {
                        bridge_connecting: false,
                        error: Some(error),
                        ..state.instances[index]
                    },
                ),
                host: HostStateView { repaint_pending: true, ..state.host },
                ..state
            })
        }),
{
    lemma_first_is_found(state.instances, id, index);
    reveal(bridge_ready);
}

/// What an instance reports is what is known of it, and what was wrong with it is
/// forgotten. That is news where the report differs from the last one.
pub proof fn law_reports_are_known(
    state: FleetView,
    id: Seq<char>,
    index: int,
    snapshot: SnapshotView,
)
    requires
        is_first(state.instances, id, index),
    ensures
        ({
            let (after, changed) = event_handled(
                state,
                FleetEventView::Snapshot { instance_id: id, result: Ok(snapshot) },
            );
            &&& changed <==> state.instances[index].snapshot != Some(snapshot)
            &&& after == (FleetView {
                instances: state.instances.update(
                    index,
                    InstanceView {
                        snapshot: Some(snapshot),
                        error: None,
                        ..state.instances[index]
                    },
                ),
                ..state
            })
        }),
{
    lemma_first_is_found(state.instances, id, index);
    reveal(snapshot_received);
}

/// Where an instance could not be asked, it says why, and keeps what it last
/// reported. That is news where it did not say so already.
pub proof fn law_failed_reports_are_told(
    state: FleetView,
    id: Seq<char>,
    index: int,
    error: Seq<char>,
)
    requires
        is_first(state.instances, id, index),
    ensures
        ({
            let (after, changed) = event_handled(
                state,
                FleetEventView::Snapshot { instance_id: id, result: Err(error) },
            );
            &&& changed <==> state.instances[index].error != Some(error)
            &&& after == (FleetView {
                instances: state.instances.update(
                    index,
                    InstanceView { error: Some(error), ..state.instances[index] },
                ),
                ..state
            })
        }),
{
    lemma_first_is_found(state.instances, id, index);
    reveal(snapshot_received);
}

} // verus!
