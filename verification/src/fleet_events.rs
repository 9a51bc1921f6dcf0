//! What happens to the instances, and what the fleet client makes of it.

use vstd::prelude::*;
use vstd::string::*;

use crate::compare::{opt_text, option_is_text, result_view, Alike};
use crate::fleet_state::{
    emitted, is_sound, lost_instance, prefix_input_applied, repainted, with_instance, FleetState,
    FleetView,
};
use crate::instance::{
    instance_model, keep_bridge, keep_bridging, keep_error, keep_frame, keep_keyboard_report,
    keep_mouse_capture, keep_prefix_input, keep_snapshot, keep_title, opt_snapshot, ApiTarget,
    ApiTargetView, InstanceView,
};
use crate::messages::{
    BridgeSockets, BridgeSocketsView, Effect, EffectView, FleetEvent, FleetEventView, ServerMessage,
    ServerMessageView,
};
use crate::projection::{key_number, lemma_key_number, lemma_key_number_found};
use crate::snapshot::{SessionSnapshot, SnapshotView};
use crate::text::same_text;

verus! {

/// The ids of instances.
pub open spec fn instance_ids(instances: Seq<InstanceView>) -> Seq<Seq<char>> {
    instances.map_values(|instance: InstanceView| instance.id)
}

/// The place of the first instance with an id; the number of instances where
/// there is none.
pub open spec fn instance_place(instances: Seq<InstanceView>, id: Seq<char>) -> int {
    key_number(instance_ids(instances), id) as int
}

/// The instance that an event is about.
pub open spec fn event_instance(event: FleetEventView) -> Seq<char> {
    match event {
        FleetEventView::BridgeReady { instance_id, .. } => instance_id,
        FleetEventView::ServerMessage { instance_id, .. } => instance_id,
        FleetEventView::Disconnected { instance_id } => instance_id,
        FleetEventView::Snapshot { instance_id, .. } => instance_id,
    }
}

/// The state once a bridge to an instance is ready, or could not be had.
#[verifier::opaque]
pub open spec fn bridge_ready(
    state: FleetView,
    index: int,
    result: Result<BridgeSocketsView, Seq<char>>,
) -> FleetView {
    let instance = InstanceView { bridge_connecting: false, ..state.instances[index] };
    repainted(
        match result {
            Ok(bridge) => {
                let target = ApiTargetView::SocketPath(bridge.api_socket);
                let reached = with_instance(
                    state,
                    index,
                    InstanceView {
                        client_socket: Some(bridge.client_socket),
                        api_target: Some(target),
                        accepts_requests: true,
                        error: None,
                        ..instance
                    },
                );
                let asked = emitted(
                    reached,
                    EffectView::StartApiWorker { index: index as usize, target },
                );
                let watched = emitted(
                    asked,
                    EffectView::StartSnapshotWatcher { instance_id: instance.id, target },
                );
                emitted(watched, EffectView::KeepBridge)
            },
            Err(error) => with_instance(
                state,
                index,
                InstanceView { error: Some(error), ..instance },
            ),
        },
    )
}

/// The state once an instance has said what it wants of the host: its title, its
/// modes and its input source. The host follows the active instance.
#[verifier::opaque]
pub open spec fn wish_received(
    state: FleetView,
    index: int,
    message: ServerMessageView,
) -> FleetView {
    let instance = state.instances[index];
    let is_active = index == state.active;
    match message {
        ServerMessageView::WindowTitle { title } => {
            let titled = with_instance(
                state,
                index,
                InstanceView { window_title: title, ..instance },
            );
            if is_active {
                emitted(titled, EffectView::WriteWindowTitle { title })
            } else {
                titled
            }
        },
        ServerMessageView::MouseCapture { enabled } => {
            let told = with_instance(
                state,
                index,
                InstanceView { mouse_capture: enabled, ..instance },
            );
            if is_active {
                emitted(told, EffectView::ApplyHostModes)
            } else {
                told
            }
        },
        ServerMessageView::KittyKeyboardReportAll { enabled } => {
            let told = with_instance(
                state,
                index,
                InstanceView { keyboard_report_all: enabled, ..instance },
            );
            if is_active {
                emitted(told, EffectView::ApplyHostModes)
            } else {
                told
            }
        },
        ServerMessageView::PrefixInputSource { active } => {
            let told = with_instance(
                state,
                index,
                InstanceView { prefix_input_active: active, ..instance },
            );
            if is_active {
                prefix_input_applied(told)
            } else {
                told
            }
        },
        _ => state,
    }
}

/// The state once an instance has sent a message, and whether its place in the
/// sidebar may have changed.
#[verifier::opaque]
pub open spec fn message_received(
    state: FleetView,
    index: int,
    message: ServerMessageView,
) -> (FleetView, bool) {
    let instance = state.instances[index];
    let is_active = index == state.active;
    match message {
        ServerMessageView::Frame { frame } => (
            with_instance(state, index, InstanceView { frame: Some(frame), ..instance }),
            false,
        ),
        ServerMessageView::Terminal => (state, false),
        ServerMessageView::Graphics => (state, false),
        ServerMessageView::Notify { kind, message, body } => (
            emitted(state, EffectView::Notify { kind, message, body }),
            false,
        ),
        ServerMessageView::Clipboard { data } => (
            if is_active {
                emitted(state, EffectView::ForwardClipboard { data })
            } else {
                state
            },
            false,
        ),
        ServerMessageView::ReloadSoundConfig => (
            emitted(
                emitted(state, EffectView::ReloadLocalConfig),
                EffectView::ReloadVisualConfig,
            ),
            true,
        ),
        ServerMessageView::ServerShutdown { reason } => (
            with_instance(
                state,
                index,
                lost_instance(
                    instance,
                    match reason {
                        Some(reason) => reason,
                        None => "server shut down"@,
                    },
                ),
            ),
            true,
        ),
        ServerMessageView::Other => (state, false),
        _ => (wish_received(state, index, message), false),
    }
}

/// The state once an instance has reported its session, or could not be asked,
/// and whether that is news.
#[verifier::opaque]
pub open spec fn snapshot_received(
    state: FleetView,
    index: int,
    result: Result<SnapshotView, Seq<char>>,
) -> (FleetView, bool) {
    let instance = state.instances[index];
    match result {
        Ok(snapshot) => (
            with_instance(
                state,
                index,
                InstanceView { snapshot: Some(snapshot), error: None, ..instance },
            ),
            instance.snapshot != Some(snapshot),
        ),
        Err(error) => (
            with_instance(state, index, InstanceView { error: Some(error), ..instance }),
            instance.error != Some(error),
        ),
    }
}

/// The state after an event, and whether the sidebar has to be brought up to
/// date. An event about an instance that is not known changes nothing.
pub open spec fn event_handled(state: FleetView, event: FleetEventView) -> (FleetView, bool) {
    let index = instance_place(state.instances, event_instance(event));
    if index >= state.instances.len() {
        (state, false)
    } else {
        match event {
            FleetEventView::BridgeReady { result, .. } => (
                bridge_ready(state, index, result),
                true,
            ),
            FleetEventView::ServerMessage { message, .. } => message_received(
                state,
                index,
                message,
            ),
            FleetEventView::Disconnected { .. } => (
                with_instance(
                    state,
                    index,
                    lost_instance(state.instances[index], "disconnected"@),
                ),
                true,
            ),
            FleetEventView::Snapshot { result, .. } => snapshot_received(state, index, result),
        }
    }
}

/// Whether a snapshot differs from the one that is known, if any is.
fn is_news(known: &Option<SessionSnapshot>, snapshot: &SessionSnapshot) -> (r: bool)
    ensures
        r == (opt_snapshot(*known) != Some(snapshot@)),
{
    match known {
        Some(known) => !known.alike(snapshot),
        None => true,
    }
}

impl FleetState {
    /// The place of the first instance with an id.
    fn instance_index(&self, id: &str) -> (r: Option<usize>)
        ensures
            match r {
                Some(i) => i < self.instances@.len() && i == instance_place(self@.instances, id@),
                None => instance_place(self@.instances, id@) == self@.instances.len(),
            },
    {
        proof {
            reveal(instance_model);
        }
        let ghost ids = instance_ids(self@.instances);
        let mut i: usize = 0;
        while i < self.instances.len()
            invariant
                i <= self.instances@.len(),
                ids == instance_ids(self@.instances),
                ids.len() == self.instances@.len(),
                forall|j: int| 0 <= j < i ==> ids[j] != id@,
            decreases self.instances@.len() - i,
        {
            proof {
                reveal(instance_model);
            }
            assert(self@.instances[i as int].id == self.instances@[i as int].id@);
            assert(ids[i as int] == self.instances@[i as int].id@);
            if same_text(self.instances[i].id.as_str(), id) {
                proof {
                    lemma_key_number(ids, id@, i as int);
                }
                return Some(i);
            }
            i += 1;
        }
        proof {
            lemma_key_number(ids, id@, i as int);
        }
        None
    }

    fn take_bridge(&mut self, index: usize, result: Result<BridgeSockets, String>)
        requires
            index < old(self)@.instances.len(),
        ensures
            final(self)@ == bridge_ready(old(self)@, index as int, result_view(result)),
    {
        proof {
            reveal(instance_model);
            reveal(bridge_ready);
        }
        keep_bridging(&mut self.instances, index, false);
        match result {
            Ok(bridge) => {
                let instance_id = self.instances[index].id.clone();
                assert(instance_id@ == self@.instances[index as int].id);
                keep_bridge(
                    &mut self.instances,
                    index,
                    bridge.client_socket,
                    bridge.api_socket.clone(),
                );
                assert(self@.instances =~= bridge_ready(
                    old(self)@,
                    index as int,
                    Ok(bridge@),
                ).instances);
                self.emit(
                    Effect::StartApiWorker {
                        index,
                        target: ApiTarget::SocketPath(bridge.api_socket.clone()),
                    },
                );
                self.emit(
                    Effect::StartSnapshotWatcher {
                        instance_id,
                        target: ApiTarget::SocketPath(bridge.api_socket),
                    },
                );
                self.emit(Effect::KeepBridge);
            },
            Err(error) => {
                keep_error(&mut self.instances, index, error);
                assert(self@.instances =~= bridge_ready(
                    old(self)@,
                    index as int,
                    Err(error@),
                ).instances);
            },
        }
        self.request_repaint();
    }

    fn take_wish(&mut self, index: usize, message: ServerMessage)
        requires
            index < old(self)@.instances.len(),
            old(self)@.active < old(self)@.instances.len(),
        ensures
            final(self)@ == wish_received(old(self)@, index as int, message@),
    {
        proof {
            reveal(wish_received);
        }
        match message {
            ServerMessage::WindowTitle { title } => {
                let told = crate::compare::copy_option_text(&title);
                keep_title(&mut self.instances, index, title);
                if index == self.active {
                    self.emit(Effect::WriteWindowTitle { title: told });
                }
            },
            ServerMessage::MouseCapture { enabled } => {
                keep_mouse_capture(&mut self.instances, index, enabled);
                if index == self.active {
                    self.apply_active_host_modes();
                }
            },
            ServerMessage::KittyKeyboardReportAll { enabled } => {
                keep_keyboard_report(&mut self.instances, index, enabled);
                if index == self.active {
                    self.apply_active_host_modes();
                }
            },
            ServerMessage::PrefixInputSource { active } => {
                keep_prefix_input(&mut self.instances, index, active);
                if index == self.active {
                    self.apply_active_prefix_input_source();
                }
            },
            _ => {},
        }
    }

    fn take_message(&mut self, index: usize, message: ServerMessage) -> (changed: bool)
        requires
            index < old(self)@.instances.len(),
            old(self)@.active < old(self)@.instances.len(),
        ensures
            (final(self)@, changed) == message_received(old(self)@, index as int, message@),
    {
        proof {
            reveal(instance_model);
            reveal(message_received);
        }
        match message {
            ServerMessage::Frame { frame } => {
                keep_frame(&mut self.instances, index, frame);
                false
            },
            ServerMessage::Terminal => false,
            ServerMessage::Graphics => false,
            ServerMessage::Notify { kind, message, body } => {
                self.emit(Effect::Notify { kind, message, body });
                false
            },
            ServerMessage::Clipboard { data } => {
                if index == self.active {
                    self.emit(Effect::ForwardClipboard { data });
                }
                false
            },
            ServerMessage::ReloadSoundConfig => {
                self.emit(Effect::ReloadLocalConfig);
                self.emit(Effect::ReloadVisualConfig);
                true
            },
            ServerMessage::ServerShutdown { reason } => {
                let error = match reason {
                    Some(reason) => reason,
                    None => "server shut down".to_string(),
                };
                self.lose_stream(index, error);
                true
            },
            ServerMessage::Other => false,
            _ => {
                self.take_wish(index, message);
                false
            },
        }
    }

    fn take_snapshot(&mut self, index: usize, result: Result<SessionSnapshot, String>) -> (changed:
        bool)
        requires
            index < old(self)@.instances.len(),
        ensures
            (final(self)@, changed) == snapshot_received(
                old(self)@,
                index as int,
                result_view(result),
            ),
    {
        proof {
            reveal(instance_model);
            reveal(snapshot_received);
        }
        match result {
            Ok(snapshot) => {
                assert(self@.instances[index as int].snapshot == opt_snapshot(
                    self.instances@[index as int].snapshot,
                ));
                let changed: bool = is_news(&self.instances[index].snapshot, &snapshot);
                keep_snapshot(&mut self.instances, index, snapshot);
                changed
            },
            Err(error) => {
                assert(self@.instances[index as int].error == opt_text(
                    self.instances@[index as int].error,
                ));
                let changed: bool = !option_is_text(&self.instances[index].error, error.as_str());
                keep_error(&mut self.instances, index, error);
                changed
            },
        }
    }

    /// Takes in an event. Tells whether the sidebar has to be brought up to
    /// date.
    pub fn handle_fleet_event(&mut self, event: FleetEvent) -> (changed: bool)
        requires
            old(self)@.active < old(self)@.instances.len(),
        ensures
            (final(self)@, changed) == event_handled(old(self)@, event@),
    {
        let found = match &event {
            FleetEvent::BridgeReady { instance_id, .. } => self.instance_index(
                instance_id.as_str(),
            ),
            FleetEvent::ServerMessage { instance_id, .. } => self.instance_index(
                instance_id.as_str(),
            ),
            FleetEvent::Disconnected { instance_id } => self.instance_index(instance_id.as_str()),
            FleetEvent::Snapshot { instance_id, .. } => self.instance_index(instance_id.as_str()),
        };
        let index: usize = match found {
            Some(index) => index,
            None => {
                return false;
            },
        };
        match event {
            FleetEvent::BridgeReady { result, .. } => {
                self.take_bridge(index, result);
                true
            },
            FleetEvent::ServerMessage { message, .. } => self.take_message(index, message),
            FleetEvent::Disconnected { .. } => {
                self.lose_stream(index, "disconnected".to_string());
                true
            },
            FleetEvent::Snapshot { result, .. } => self.take_snapshot(index, result),
        }
    }
}

/// An event touches at most the first instance with the id that it names. The
/// other instances, the order of them all, which one is active, and the shell
/// stay.
pub proof fn law_events_touch_one_instance(state: FleetView, event: FleetEventView)
    ensures
        ({
            let after = event_handled(state, event).0;
            let index = instance_place(state.instances, event_instance(event));
            &&& after.instances.len() == state.instances.len()
            &&& after.active == state.active
            &&& after.sidebar == state.sidebar
            &&& after.projection == state.projection
            &&& instance_ids(after.instances) == instance_ids(state.instances)
            &&& forall|i: int|
                0 <= i < state.instances.len() && i != index ==> #[trigger] after.instances[i]
                    == state.instances[i]
        }),
{
    let index = instance_place(state.instances, event_instance(event));
    if index < state.instances.len() {
        match event {
            FleetEventView::BridgeReady { result, .. } => {
                lemma_bridges_touch_one_instance(state, index, result);
            },
            FleetEventView::ServerMessage { message, .. } => {
                lemma_messages_touch_one_instance(state, index, message);
            },
            FleetEventView::Disconnected { .. } => {},
            FleetEventView::Snapshot { result, .. } => {
                lemma_snapshots_touch_one_instance(state, index, result);
            },
        }
    }
    let after = event_handled(state, event).0;
    assert(instance_ids(after.instances) =~= instance_ids(state.instances));
}

/// Whether a state differs from another in nothing but one instance, which keeps
/// its id, what is wanted done, and whether a repaint is due.
spec fn touches_one_instance(before: FleetView, after: FleetView, index: int) -> bool {
    &&& after == (FleetView {
        instances: after.instances,
        effects: after.effects,
        host: after.host,
        ..before
    })
    &&& after.instances == before.instances.update(index, after.instances[index])
    &&& after.instances[index].id == before.instances[index].id
}

proof fn lemma_bridges_touch_one_instance(
    state: FleetView,
    index: int,
    result: Result<BridgeSocketsView, Seq<char>>,
)
    requires
        0 <= index < state.instances.len(),
    ensures
        touches_one_instance(state, bridge_ready(state, index, result), index),
{
    reveal(bridge_ready);
}

proof fn lemma_wishes_touch_one_instance(
    state: FleetView,
    index: int,
    message: ServerMessageView,
)
    requires
        0 <= index < state.instances.len(),
    ensures
        touches_one_instance(state, wish_received(state, index, message), index),
        wish_received(state, index, message).host == state.host,
        index != state.active ==> wish_received(state, index, message).effects == state.effects,
{
    reveal(wish_received);
    let after = wish_received(state, index, message);
    assert(after.instances =~= state.instances.update(index, after.instances[index]));
}

proof fn lemma_messages_touch_one_instance(
    state: FleetView,
    index: int,
    message: ServerMessageView,
)
    requires
        0 <= index < state.instances.len(),
    ensures
        touches_one_instance(state, message_received(state, index, message).0, index),
{
    reveal(message_received);
    lemma_wishes_touch_one_instance(state, index, message);
    let after = message_received(state, index, message).0;
    assert(after.instances =~= state.instances.update(index, after.instances[index]));
}

proof fn lemma_snapshots_touch_one_instance(
    state: FleetView,
    index: int,
    result: Result<SnapshotView, Seq<char>>,
)
    requires
        0 <= index < state.instances.len(),
    ensures
        touches_one_instance(state, snapshot_received(state, index, result).0, index),
{
    reveal(snapshot_received);
}

/// An event about an instance that is not known changes nothing.
pub proof fn law_unknown_instances_are_ignored(state: FleetView, event: FleetEventView)
    requires
        !instance_ids(state.instances).contains(event_instance(event)),
    ensures
        event_handled(state, event) == (state, false),
{
    let ids = instance_ids(state.instances);
    lemma_key_number(ids, event_instance(event), ids.len() as int);
}

/// An event keeps the state sound.
pub proof fn law_events_keep_the_state_sound(state: FleetView, event: FleetEventView)
    requires
        is_sound(state),
    ensures
        is_sound(event_handled(state, event).0),
{
    law_events_touch_one_instance(state, event);
}

/// The same snapshot a second time is no news, and neither is the same error.
pub proof fn law_repeated_snapshots_are_no_news(
    state: FleetView,
    index: int,
    result: Result<SnapshotView, Seq<char>>,
)
    requires
        0 <= index < state.instances.len(),
    ensures
        ({
            let first = snapshot_received(state, index, result).0;
            snapshot_received(first, index, result) == (first, false)
        }),
{
    reveal(snapshot_received);
    let first = snapshot_received(state, index, result).0;
    let second = snapshot_received(first, index, result).0;
    assert(second.instances =~= first.instances);
}

/// Only the active instance moves the host: what another one says of titles,
/// clipboards and modes asks for nothing.
pub proof fn law_only_the_active_instance_moves_the_host(
    state: FleetView,
    index: int,
    message: ServerMessageView,
)
    requires
        0 <= index < state.instances.len(),
        index != state.active,
        !(message is Notify),
        !(message is ReloadSoundConfig),
    ensures
        message_received(state, index, message).0.effects == state.effects,
        message_received(state, index, message).0.host == state.host,
{
    reveal(message_received);
    lemma_wishes_touch_one_instance(state, index, message);
}

/// An instance that is lost shows no content, and is not written to until it is
/// connected again.
pub proof fn law_lost_instances_show_nothing(state: FleetView, id: Seq<char>)
    requires
        instance_ids(state.instances).contains(id),
    ensures
        ({
            let index = instance_place(state.instances, id);
            let after = event_handled(
                state,
                FleetEventView::Disconnected { instance_id: id },
            ).0;
            &&& 0 <= index < state.instances.len()
            &&& !after.instances[index].connected
            &&& after.instances[index].frame is None
        }),
{
    lemma_key_number_found(instance_ids(state.instances), id);
}

} // verus!
