//! Connecting lost content streams again.

use vstd::prelude::*;
use vstd::string::*;

use crate::app_state::{AppStateView, ShellView};
use crate::compare::copy_option_text;
use crate::fleet_state::{
    content_size, content_size_in, emitting, is_sound, repainted, with_instance, FleetState,
    FleetView, RECONNECT_INTERVAL,
};
use crate::instance::{
    instance_model, keep_bridging, keep_connected, keep_error, Instance, InstanceView,
};
use crate::messages::{Effect, EffectView};

verus! {

/// What is needed to connect to a content stream: the size of the content, and
/// that of its cells.
#[derive(Debug, Clone, Copy, PartialEq, Eq, Structural)]
pub struct ContentSize {
    pub cols: u16,
    pub rows: u16,
    pub cell_width_px: u32,
    pub cell_height_px: u32,
}

/// How an application surface is shown.
#[derive(Debug, Clone, Copy, PartialEq, Eq, Structural)]
pub enum AppSurface {
    Full,
    Content,
}

/// How frames are encoded.
#[derive(Debug, Clone, Copy, PartialEq, Eq, Structural)]
pub enum RenderEncoding {
    SemanticFrame,
    TerminalAnsi,
}

/// What an instance is told when a content stream is opened.
#[derive(Debug, Clone, Copy, PartialEq, Eq, Structural)]
pub struct Handshake {
    pub size: ContentSize,
    pub encoding: RenderEncoding,
    pub direct_attach: bool,
    pub surface: AppSurface,
}

/// What an instance is told when its content is to be shown at a size.
pub open spec fn content_handshake(size: ContentSize) -> Handshake {
    Handshake {
        size,
        encoding: RenderEncoding::SemanticFrame,
        direct_attach: false,
        surface: AppSurface::Content,
    }
}

/// What an instance is told when its content is to be shown at a size: frames
/// with their meaning, and the content alone.
pub fn connect_app(size: ContentSize) -> (r: Handshake)
    ensures
        r == content_handshake(size),
{
    Handshake {
        size,
        encoding: RenderEncoding::SemanticFrame,
        direct_attach: false,
        surface: AppSurface::Content,
    }
}

/// What has to be done to connect an instance: nothing where it is connected or
/// its bridge is under way, a bridge where it is remote and has none, and else a
/// content stream.
pub open spec fn reconnect_step(
    index: usize,
    instance: InstanceView,
    size: ContentSize,
) -> Option<EffectView> {
    if instance.connected {
        None
    } else {
        match instance.client_socket {
            Some(socket) => Some(
                EffectView::ConnectContent {
                    index,
                    socket,
                    cols: size.cols,
                    rows: size.rows,
                    cell_width_px: size.cell_width_px,
                    cell_height_px: size.cell_height_px,
                },
            ),
            None => if instance.bridge_connecting {
                None
            } else {
                match instance.remote_target {
                    Some(target) => Some(
                        EffectView::StartBridge {
                            instance_id: instance.id,
                            target,
                            session: instance.remote_session,
                        },
                    ),
                    None => None,
                }
            },
        }
    }
}

/// The instance once that is being done.
pub open spec fn reconnecting(
    index: usize,
    instance: InstanceView,
    size: ContentSize,
) -> InstanceView {
    InstanceView {
        bridge_connecting: instance.bridge_connecting || (reconnect_step(
            index,
            instance,
            size,
        ) matches Some(EffectView::StartBridge { .. })),
        ..instance
    }
}

/// What has to be done to connect all instances, in order.
pub open spec fn reconnect_steps(instances: Seq<InstanceView>, size: ContentSize) -> Seq<EffectView>
    decreases instances.len(),
{
    if instances.len() == 0 {
        seq![]
    } else {
        let rest = reconnect_steps(instances.drop_last(), size);
        match reconnect_step((instances.len() - 1) as usize, instances.last(), size) {
            Some(effect) => rest.push(effect),
            None => rest,
        }
    }
}

/// All instances once that is being done.
pub open spec fn all_reconnecting(
    instances: Seq<InstanceView>,
    size: ContentSize,
) -> Seq<InstanceView> {
    Seq::new(instances.len(), |i: int| reconnecting(i as usize, instances[i], size))
}

/// Whether enough time has passed since the last attempt.
pub open spec fn is_time(last: u64, now: u64) -> bool {
    now - last >= RECONNECT_INTERVAL
}

/// The size of the content in a view.
pub open spec fn content_in(state: FleetView, view: ShellView) -> ContentSize {
    let (cols, rows) = content_size_in(view);
    ContentSize {
        cols,
        rows,
        cell_width_px: state.cell_width_px,
        cell_height_px: state.cell_height_px,
    }
}

/// The state once lost content streams are being connected again, if it is
/// time.
pub open spec fn streams_reconnecting(state: FleetView, now: u64, view: ShellView) -> FleetView {
    if !is_time(state.last_reconnect_attempt, now) {
        state
    } else {
        let size = content_in(state, view);
        FleetView {
            last_reconnect_attempt: now,
            sidebar: AppStateView { view, ..state.sidebar },
            instances: all_reconnecting(state.instances, size),
            effects: state.effects + reconnect_steps(state.instances, size),
            ..state
        }
    }
}

/// Decides what has to be done to connect an instance.
fn step_for(index: usize, instance: &Instance, size: ContentSize) -> (r: Option<Effect>)
    ensures
        (match r {
            Some(effect) => Some(effect@),
            None => None,
        }) == reconnect_step(index, instance@, size),
{
    proof {
        reveal(instance_model);
    }
    if instance.connected {
        return None;
    }
    match &instance.client_socket {
        Some(socket) => Some(
            Effect::ConnectContent {
                index,
                socket: socket.clone(),
                cols: size.cols,
                rows: size.rows,
                cell_width_px: size.cell_width_px,
                cell_height_px: size.cell_height_px,
            },
        ),
        None => {
            if instance.bridge_connecting {
                return None;
            }
            match &instance.remote_target {
                Some(target) => Some(
                    Effect::StartBridge {
                        instance_id: instance.id.clone(),
                        target: target.clone(),
                        session: copy_option_text(&instance.remote_session),
                    },
                ),
                None => None,
            }
        },
    }
}

impl FleetState {
    /// Does what has to be done to connect an instance.
    fn reconnect_one(&mut self, index: usize, size: ContentSize)
        requires
            index < old(self)@.instances.len(),
        ensures
            ({
                let instance = old(self)@.instances[index as int];
                final(self)@ == with_instance(
                    emitting(
                        old(self)@,
                        match reconnect_step(index, instance, size) {
                            Some(effect) => seq![effect],
                            None => seq![],
                        },
                    ),
                    index as int,
                    reconnecting(index, instance, size),
                )
            }),
    {
        proof {
            reveal(instance_model);
        }
        assert(self@.instances[index as int] == self.instances@[index as int]@);
        match step_for(index, &self.instances[index], size) {
            Some(effect) => {
                if matches!(effect, Effect::StartBridge { .. }) {
                    keep_bridging(&mut self.instances, index, true);
                }
                self.emit(effect);
                assert(self@.effects =~= old(self)@.effects + seq![effect@]);
            },
            None => {
                assert(self@.effects =~= old(self)@.effects + seq![]);
            },
        }
        assert(self@.instances =~= old(self)@.instances.update(
            index as int,
            reconnecting(index, old(self)@.instances[index as int], size),
        ));
    }

    /// Connects lost content streams again, where the last attempt is long
    /// enough ago. `now` is a time in nanoseconds.
    pub fn reconnect_content_streams(&mut self, now: u64, view: ShellView)
        ensures
            final(self)@ == streams_reconnecting(old(self)@, now, view),
    {
        if now < self.last_reconnect_attempt || now - self.last_reconnect_attempt
            < RECONNECT_INTERVAL {
            return;
        }
        self.last_reconnect_attempt = now;
        self.update_sidebar_geometry(view);
        let (cols, rows): (u16, u16) = content_size(view);
        let size = ContentSize {
            cols,
            rows,
            cell_width_px: self.cell_width_px,
            cell_height_px: self.cell_height_px,
        };
        let ghost started = self@;
        let ghost all = started.instances;
        assert(size == content_in(old(self)@, view));
        let mut i: usize = 0;
        assert(started.effects + reconnect_steps(all.take(0), size) =~= started.effects);
        let count: usize = self.instances.len();
        while i < count
            invariant
                i <= count,
                count == all.len(),
                self@.instances.len() == all.len(),
                all == started.instances,
                self@ == (FleetView {
                    instances: self@.instances,
                    effects: started.effects + reconnect_steps(all.take(i as int), size),
                    ..started
                }),
                forall|j: int|
                    0 <= j < i ==> #[trigger] self@.instances[j] == reconnecting(
                        j as usize,
                        all[j],
                        size,
                    ),
                forall|j: int| i <= j < all.len() ==> #[trigger] self@.instances[j] == all[j],
            decreases count - i,
        {
            let ghost before = self@;
            assert(before.instances[i as int] == all[i as int]);
            self.reconnect_one(i, size);
            proof {
                assert(all.take(i + 1).drop_last() =~= all.take(i as int));
                assert(all.take(i + 1).last() == all[i as int]);
                assert(self@.effects =~= started.effects + reconnect_steps(
                    all.take(i + 1),
                    size,
                ));
            }
            i += 1;
        }
        assert(all.take(i as int) =~= all);
        assert(self@.instances =~= all_reconnecting(all, size));
    }

    /// Takes in that an instance has a content stream.
    pub fn content_connected(&mut self, index: usize)
        ensures
            final(self)@ == stream_connected(old(self)@, index as int),
    {
        if index >= self.instances.len() {
            return;
        }
        keep_connected(&mut self.instances, index);
        self.request_repaint();
    }

    /// Takes in why the content stream of an instance could not be had.
    pub fn content_failed(&mut self, index: usize, error: String)
        ensures
            final(self)@ == stream_refused(old(self)@, index as int, error@),
    {
        if index >= self.instances.len() {
            return;
        }
        keep_error(&mut self.instances, index, error);
    }
}

/// The state once an instance has a content stream.
pub open spec fn stream_connected(state: FleetView, index: int) -> FleetView {
    if index < state.instances.len() {
        repainted(
            with_instance(
                state,
                index,
                InstanceView { connected: true, error: None, ..state.instances[index] },
            ),
        )
    } else {
        state
    }
}

/// The state once the content stream of an instance could not be had.
pub open spec fn stream_refused(state: FleetView, index: int, error: Seq<char>) -> FleetView {
    if index < state.instances.len() {
        with_instance(
            state,
            index,
            InstanceView { error: Some(error), ..state.instances[index] },
        )
    } else {
        state
    }
}

/// Before the interval has passed nothing is attempted.
pub proof fn law_attempts_keep_their_distance(
    state: FleetView,
    first: u64,
    second: u64,
    view: ShellView,
)
    requires
        is_time(state.last_reconnect_attempt, first),
        first <= second < first + RECONNECT_INTERVAL,
    ensures
        ({
            let attempted = streams_reconnecting(state, first, view);
            streams_reconnecting(attempted, second, view) == attempted
        }),
{
}

/// A connected instance is left alone, and one that waits for its bridge is not
/// given another.
pub proof fn law_only_lost_instances_are_connected(
    index: usize,
    instance: InstanceView,
    size: ContentSize,
)
    ensures
        instance.connected ==> reconnect_step(index, instance, size) is None,
        ({
            let waiting = reconnecting(index, instance, size);
            reconnect_step(index, waiting, size) matches Some(EffectView::StartBridge { .. })
                ==> false
        }),
{
}

/// Connecting again keeps the state sound.
pub proof fn law_reconnecting_keeps_the_state_sound(
    state: FleetView,
    now: u64,
    view: ShellView,
    index: int,
    error: Seq<char>,
)
    requires
        is_sound(state),
        0 <= index,
    ensures
        is_sound(streams_reconnecting(state, now, view)),
        is_sound(stream_connected(state, index)),
        is_sound(stream_refused(state, index, error)),
{
}

} // verus!
