//! The loop of the fleet client: how it begins, and what each thing that happens
//! does to its state.

use vstd::prelude::*;

use crate::app_state::ShellView;
use crate::fleet_events::{event_handled, law_events_keep_the_state_sound};
use crate::fleet_state::{emitted, is_sound, resized, sent_to_all, synced, FleetState, FleetView};
use crate::messages::{Effect, EffectView, FleetEvent, FleetEventView};
use crate::raw_input::screen_resized;
use crate::reconnect::{law_reconnecting_keeps_the_state_sound, streams_reconnecting};
use crate::sidebar_laws::law_syncing_makes_the_state_sound;
use crate::startup::threads_started;

verus! {

/// Something that the loop waits for: another size of the screen, something that
/// happened to an instance, or that some time, which is given in nanoseconds,
/// has come with nothing else happening.
#[derive(Debug)]
pub enum LoopEvent {
    Resize { cols: u16, rows: u16, cell_width_px: u32, cell_height_px: u32 },
    Fleet(FleetEvent),
    Tick { now: u64 },
}

/// The mathematical model of something that the loop waits for.
pub enum LoopEventView {
    Resize { cols: u16, rows: u16, cell_width_px: u32, cell_height_px: u32 },
    Fleet(FleetEventView),
    Tick { now: u64 },
}

impl View for LoopEvent {
    type V = LoopEventView;

    open spec fn view(&self) -> LoopEventView {
        match self {
            LoopEvent::Resize { cols, rows, cell_width_px, cell_height_px } =>
                LoopEventView::Resize {
                    cols: *cols,
                    rows: *rows,
                    cell_width_px: *cell_width_px,
                    cell_height_px: *cell_height_px,
                },
            LoopEvent::Fleet(event) => LoopEventView::Fleet(event@),
            LoopEvent::Tick { now } => LoopEventView::Tick { now: *now },
        }
    }
}

/// The state when the loop begins: the threads of the instances are started, the
/// sidebar shows the instances, and all is rendered. `view` is where the sidebar
/// and the content are then.
pub open spec fn loop_begun(state: FleetView, view: ShellView) -> FleetView {
    emitted(synced(threads_started(state), view), EffectView::Render)
}

/// The state once the sidebar has been brought up to date after an event, where
/// it had to be, and all is rendered.
pub open spec fn event_shown(
    state: FleetView,
    event: FleetEventView,
    view: ShellView,
) -> FleetView {
    let (handled, changed) = event_handled(state, event);
    emitted(
        if changed {
            synced(handled, view)
        } else {
            handled
        },
        EffectView::Render,
    )
}

/// The state after something that the loop waited for. `view` is where the
/// sidebar and the content are then.
pub open spec fn loop_stepped(
    state: FleetView,
    event: LoopEventView,
    view: ShellView,
) -> FleetView {
    match event {
        LoopEventView::Resize { cols, rows, cell_width_px, cell_height_px } => screen_resized(
            state,
            cols,
            rows,
            cell_width_px,
            cell_height_px,
            view,
        ),
        LoopEventView::Fleet(event) => event_shown(state, event, view),
        LoopEventView::Tick { now } => streams_reconnecting(state, now, view),
    }
}

impl FleetState {
    /// Begins the loop. `view` is where the sidebar and the content are then.
    pub fn begin(&mut self, view: ShellView)
        ensures
            final(self)@ == loop_begun(old(self)@, view),
    {
        self.start_threads();
        self.sync_sidebar_model(view);
        self.emit(Effect::Render);
    }

    /// Takes in something that the loop waited for. `view` is where the sidebar
    /// and the content are then.
    pub fn step(&mut self, event: LoopEvent, view: ShellView)
        requires
            old(self)@.active < old(self)@.instances.len(),
        ensures
            final(self)@ == loop_stepped(old(self)@, event@, view),
    {
        match event {
            LoopEvent::Resize { cols, rows, cell_width_px, cell_height_px } => {
                self.handle_resize(cols, rows, cell_width_px, cell_height_px, view);
            },
            LoopEvent::Fleet(event) => {
                if self.handle_fleet_event(event) {
                    self.sync_sidebar_model(view);
                }
                self.emit(Effect::Render);
            },
            LoopEvent::Tick { now } => {
                self.reconnect_content_streams(now, view);
            },
        }
    }
}

/// The loop begins in a sound state, and whatever it waits for keeps the state
/// sound.
pub proof fn law_loop_keeps_the_state_sound(
    state: FleetView,
    event: LoopEventView,
    view: ShellView,
)
    requires
        state.active < state.instances.len() <= usize::MAX,
    ensures
        is_sound(loop_begun(state, view)),
        is_sound(state) ==> is_sound(loop_stepped(state, event, view)),
{
    law_syncing_makes_the_state_sound(threads_started(state), view);
    if is_sound(state) {
        match event {
            LoopEventView::Resize { .. } => {
                reveal(resized);
                reveal(sent_to_all);
            },
            LoopEventView::Fleet(event) => {
                law_events_keep_the_state_sound(state, event);
                crate::fleet_events::law_events_touch_one_instance(state, event);
                law_syncing_makes_the_state_sound(event_handled(state, event).0, view);
            },
            LoopEventView::Tick { now } => {
                law_reconnecting_keeps_the_state_sound(state, now, view, 0, seq![]);
            },
        }
    }
}

} // verus!
