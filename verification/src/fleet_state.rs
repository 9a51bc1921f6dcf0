//! The state of the fleet client, and the moves that its parts share: writing
//! to the content streams, asking the instances, and following the active
//! instance.

use vstd::prelude::*;
use vstd::string::*;

use crate::app_state::{
    shell_model, AppState, AppStateView, KeyChord, KeyChordView, Mode, ShellView,
};
use crate::compare::{opt_view, views};
use crate::frame::texts;
use crate::instance::{drop_frame, instance_model, lose, Instance, InstanceView};
use crate::messages::{ClientMessage, ClientMessageView, Effect, EffectView, Method, MethodView};
use crate::projection::{with_keys, Projection};
use crate::registry::{equal_presentations, FleetPresentation, FleetPresentationView};
use crate::routes::{hit_instance, opt_hit, SidebarHit};
use crate::sidebar::{sidebar_keys, sidebar_model, RowView, SidebarRow};
use crate::sidebar_builder::build_sidebar_state;
use crate::visual::{FleetVisualConfig, FleetVisualConfigView};

verus! {

/// How often lost content streams are connected again, in nanoseconds.
pub const RECONNECT_INTERVAL: u64 = 750_000_000;

/// What the fleet client knows of the host terminal, and how it treats it.
#[derive(Debug)]
pub struct HostState {
    pub mouse_capture_active: bool,
    pub keyboard_report_all_active: bool,
    pub reported_cols: u16,
    pub reported_rows: u16,
    pub sound: String,
    pub kitty_graphics_enabled: bool,
    pub mouse_scroll_lines: usize,
    pub remote_image_paste_key: Option<KeyChord>,
    pub redraw_on_focus_gained: bool,
    pub repaint_pending: bool,
    pub draw_host_cursor: bool,
}

/// The mathematical model of the host terminal.
pub struct HostStateView {
    pub mouse_capture_active: bool,
    pub keyboard_report_all_active: bool,
    pub reported_cols: u16,
    pub reported_rows: u16,
    pub sound: Seq<char>,
    pub kitty_graphics_enabled: bool,
    pub mouse_scroll_lines: usize,
    pub remote_image_paste_key: Option<KeyChordView>,
    pub redraw_on_focus_gained: bool,
    pub repaint_pending: bool,
    pub draw_host_cursor: bool,
}

impl View for HostState {
    type V = HostStateView;

    open spec fn view(&self) -> HostStateView {
        HostStateView {
            mouse_capture_active: self.mouse_capture_active,
            keyboard_report_all_active: self.keyboard_report_all_active,
            reported_cols: self.reported_cols,
            reported_rows: self.reported_rows,
            sound: self.sound@,
            kitty_graphics_enabled: self.kitty_graphics_enabled,
            mouse_scroll_lines: self.mouse_scroll_lines,
            remote_image_paste_key: opt_view(self.remote_image_paste_key),
            redraw_on_focus_gained: self.redraw_on_focus_gained,
            repaint_pending: self.repaint_pending,
            draw_host_cursor: self.draw_host_cursor,
        }
    }
}

/// The state of the fleet client. `last_reconnect_attempt` is a time in
/// nanoseconds, and `effects` is what is wanted done and not done yet.
#[derive(Debug)]
pub struct FleetState {
    pub instances: Vec<Instance>,
    pub active: usize,
    pub sidebar: AppState,
    pub projection: Projection,
    pub quit_requested: bool,
    pub host: HostState,
    pub pending_prefix_bytes: Vec<u8>,
    pub cell_width_px: u32,
    pub cell_height_px: u32,
    pub last_reconnect_attempt: u64,
    pub visual: FleetVisualConfig,
    pub effects: Vec<Effect>,
}

/// The mathematical model of the fleet client.
pub struct FleetView {
    pub instances: Seq<InstanceView>,
    pub active: usize,
    pub sidebar: AppStateView,
    pub projection: Seq<Seq<char>>,
    pub quit_requested: bool,
    pub host: HostStateView,
    pub pending_prefix_bytes: Seq<u8>,
    pub cell_width_px: u32,
    pub cell_height_px: u32,
    pub last_reconnect_attempt: u64,
    pub visual: FleetVisualConfigView,
    pub effects: Seq<EffectView>,
}

impl View for FleetState {
    type V = FleetView;

    open spec fn view(&self) -> FleetView {
        FleetView {
            instances: views(self.instances@),
            active: self.active,
            sidebar: self.sidebar@,
            projection: self.projection@,
            quit_requested: self.quit_requested,
            host: self.host@,
            pending_prefix_bytes: self.pending_prefix_bytes@,
            cell_width_px: self.cell_width_px,
            cell_height_px: self.cell_height_px,
            last_reconnect_attempt: self.last_reconnect_attempt,
            visual: self.visual@,
            effects: views(self.effects@),
        }
    }
}

/// Whether a row leads to instances that there are.
pub open spec fn row_is_known(row: RowView, count: nat) -> bool {
    &&& hit_instance(row.route) < count
    &&& forall|i: int|
        0 <= i < row.tab_routes.len() ==> ((#[trigger] row.tab_routes[i]) matches Some(hit)
            ==> hit_instance(hit) < count)
    &&& forall|i: int|
        0 <= i < row.pane_routes.len() ==> hit_instance((#[trigger] row.pane_routes[i]).target)
            < count
}

/// Whether every row leads to instances that there are.
pub open spec fn rows_are_known(rows: Seq<RowView>, count: nat) -> bool {
    forall|i: int| 0 <= i < rows.len() ==> row_is_known(#[trigger] rows[i], count)
}

/// Whether the active instance, and every instance that the sidebar leads to,
/// is one of the fleet.
pub open spec fn is_sound(state: FleetView) -> bool {
    &&& state.active < state.instances.len()
    &&& rows_are_known(state.sidebar.rows, state.instances.len())
}

/// The state with one more thing wanted done.
pub open spec fn emitted(state: FleetView, effect: EffectView) -> FleetView {
    FleetView { effects: state.effects.push(effect), ..state }
}

/// The state with more things wanted done, in order.
pub open spec fn emitting(state: FleetView, effects: Seq<EffectView>) -> FleetView {
    FleetView { effects: state.effects + effects, ..state }
}

/// Whether a state differs from another in nothing but what is wanted done.
pub open spec fn differs_in_effects(before: FleetView, after: FleetView) -> bool {
    after == (FleetView { effects: after.effects, ..before })
}

/// The state with an instance replaced.
pub open spec fn with_instance(state: FleetView, index: int, instance: InstanceView) -> FleetView {
    FleetView { instances: state.instances.update(index, instance), ..state }
}

/// The state with its shell replaced.
pub open spec fn with_sidebar(state: FleetView, sidebar: AppStateView) -> FleetView {
    FleetView { sidebar, ..state }
}

/// The state in which the whole screen is to be painted again.
pub open spec fn repainted(state: FleetView) -> FleetView {
    FleetView { host: HostStateView { repaint_pending: true, ..state.host }, ..state }
}

/// The state with the sidebar and the content at other places.
pub open spec fn with_view(state: FleetView, view: ShellView) -> FleetView {
    with_sidebar(state, AppStateView { view, ..state.sidebar })
}

/// An instance whose content stream is gone.
pub open spec fn lost_instance(instance: InstanceView, error: Seq<char>) -> InstanceView {
    InstanceView { error: Some(error), connected: false, frame: None, ..instance }
}

/// The state once the content stream of an instance turned out to be gone.
pub open spec fn stream_lost(state: FleetView, index: int) -> FleetView {
    if index < state.instances.len() {
        repainted(
            with_instance(state, index, lost_instance(state.instances[index], "disconnected"@)),
        )
    } else {
        state
    }
}

/// A message to an instance, where it has a content stream.
pub open spec fn send_to(
    instances: Seq<InstanceView>,
    index: usize,
    message: ClientMessageView,
) -> Seq<EffectView> {
    if instances[index as int].connected {
        seq![EffectView::Send { index, message }]
    } else {
        seq![]
    }
}

/// The state once a message is to go to the active instance.
#[verifier::opaque]
pub open spec fn written_to_active(state: FleetView, message: ClientMessageView) -> FleetView {
    emitting(state, send_to(state.instances, state.active, message))
}

/// The state once an image is to go to the active instance.
pub open spec fn image_sent(state: FleetView, source: Seq<char>) -> FleetView {
    if state.instances[state.active as int].connected {
        emitted(state, EffectView::SendImage { index: state.active, source })
    } else {
        state
    }
}

/// A message for each instance that has a content stream.
pub open spec fn sends_to(
    instances: Seq<InstanceView>,
    message: ClientMessageView,
) -> Seq<EffectView>
    decreases instances.len(),
{
    if instances.len() == 0 {
        seq![]
    } else {
        let rest = sends_to(instances.drop_last(), message);
        if instances.last().connected {
            rest.push(EffectView::Send { index: (instances.len() - 1) as usize, message })
        } else {
            rest
        }
    }
}

/// The state once a message is to go to all instances.
#[verifier::opaque]
pub open spec fn sent_to_all(state: FleetView, message: ClientMessageView) -> FleetView {
    emitting(state, sends_to(state.instances, message))
}

/// The instances without what they last showed.
pub open spec fn without_frames(instances: Seq<InstanceView>) -> Seq<InstanceView> {
    instances.map_values(|instance: InstanceView| InstanceView { frame: None, ..instance })
}

/// The size that content has in a view: never less than two columns and one
/// row.
pub open spec fn content_size_in(view: ShellView) -> (u16, u16) {
    (
        if view.terminal_area.width < 2 {
            2
        } else {
            view.terminal_area.width
        },
        if view.terminal_area.height < 1 {
            1
        } else {
            view.terminal_area.height
        },
    )
}

/// The state once the content is to fit a view.
#[verifier::opaque]
pub open spec fn resized(state: FleetView, view: ShellView) -> FleetView {
    let seen = with_view(state, view);
    let (cols, rows) = content_size_in(view);
    FleetView {
        instances: without_frames(seen.instances),
        ..sent_to_all(
            seen,
            ClientMessageView::Resize {
                cols,
                rows,
                cell_width_px: seen.cell_width_px,
                cell_height_px: seen.cell_height_px,
            },
        )
    }
}

/// A request to an instance, where it takes requests.
pub open spec fn request_to(
    instances: Seq<InstanceView>,
    index: usize,
    id: Seq<char>,
    method: MethodView,
) -> Seq<EffectView> {
    if index < instances.len() && instances[index as int].accepts_requests {
        seq![EffectView::Request { index, id, method }]
    } else {
        seq![]
    }
}

/// The state once an instance is asked for something.
pub open spec fn requested(
    state: FleetView,
    index: usize,
    id: Seq<char>,
    method: MethodView,
) -> FleetView {
    emitting(state, request_to(state.instances, index, id, method))
}

/// What has the host's input source follow an instance.
pub open spec fn prefix_input_of(instance: InstanceView) -> EffectView {
    if instance.prefix_input_active {
        EffectView::SwitchPrefixInput
    } else {
        EffectView::RestorePrefixInput
    }
}

/// The state once the host's input source is to follow the active instance.
pub open spec fn prefix_input_applied(state: FleetView) -> FleetView {
    emitted(state, prefix_input_of(state.instances[state.active as int]))
}

/// A mode of the host terminal that follows the active instance.
#[derive(Debug, Clone, Copy, PartialEq, Eq, Structural)]
pub enum HostMode {
    MouseCapture(bool),
    KeyboardReportAll(bool),
}

/// The next mode in which the host differs from what the active instance wants:
/// the mouse goes first.
pub open spec fn wanted_mode(state: FleetView) -> Option<HostMode> {
    let instance = state.instances[state.active as int];
    if instance.mouse_capture != state.host.mouse_capture_active {
        Some(HostMode::MouseCapture(instance.mouse_capture))
    } else if instance.keyboard_report_all != state.host.keyboard_report_all_active {
        Some(HostMode::KeyboardReportAll(instance.keyboard_report_all))
    } else {
        None
    }
}

/// The state once the host has taken a mode.
pub open spec fn mode_applied(state: FleetView, mode: HostMode) -> FleetView {
    FleetView {
        host: match mode {
            HostMode::MouseCapture(on) => HostStateView { mouse_capture_active: on, ..state.host },
            HostMode::KeyboardReportAll(on) => HostStateView {
                keyboard_report_all_active: on,
                ..state.host
            },
        },
        ..state
    }
}

/// Whether something can be done: what goes to a content stream takes one.
pub open spec fn is_due(effect: EffectView, instances: Seq<InstanceView>) -> bool {
    match effect {
        EffectView::Send { index, .. } => index < instances.len()
            && instances[index as int].connected,
        EffectView::SendImage { index, .. } => index < instances.len()
            && instances[index as int].connected,
        _ => true,
    }
}

/// The next thing that can be done, and what is left after it.
pub open spec fn next_due(effects: Seq<EffectView>, instances: Seq<InstanceView>) -> (
    Option<EffectView>,
    Seq<EffectView>,
)
    decreases effects.len(),
{
    if effects.len() == 0 {
        (None, effects)
    } else if is_due(effects[0], instances) {
        (Some(effects[0]), effects.skip(1))
    } else {
        next_due(effects.skip(1), instances)
    }
}

/// The width of the sidebar on a screen, which leaves two columns to the
/// content.
pub open spec fn sidebar_width_on(view: ShellView, cols: u16) -> u16 {
    let most = if cols < 2 {
        0
    } else {
        (cols - 2) as u16
    };
    if view.sidebar_rect.width < most {
        view.sidebar_rect.width
    } else {
        most
    }
}

/// Whether a mode keeps the selection where the user put it.
pub open spec fn keeps_selection(mode: Mode) -> bool {
    mode == Mode::RenameWorkspace || mode == Mode::ContextMenu || mode == Mode::ConfirmClose || mode
        == Mode::Navigate
}

/// The state once the sidebar shows the instances as they are. `view` is where
/// it and the content are then.
#[verifier::opaque]
pub open spec fn synced(state: FleetView, view: ShellView) -> FleetView {
    let keys = with_keys(state.projection, sidebar_keys(state.instances));
    let model = sidebar_model(state.instances, state.active, keys);
    with_view(
        FleetView {
            projection: keys,
            sidebar: AppStateView {
                rows: model.rows,
                active: model.active,
                selected: if keeps_selection(state.sidebar.mode) {
                    state.sidebar.selected
                } else {
                    model.selected
                },
                ..state.sidebar
            },
            ..state
        },
        view,
    )
}

/// The layout of the shell, as the registry keeps it.
pub open spec fn current_presentation(sidebar: AppStateView) -> FleetPresentationView {
    FleetPresentationView {
        sidebar_width: Some(sidebar.sidebar_width),
        sidebar_section_split: Some(sidebar.sidebar_section_split),
        collapsed_space_keys: sidebar.collapsed_space_keys,
    }
}

/// The state once the layout of the shell was looked at, and the layout to save,
/// where it differs from the one that is saved.
pub open spec fn layout_saved(state: FleetView, saved: FleetPresentationView) -> (
    FleetView,
    Option<FleetPresentationView>,
) {
    (
        with_sidebar(state, AppStateView { session_dirty: false, ..state.sidebar }),
        if equal_presentations(saved, current_presentation(state.sidebar)) {
            None
        } else {
            Some(current_presentation(state.sidebar))
        },
    )
}

/// Whether the client goes on, where it may have been told to stop.
pub open spec fn is_going_on(state: FleetView, told_to_stop: bool) -> bool {
    !told_to_stop && !state.quit_requested
}

/// Copies of a list of texts.
pub fn copy_texts(list: &Vec<String>) -> (r: Vec<String>)
    ensures
        texts(r@) == texts(list@),
{
    let mut r: Vec<String> = Vec::new();
    let mut i: usize = 0;
    while i < list.len()
        invariant
            i <= list@.len(),
            r@.len() == i,
            forall|j: int| 0 <= j < i ==> (#[trigger] r@[j])@ == list@[j]@,
        decreases list@.len() - i,
    {
        r.push(list[i].clone());
        i += 1;
    }
    assert(texts(r@) =~= texts(list@));
    r
}

/// A copy of a list of bytes.
pub fn copy_bytes(bytes: &Vec<u8>) -> (r: Vec<u8>)
    ensures
        r@ == bytes@,
{
    let mut r: Vec<u8> = Vec::new();
    let mut i: usize = 0;
    while i < bytes.len()
        invariant
            i <= bytes@.len(),
            r@ == bytes@.take(i as int),
        decreases bytes@.len() - i,
    {
        r.push(bytes[i]);
        assert(r@ =~= bytes@.take(i + 1));
        i += 1;
    }
    assert(bytes@.take(i as int) =~= bytes@);
    r
}

/// A copy of a message.
pub fn copy_message(message: &ClientMessage) -> (r: ClientMessage)
    ensures
        r@ == message@,
{
    match message {
        ClientMessage::Input { data } => ClientMessage::Input { data: copy_bytes(data) },
        ClientMessage::InputEvents { events } => {
            let mut copied = Vec::new();
            let mut i: usize = 0;
            while i < events.len()
                invariant
                    i <= events@.len(),
                    copied@ == events@.take(i as int),
                decreases events@.len() - i,
            {
                copied.push(events[i]);
                assert(copied@ =~= events@.take(i + 1));
                i += 1;
            }
            assert(events@.take(i as int) =~= events@);
            ClientMessage::InputEvents { events: copied }
        },
        ClientMessage::Resize { cols, rows, cell_width_px, cell_height_px } =>
            ClientMessage::Resize {
                cols: *cols,
                rows: *rows,
                cell_width_px: *cell_width_px,
                cell_height_px: *cell_height_px,
            },
        ClientMessage::Detach => ClientMessage::Detach,
    }
}

/// The size that content has in a view.
pub fn content_size(view: ShellView) -> (r: (u16, u16))
    ensures
        r == content_size_in(view),
{
    (
        if view.terminal_area.width < 2 {
            2
        } else {
            view.terminal_area.width
        },
        if view.terminal_area.height < 1 {
            1
        } else {
            view.terminal_area.height
        },
    )
}

/// The instance that a target belongs to.
fn instance_of(hit: &SidebarHit) -> (r: usize)
    ensures
        r == hit_instance(hit@),
{
    match hit {
        SidebarHit::Instance { index } => *index,
        SidebarHit::Workspace { index, .. } => *index,
        SidebarHit::Tab { index, .. } => *index,
        SidebarHit::Pane { index, .. } => *index,
    }
}

/// Whether a row leads to instances that there are.
fn row_leads_home(row: &SidebarRow, count: usize) -> (r: bool)
    ensures
        r == row_is_known(row@, count as nat),
{
    if instance_of(&row.route) >= count {
        return false;
    }
    let mut i: usize = 0;
    while i < row.tab_routes.len()
        invariant
            i <= row.tab_routes@.len(),
            forall|j: int|
                0 <= j < i ==> ((#[trigger] row@.tab_routes[j]) matches Some(hit)
                    ==> hit_instance(hit) < count),
        decreases row.tab_routes@.len() - i,
    {
        assert(row@.tab_routes[i as int] == opt_hit(row.tab_routes@[i as int]));
        if let Some(hit) = &row.tab_routes[i] {
            if instance_of(hit) >= count {
                return false;
            }
        }
        i += 1;
    }
    let mut k: usize = 0;
    while k < row.pane_routes.len()
        invariant
            k <= row.pane_routes@.len(),
            forall|j: int|
                0 <= j < k ==> hit_instance((#[trigger] row@.pane_routes[j]).target) < count,
        decreases row.pane_routes@.len() - k,
    {
        assert(row@.pane_routes[k as int] == row.pane_routes@[k as int]@);
        if instance_of(&row.pane_routes[k].target) >= count {
            return false;
        }
        k += 1;
    }
    true
}

impl FleetState {
    /// Whether the active instance, and every instance that the sidebar leads to,
    /// is one of the fleet.
    pub fn is_consistent(&self) -> (r: bool)
        ensures
            r == is_sound(self@),
    {
        proof {
            reveal(shell_model);
        }
        if self.active >= self.instances.len() {
            return false;
        }
        let count: usize = self.instances.len();
        let mut i: usize = 0;
        while i < self.sidebar.rows.len()
            invariant
                i <= self.sidebar.rows@.len(),
                count == self@.instances.len(),
                self@.sidebar.rows == views(self.sidebar.rows@),
                forall|j: int|
                    0 <= j < i ==> row_is_known(#[trigger] self@.sidebar.rows[j], count as nat),
            decreases self.sidebar.rows@.len() - i,
        {
            assert(self@.sidebar.rows[i as int] == self.sidebar.rows@[i as int]@);
            if !row_leads_home(&self.sidebar.rows[i], count) {
                return false;
            }
            i += 1;
        }
        true
    }

    /// Wants something done.
    pub fn emit(&mut self, effect: Effect)
        ensures
            final(self)@ == emitted(old(self)@, effect@),
    {
        self.effects.push(effect);
        assert(self@.effects =~= old(self)@.effects.push(effect@));
    }

    /// Hands out the next thing to do. What was meant for a content stream that
    /// is gone is dropped.
    pub fn next_effect(&mut self) -> (r: Option<Effect>)
        ensures
            ({
                let (due, left) = next_due(old(self)@.effects, old(self)@.instances);
                &&& opt_view(r) == due
                &&& final(self)@ == (FleetView { effects: left, ..old(self)@ })
            }),
    {
        proof {
            reveal(instance_model);
        }
        while self.effects.len() > 0
            invariant
                next_due(self@.effects, self@.instances) == next_due(
                    old(self)@.effects,
                    old(self)@.instances,
                ),
                self@ == (FleetView { effects: self@.effects, ..old(self)@ }),
            decreases self.effects@.len(),
        {
            proof {
                reveal(instance_model);
            }
            let ghost before = self@.effects;
            let effect = self.effects.remove(0);
            assert(effect@ == before[0]);
            assert(self@.effects =~= before.skip(1));
            let due: bool = match &effect {
                Effect::Send { index, .. } => *index < self.instances.len()
                    && self.instances[*index].connected,
                Effect::SendImage { index, .. } => *index < self.instances.len()
                    && self.instances[*index].connected,
                _ => true,
            };
            if due {
                return Some(effect);
            }
        }
        assert(self@.effects =~= seq![]);
        None
    }

    /// Has the whole screen painted again.
    pub fn request_repaint(&mut self)
        ensures
            final(self)@ == repainted(old(self)@),
    {
        self.host.repaint_pending = true;
    }

    /// Takes in that the content stream of an instance is gone.
    pub fn mark_content_stream_disconnected(&mut self, index: usize)
        ensures
            final(self)@ == stream_lost(old(self)@, index as int),
    {
        if index >= self.instances.len() {
            return;
        }
        self.lose_stream(index, "disconnected".to_string());
        self.request_repaint();
    }

    /// Takes in that an instance shows nothing any more, and why.
    pub(crate) fn lose_stream(&mut self, index: usize, error: String)
        requires
            index < old(self)@.instances.len(),
        ensures
            final(self)@ == with_instance(
                old(self)@,
                index as int,
                lost_instance(old(self)@.instances[index as int], error@),
            ),
    {
        lose(&mut self.instances, index, error);
    }

    /// Sends a message to the active instance.
    pub fn write_active(&mut self, message: ClientMessage)
        requires
            old(self)@.active < old(self)@.instances.len(),
        ensures
            final(self)@ == written_to_active(old(self)@, message@),
            differs_in_effects(old(self)@, final(self)@),
    {
        proof {
            reveal(instance_model);
            reveal(written_to_active);
        }
        let index: usize = self.active;
        assert(self@.instances[index as int] == self.instances@[index as int]@);
        if !self.instances[index].connected {
            assert(self@.effects =~= old(self)@.effects + seq![]);
            return;
        }
        self.emit(Effect::Send { index, message });
        assert(self@.effects =~= old(self)@.effects + seq![
            EffectView::Send { index, message: message@ },
        ]);
    }

    /// Sends an image, which `source` tells the origin of, to the active
    /// instance.
    pub fn write_active_remote_image(&mut self, source: &str)
        requires
            old(self)@.active < old(self)@.instances.len(),
        ensures
            final(self)@ == image_sent(old(self)@, source@),
    {
        proof {
            reveal(instance_model);
        }
        let index: usize = self.active;
        assert(self@.instances[index as int] == self.instances@[index as int]@);
        if !self.instances[index].connected {
            return;
        }
        self.emit(Effect::SendImage { index, source: source.to_string() });
    }

    /// Sends a message to all instances.
    pub fn send_to_all(&mut self, message: &ClientMessage)
        ensures
            final(self)@ == sent_to_all(old(self)@, message@),
            differs_in_effects(old(self)@, final(self)@),
    {
        proof {
            reveal(instance_model);
            reveal(sent_to_all);
        }
        let ghost all = self@.instances;
        let ghost start = self@.effects;
        let mut i: usize = 0;
        assert(start + sends_to(all.take(0), message@) =~= start);
        while i < self.instances.len()
            invariant
                i <= self.instances@.len(),
                all == self@.instances,
                start == old(self)@.effects,
                self@ == (FleetView {
                    effects: start + sends_to(all.take(i as int), message@),
                    ..old(self)@
                }),
            decreases self.instances@.len() - i,
        {
            proof {
                reveal(instance_model);
            }
            assert(all.take(i + 1).drop_last() =~= all.take(i as int));
            assert(all.take(i + 1).last() == self.instances@[i as int]@);
            if self.instances[i].connected {
                self.emit(Effect::Send { index: i, message: copy_message(message) });
                assert(self@.effects =~= start + sends_to(all.take(i + 1), message@));
            }
            i += 1;
        }
        assert(all.take(i as int) =~= all);
    }

    /// Sends input to all instances.
    pub fn broadcast_input(&mut self, data: Vec<u8>)
        ensures
            final(self)@ == sent_to_all(old(self)@, ClientMessageView::Input { data: data@ }),
            differs_in_effects(old(self)@, final(self)@),
    {
        self.send_to_all(&ClientMessage::Input { data });
    }

    /// Sends input to the active instance, where there is any, and leaves none.
    pub fn flush_active_input(&mut self, data: &mut Vec<u8>)
        requires
            old(self)@.active < old(self)@.instances.len(),
        ensures
            final(self)@ == flushed(old(self)@, old(data)@),
            differs_in_effects(old(self)@, final(self)@),
            final(data)@ == Seq::<u8>::empty(),
    {
        if data.len() == 0 {
            assert(data@ =~= Seq::empty());
            return;
        }
        let taken = copy_bytes(data);
        data.clear();
        self.write_active(ClientMessage::Input { data: taken });
    }

    /// Has the active instance leave a prefix that it was sent.
    pub fn cancel_active_server_prefix(&mut self)
        requires
            old(self)@.active < old(self)@.instances.len(),
        ensures
            final(self)@ == prefix_cancelled(old(self)@),
            differs_in_effects(old(self)@, final(self)@),
    {
        let mut data: Vec<u8> = Vec::new();
        data.push(0x1b);
        assert(data@ =~= seq![0x1bu8]);
        self.write_active(ClientMessage::Input { data });
    }

    /// Puts the sidebar and the content at other places.
    pub fn update_sidebar_geometry(&mut self, view: ShellView)
        ensures
            final(self)@ == with_view(old(self)@, view),
    {
        proof {
            reveal(shell_model);
        }
        self.sidebar.view = view;
    }

    /// The width of the sidebar on a screen.
    pub fn current_sidebar_width(&self, cols: u16) -> (r: u16)
        ensures
            r == sidebar_width_on(self@.sidebar.view, cols),
    {
        proof {
            reveal(shell_model);
        }
        let most: u16 = cols.saturating_sub(2);
        if self.sidebar.view.sidebar_rect.width < most {
            self.sidebar.view.sidebar_rect.width
        } else {
            most
        }
    }

    /// Has the content fit a view: what the instances last showed is dropped, and
    /// they are told its size.
    pub fn resize_content_streams(&mut self, view: ShellView)
        ensures
            final(self)@ == resized(old(self)@, view),
    {
        proof {
            reveal(resized);
            reveal(sent_to_all);
        }
        self.update_sidebar_geometry(view);
        let (cols, rows): (u16, u16) = content_size(view);
        self.send_to_all(
            &ClientMessage::Resize {
                cols,
                rows,
                cell_width_px: self.cell_width_px,
                cell_height_px: self.cell_height_px,
            },
        );
        self.drop_frames();
    }

    /// Drops what the instances last showed.
    fn drop_frames(&mut self)
        ensures
            final(self)@ == (FleetView {
                instances: without_frames(old(self)@.instances),
                ..old(self)@
            }),
    {
        let ghost state = self@;
        let ghost all = state.instances;
        let mut i: usize = 0;
        let count: usize = self.instances.len();
        while i < count
            invariant
                i <= count,
                count == all.len(),
                all == state.instances,
                self@.instances.len() == all.len(),
                self@ == (FleetView { instances: self@.instances, ..state }),
                forall|j: int|
                    0 <= j < i ==> #[trigger] self@.instances[j] == (InstanceView {
                        frame: None,
                        ..all[j]
                    }),
                forall|j: int| i <= j < all.len() ==> #[trigger] self@.instances[j] == all[j],
            decreases count - i,
        {
            drop_frame(&mut self.instances, i);
            i += 1;
        }
        assert(self@.instances =~= without_frames(all));
    }

    /// Asks an instance for something.
    pub fn request_for_instance(&mut self, index: usize, id: &str, method: Method)
        ensures
            final(self)@ == requested(old(self)@, index, id@, method@),
    {
        proof {
            reveal(instance_model);
        }
        if index >= self.instances.len() {
            assert(self@.effects =~= old(self)@.effects + seq![]);
            return;
        }
        assert(self@.instances[index as int] == self.instances@[index as int]@);
        if !self.instances[index].accepts_requests {
            assert(self@.effects =~= old(self)@.effects + seq![]);
            return;
        }
        self.emit(Effect::Request { index, id: id.to_string(), method });
        assert(self@.effects =~= old(self)@.effects + seq![
            EffectView::Request { index, id: id@, method: method@ },
        ]);
    }

    /// Asks the active instance for something.
    pub fn request_for_active(&mut self, id: &str, method: Method)
        ensures
            final(self)@ == requested(old(self)@, old(self)@.active, id@, method@),
    {
        self.request_for_instance(self.active, id, method);
    }

    /// Has the modes of the host follow the active instance.
    pub fn apply_active_host_modes(&mut self)
        ensures
            final(self)@ == emitted(old(self)@, EffectView::ApplyHostModes),
    {
        self.emit(Effect::ApplyHostModes);
    }

    /// The next mode that the host has to take to follow the active instance.
    pub fn next_host_mode(&self) -> (r: Option<HostMode>)
        requires
            self@.active < self@.instances.len(),
        ensures
            r == wanted_mode(self@),
    {
        proof {
            reveal(instance_model);
        }
        assert(self@.instances[self.active as int] == self.instances@[self.active as int]@);
        let mouse: bool = self.instances[self.active].mouse_capture;
        if mouse != self.host.mouse_capture_active {
            return Some(HostMode::MouseCapture(mouse));
        }
        let keyboard: bool = self.instances[self.active].keyboard_report_all;
        if keyboard != self.host.keyboard_report_all_active {
            return Some(HostMode::KeyboardReportAll(keyboard));
        }
        None
    }

    /// Takes in that the host has taken a mode.
    pub fn host_mode_applied(&mut self, mode: HostMode)
        ensures
            final(self)@ == mode_applied(old(self)@, mode),
    {
        match mode {
            HostMode::MouseCapture(on) => {
                self.host.mouse_capture_active = on;
            },
            HostMode::KeyboardReportAll(on) => {
                self.host.keyboard_report_all_active = on;
            },
        }
    }

    /// Has the host's input source follow the active instance.
    pub fn apply_active_prefix_input_source(&mut self)
        requires
            old(self)@.active < old(self)@.instances.len(),
        ensures
            final(self)@ == prefix_input_applied(old(self)@),
    {
        proof {
            reveal(instance_model);
        }
        assert(self@.instances[self.active as int] == self.instances@[self.active as int]@);
        if self.instances[self.active].prefix_input_active {
            self.emit(Effect::SwitchPrefixInput);
        } else {
            self.emit(Effect::RestorePrefixInput);
        }
    }

    /// Brings the sidebar up to date with the instances. `view` is where it and
    /// the content are then.
    pub fn sync_sidebar_model(&mut self, view: ShellView)
        ensures
            final(self)@ == synced(old(self)@, view),
    {
        proof {
            reveal(shell_model);
            reveal(synced);
        }
        let model = build_sidebar_state(&self.instances, self.active, &mut self.projection);
        self.sidebar.rows = model.rows;
        self.sidebar.active = model.active;
        let kept: bool = match self.sidebar.mode {
            Mode::RenameWorkspace => true,
            Mode::ContextMenu => true,
            Mode::ConfirmClose => true,
            Mode::Navigate => true,
            _ => false,
        };
        if !kept {
            self.sidebar.selected = model.selected;
        }
        self.update_sidebar_geometry(view);
    }

    /// The layout to save, where it differs from the one that is saved.
    pub fn persist_fleet_presentation(&mut self, saved: &FleetPresentation) -> (r: Option<
        FleetPresentation,
    >)
        ensures
            (final(self)@, opt_view(r)) == layout_saved(old(self)@, saved@),
    {
        proof {
            reveal(shell_model);
        }
        self.sidebar.session_dirty = false;
        let presentation = FleetPresentation {
            sidebar_width: Some(self.sidebar.sidebar_width),
            sidebar_section_split: Some(self.sidebar.sidebar_section_split),
            collapsed_space_keys: copy_texts(&self.sidebar.collapsed_space_keys),
        };
        if saved.equals(&presentation) {
            return None;
        }
        Some(presentation)
    }

    /// Whether the client goes on, where it may have been told to stop.
    pub fn goes_on(&self, told_to_stop: bool) -> (r: bool)
        ensures
            r == is_going_on(self@, told_to_stop),
    {
        !told_to_stop && !self.quit_requested
    }

    /// Takes leave of all instances.
    pub fn detach_all(&mut self)
        ensures
            final(self)@ == sent_to_all(old(self)@, ClientMessageView::Detach),
    {
        self.send_to_all(&ClientMessage::Detach);
    }
}

/// The state once input is to go to the active instance, where there is any.
pub open spec fn flushed(state: FleetView, data: Seq<u8>) -> FleetView {
    if data.len() == 0 {
        state
    } else {
        written_to_active(state, ClientMessageView::Input { data })
    }
}

/// The state once the active instance is to leave a prefix.
pub open spec fn prefix_cancelled(state: FleetView) -> FleetView {
    written_to_active(state, ClientMessageView::Input { data: seq![0x1bu8] })
}

} // verus!
