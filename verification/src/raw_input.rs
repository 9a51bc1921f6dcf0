//! Input from the host terminal: which of it the shell takes, and which goes on
//! to the instances.

use vstd::prelude::*;
use vstd::string::*;

use crate::app_state::{
    presents_differently, shell_model, with_appearance, with_host_theme, with_reported_color,
    AppStateView, Mode, ShellView,
};
use crate::compare::opt_view;
use crate::fleet_state::{
    copy_bytes, differs_in_effects, emitted, emitting, flushed, image_sent, is_sound,
    prefix_cancelled, repainted, resized, sent_to_all, sidebar_width_on, with_sidebar, with_view,
    written_to_active, FleetState, FleetView, HostStateView,
};
use crate::messages::{
    mouse_kind, told_kind, ClientInputEvent, ClientMessage, ClientMessageView, ClientSidebarAction,
    ClientSidebarActionView, Effect, EffectView, MouseEvent,
};
use crate::sidebar_actions::{action_dispatched, law_actions_keep_the_state_sound};
use crate::terminal_theme::{with_palette_entries, DefaultColorKind, HostAppearance, RgbColor};

verus! {

/// What a piece of input says of the host terminal as a whole: that the screen
/// has to be painted again, that the terminal's colours have to be asked for,
/// and the size of its cells.
#[derive(Debug, Clone, Copy)]
pub struct RawInputFacts {
    pub redraw: bool,
    pub query_theme: bool,
    pub cell_size: Option<(u32, u32)>,
}

/// Where an image that is to go to an instance comes from.
#[derive(Debug, Clone, Copy, PartialEq, Eq, Structural)]
pub enum ImageSource {
    ClipboardPaste,
    FileDrop,
}

/// What the name of an image's origin is.
pub open spec fn source_text(source: ImageSource) -> Seq<char> {
    match source {
        ImageSource::ClipboardPaste => "clipboard paste"@,
        ImageSource::FileDrop => "file drop"@,
    }
}

/// An event of the input, with what the shell made of it. A key or text that the
/// shell left alone is forwarded; a key that it took may come with an action.
#[derive(Debug)]
pub enum RoutedEvent {
    Forward,
    Mouse,
    ForwardedKey { previous_mode: Mode },
    KeyWithPrefix,
    KeyCancellingPrefix { action: Option<ClientSidebarAction> },
    TakenKey { action: Option<ClientSidebarAction> },
    TakenText,
    HostDefaultColor { kind: DefaultColorKind, color: RgbColor, inferred: HostAppearance },
    HostPaletteColors { colors: Vec<(u8, RgbColor)> },
    HostColorSchemeChanged { appearance: HostAppearance },
    HostCellSizeReport { width_px: u32, height_px: u32 },
}

/// The mathematical model of a routed event.
pub enum RoutedEventView {
    Forward,
    Mouse,
    ForwardedKey { previous_mode: Mode },
    KeyWithPrefix,
    KeyCancellingPrefix { action: Option<ClientSidebarActionView> },
    TakenKey { action: Option<ClientSidebarActionView> },
    TakenText,
    HostDefaultColor { kind: DefaultColorKind, color: RgbColor, inferred: HostAppearance },
    HostPaletteColors { colors: Seq<(u8, RgbColor)> },
    HostColorSchemeChanged { appearance: HostAppearance },
    HostCellSizeReport { width_px: u32, height_px: u32 },
}

impl View for RoutedEvent {
    type V = RoutedEventView;

    open spec fn view(&self) -> RoutedEventView {
        match self {
            RoutedEvent::Forward => RoutedEventView::Forward,
            RoutedEvent::Mouse => RoutedEventView::Mouse,
            RoutedEvent::ForwardedKey { previous_mode } => RoutedEventView::ForwardedKey {
                previous_mode: *previous_mode,
            },
            RoutedEvent::KeyWithPrefix => RoutedEventView::KeyWithPrefix,
            RoutedEvent::KeyCancellingPrefix { action } => RoutedEventView::KeyCancellingPrefix {
                action: opt_view(*action),
            },
            RoutedEvent::TakenKey { action } => RoutedEventView::TakenKey {
                action: opt_view(*action),
            },
            RoutedEvent::TakenText => RoutedEventView::TakenText,
            RoutedEvent::HostDefaultColor {
                kind,
                color,
                inferred,
            } => RoutedEventView::HostDefaultColor {
                kind: *kind,
                color: *color,
                inferred: *inferred,
            },
            RoutedEvent::HostPaletteColors { colors } => RoutedEventView::HostPaletteColors {
                colors: colors@,
            },
            RoutedEvent::HostColorSchemeChanged {
                appearance,
            } => RoutedEventView::HostColorSchemeChanged {
                appearance: *appearance,
            },
            RoutedEvent::HostCellSizeReport {
                width_px,
                height_px,
            } => RoutedEventView::HostCellSizeReport {
                width_px: *width_px,
                height_px: *height_px,
            },
        }
    }
}

/// A piece of input that is being routed: its bytes, those that wait to be
/// forwarded, how far it has been read, whether the shell changed, and how wide
/// the sidebar was before.
#[derive(Debug)]
pub struct RawRoute {
    pub data: Vec<u8>,
    pub forward: Vec<u8>,
    pub offset: usize,
    pub shell_changed: bool,
    pub previous_width: u16,
}

/// The mathematical model of input that is being routed.
pub struct RawRouteView {
    pub data: Seq<u8>,
    pub forward: Seq<u8>,
    pub offset: usize,
    pub shell_changed: bool,
    pub previous_width: u16,
}

impl View for RawRoute {
    type V = RawRouteView;

    open spec fn view(&self) -> RawRouteView {
        RawRouteView {
            data: self.data@,
            forward: self.forward@,
            offset: self.offset,
            shell_changed: self.shell_changed,
            previous_width: self.previous_width,
        }
    }
}

/// The end of a range of input, which is never past the input's own.
pub open spec fn range_end(data: Seq<u8>, start: usize, len: usize) -> int {
    if start + len > data.len() {
        data.len() as int
    } else {
        start + len
    }
}

/// The bytes of an event.
pub open spec fn event_bytes(data: Seq<u8>, start: usize, len: usize) -> Seq<u8> {
    data.subrange(start as int, range_end(data, start, len))
}

/// The route once it has been read to the end of an event, with the bytes
/// before the event waiting to be forwarded.
pub open spec fn advanced(route: RawRouteView, start: usize, len: usize) -> RawRouteView {
    let end = range_end(route.data, start, len);
    RawRouteView {
        forward: if start > route.offset {
            route.forward + route.data.subrange(route.offset as int, start as int)
        } else {
            route.forward
        },
        offset: if end > route.offset {
            end as usize
        } else {
            route.offset
        },
        ..route
    }
}

/// The route with nothing waiting to be forwarded.
pub open spec fn emptied(route: RawRouteView) -> RawRouteView {
    RawRouteView { forward: Seq::empty(), ..route }
}

/// The route with more waiting to be forwarded.
pub open spec fn with_forward(route: RawRouteView, bytes: Seq<u8>) -> RawRouteView {
    RawRouteView { forward: route.forward + bytes, ..route }
}

/// The route once the shell changed, if it did.
pub open spec fn with_change(route: RawRouteView, changed: bool) -> RawRouteView {
    RawRouteView { shell_changed: route.shell_changed || changed, ..route }
}

/// The state after an action, where there is one.
pub open spec fn maybe_dispatched(
    state: FleetView,
    action: Option<ClientSidebarActionView>,
) -> FleetView {
    match action {
        Some(action) => action_dispatched(state, action),
        None => state,
    }
}

/// The state once the host reported something: what the active instance waits
/// for goes first, then the shell takes the report in, then all instances get
/// it.
pub open spec fn report_shared(
    state: FleetView,
    waiting: Seq<u8>,
    sidebar: AppStateView,
    raw: Seq<u8>,
) -> FleetView {
    sent_to_all(
        with_sidebar(flushed(state, waiting), sidebar),
        ClientMessageView::Input { data: raw },
    )
}

/// The shell once it has taken in what the host reports, and whether what it
/// shows changed.
pub open spec fn report_taken(sidebar: AppStateView, event: RoutedEventView) -> (
    AppStateView,
    bool,
) {
    match event {
        RoutedEventView::HostDefaultColor { kind, color, inferred } => {
            let after = with_reported_color(sidebar, kind, color, inferred);
            (after, presents_differently(sidebar, after))
        },
        RoutedEventView::HostPaletteColors { colors } => {
            let after = with_host_theme(
                sidebar,
                with_palette_entries(sidebar.host_terminal_theme, colors),
            );
            (after, presents_differently(sidebar, after))
        },
        RoutedEventView::HostColorSchemeChanged { appearance } => {
            let after = with_appearance(sidebar, Some(appearance), true);
            (after, after.theme != sidebar.theme)
        },
        _ => (sidebar, false),
    }
}

/// Whether an event is a report of the host that the shell and all instances
/// take in.
pub open spec fn is_shared_report(event: RoutedEventView) -> bool {
    event is HostDefaultColor || event is HostPaletteColors || event is HostColorSchemeChanged
}

/// The state and the route after a report of the host, which is read and has
/// the bytes `raw`.
pub open spec fn report_routed(
    state: FleetView,
    read: RawRouteView,
    raw: Seq<u8>,
    event: RoutedEventView,
) -> (FleetView, RawRouteView) {
    let (sidebar, changed) = report_taken(state.sidebar, event);
    (report_shared(state, read.forward, sidebar, raw), with_change(emptied(read), changed))
}

/// The state and the route after a key that the shell took, or that goes with a
/// prefix.
pub open spec fn key_routed(
    state: FleetView,
    read: RawRouteView,
    raw: Seq<u8>,
    event: RoutedEventView,
) -> (FleetView, RawRouteView) {
    match event {
        RoutedEventView::ForwardedKey { previous_mode } => (
            if previous_mode == Mode::Terminal && state.sidebar.mode == Mode::Prefix {
                FleetView { pending_prefix_bytes: raw, ..state }
            } else {
                state
            },
            with_forward(read, raw),
        ),
        RoutedEventView::KeyWithPrefix => (
            written_to_active(
                flushed(state, read.forward),
                ClientMessageView::Input { data: state.pending_prefix_bytes + raw },
            ),
            with_change(emptied(read), true),
        ),
        RoutedEventView::KeyCancellingPrefix { action } => (
            maybe_dispatched(prefix_cancelled(flushed(state, read.forward)), action),
            with_change(emptied(read), true),
        ),
        RoutedEventView::TakenKey { action } => (
            maybe_dispatched(state, action),
            with_change(read, true),
        ),
        _ => (state, read),
    }
}

/// The state and the route after an event.
pub open spec fn event_routed(
    state: FleetView,
    route: RawRouteView,
    start: usize,
    len: usize,
    event: RoutedEventView,
) -> (FleetView, RawRouteView) {
    let raw = event_bytes(route.data, start, len);
    let read = advanced(route, start, len);
    match event {
        RoutedEventView::Forward => (state, with_forward(read, raw)),
        RoutedEventView::Mouse => (flushed(state, read.forward), emptied(read)),
        RoutedEventView::TakenText => (state, with_change(read, true)),
        RoutedEventView::HostCellSizeReport { width_px, height_px } => (
            FleetView { cell_width_px: width_px, cell_height_px: height_px, ..state },
            read,
        ),
        _ => if is_shared_report(event) {
            report_routed(state, read, raw, event)
        } else {
            key_routed(state, read, raw, event)
        },
    }
}

/// The state once it knows what a piece of input says of the host.
pub open spec fn facts_taken(state: FleetView, facts: RawInputFacts) -> FleetView {
    let asked = if facts.query_theme {
        state.effects.push(EffectView::QueryHostTheme)
    } else {
        state.effects
    };
    FleetView {
        host: HostStateView {
            repaint_pending: state.host.repaint_pending || facts.redraw,
            ..state.host
        },
        effects: asked,
        cell_width_px: match facts.cell_size {
            Some((width, _)) => width,
            None => state.cell_width_px,
        },
        cell_height_px: match facts.cell_size {
            Some((_, height)) => height,
            None => state.cell_height_px,
        },
        ..state
    }
}

/// The state once routing a piece of input has begun, and the route where there
/// is something to route event by event: an image goes to the active instance
/// instead, and so does input without events.
pub open spec fn input_begun(
    state: FleetView,
    data: Seq<u8>,
    facts: RawInputFacts,
    image: Option<ImageSource>,
    has_events: bool,
) -> (FleetView, Option<RawRouteView>) {
    let known = facts_taken(state, facts);
    match image {
        Some(source) => (image_sent(known, source_text(source)), None),
        None => if has_events {
            (
                known,
                Some(
                    RawRouteView {
                        data,
                        forward: Seq::empty(),
                        offset: 0,
                        shell_changed: false,
                        previous_width: sidebar_width_on(
                            known.sidebar.view,
                            known.host.reported_cols,
                        ),
                    },
                ),
            )
        } else {
            (written_to_active(known, ClientMessageView::Input { data }), None)
        },
    }
}

/// What is left to forward when all events have been routed.
pub open spec fn left_to_forward(route: RawRouteView) -> Seq<u8> {
    if route.offset < route.data.len() {
        route.forward + route.data.skip(route.offset as int)
    } else {
        route.forward
    }
}

/// The state once the shell has changed: the content makes room where the
/// sidebar has another width, the layout is saved, and all is rendered.
pub open spec fn shell_settled(
    state: FleetView,
    previous_width: u16,
    view: ShellView,
) -> FleetView {
    let seen = with_view(state, view);
    let fitted = if sidebar_width_on(view, state.host.reported_cols) != previous_width {
        resized(seen, view)
    } else {
        seen
    };
    emitting(repainted(fitted), seq![EffectView::PersistPresentation, EffectView::Render])
}

/// The state once a piece of input has been routed.
pub open spec fn input_finished(
    state: FleetView,
    route: RawRouteView,
    view: ShellView,
) -> FleetView {
    let sent = flushed(state, left_to_forward(route));
    if route.shell_changed {
        shell_settled(sent, route.previous_width, view)
    } else {
        sent
    }
}

/// What a use of the mouse is about.
#[derive(Debug, Clone, Copy, PartialEq, Eq, Structural)]
pub enum MouseInputRoute {
    Sidebar { width: u16 },
    Content,
}

/// The state in which the shell has left a prefix, if it was in one.
pub open spec fn prefix_left(state: FleetView) -> FleetView {
    if state.sidebar.mode == Mode::Prefix {
        with_sidebar(
            prefix_cancelled(state),
            AppStateView { mode: Mode::Terminal, ..state.sidebar },
        )
    } else {
        state
    }
}

/// Whether a use of the mouse is the shell's: anything outside the content is,
/// and all of it while the shell is in use.
pub open spec fn is_for_sidebar(sidebar: AppStateView, mouse: MouseEvent) -> bool {
    ||| sidebar.mode != Mode::Terminal
    ||| mouse.column < sidebar.view.terminal_area.x
    ||| mouse.row < sidebar.view.terminal_area.y
    ||| sidebar.dragging
}

/// A use of the mouse in the content, as its instance is told.
pub open spec fn content_mouse(view: ShellView, mouse: MouseEvent) -> ClientInputEvent {
    ClientInputEvent::Mouse {
        kind: told_kind(mouse.kind),
        column: if mouse.column < view.terminal_area.x {
            0
        } else {
            (mouse.column - view.terminal_area.x) as u16
        },
        row: if mouse.row < view.terminal_area.y {
            0
        } else {
            (mouse.row - view.terminal_area.y) as u16
        },
        modifiers: mouse.modifiers,
    }
}

/// The state once a use of the mouse has been seen, and what it is about. What
/// is about the content goes to the active instance.
pub open spec fn mouse_begun(
    state: FleetView,
    mouse: MouseEvent,
    view: ShellView,
) -> (FleetView, MouseInputRoute) {
    let seen = prefix_left(with_view(state, view));
    if is_for_sidebar(seen.sidebar, mouse) {
        (seen, MouseInputRoute::Sidebar { width: view.sidebar_rect.width })
    } else {
        (
            written_to_active(
                seen,
                ClientMessageView::InputEvents { events: seq![content_mouse(view, mouse)] },
            ),
            MouseInputRoute::Content,
        )
    }
}

/// The state once the shell has dealt with a use of the mouse: the content makes
/// room where the sidebar has another width.
pub open spec fn mouse_finished(state: FleetView, width: u16, view: ShellView) -> FleetView {
    let seen = with_view(state, view);
    if sidebar_width_on(view, state.host.reported_cols) != width {
        resized(seen, view)
    } else {
        seen
    }
}

/// Whether the active instance is a remote one: the first is the local one.
pub open spec fn is_remote_active(state: FleetView) -> bool {
    state.active != 0
}

/// Appends a part of some bytes.
fn push_range(target: &mut Vec<u8>, data: &Vec<u8>, start: usize, end: usize)
    requires
        start <= end <= data@.len(),
    ensures
        final(target)@ == old(target)@ + data@.subrange(start as int, end as int),
{
    let ghost before = target@;
    let mut i: usize = start;
    assert(before + data@.subrange(start as int, start as int) =~= before);
    while i < end
        invariant
            start <= i <= end <= data@.len(),
            target@ == before + data@.subrange(start as int, i as int),
        decreases end - i,
    {
        target.push(data[i]);
        assert(target@ =~= before + data@.subrange(start as int, i + 1));
        i += 1;
    }
}

/// A part of some bytes.
fn copy_range(data: &Vec<u8>, start: usize, end: usize) -> (r: Vec<u8>)
    requires
        start <= end <= data@.len(),
    ensures
        r@ == data@.subrange(start as int, end as int),
{
    let mut r: Vec<u8> = Vec::new();
    push_range(&mut r, data, start, end);
    assert(r@ =~= data@.subrange(start as int, end as int));
    r
}

impl RawRoute {
    /// Reads on to the end of an event, and gives the event's bytes.
    fn advance(&mut self, start: usize, len: usize) -> (raw: Vec<u8>)
        requires
            start <= old(self)@.data.len(),
            old(self)@.offset <= old(self)@.data.len(),
        ensures
            final(self)@ == advanced(old(self)@, start, len),
            raw@ == event_bytes(old(self)@.data, start, len),
    {
        if start > self.offset {
            push_range(&mut self.forward, &self.data, self.offset, start);
        }
        let end: usize = if len > self.data.len() - start {
            self.data.len()
        } else {
            start + len
        };
        if end > self.offset {
            self.offset = end;
        }
        copy_range(&self.data, start, end)
    }

    /// Takes in that the shell changed, if it did.
    fn note_change(&mut self, changed: bool)
        ensures
            final(self)@ == with_change(old(self)@, changed),
    {
        self.shell_changed = self.shell_changed || changed;
    }
}

impl FleetState {
    /// Whether the active instance is a remote one.
    pub fn active_is_remote(&self) -> (r: bool)
        ensures
            r == is_remote_active(self@),
    {
        self.active != 0
    }

    fn take_facts(&mut self, facts: RawInputFacts)
        ensures
            final(self)@ == facts_taken(old(self)@, facts),
    {
        if facts.redraw {
            self.request_repaint();
        }
        if facts.query_theme {
            self.emit(Effect::QueryHostTheme);
        }
        if let Some((width, height)) = facts.cell_size {
            self.cell_width_px = width;
            self.cell_height_px = height;
        }
    }

    /// Begins to route a piece of input. `image` is where an image comes from
    /// that the input stands for, and `has_events` tells whether the input holds
    /// any events. Where there is a route, its events follow.
    pub fn begin_raw_input(
        &mut self,
        data: Vec<u8>,
        facts: RawInputFacts,
        image: Option<ImageSource>,
        has_events: bool,
    ) -> (r: Option<RawRoute>)
        requires
            old(self)@.active < old(self)@.instances.len(),
        ensures
            (final(self)@, opt_view(r)) == input_begun(old(self)@, data@, facts, image, has_events),
    {
        self.take_facts(facts);
        if let Some(source) = image {
            match source {
                ImageSource::ClipboardPaste => {
                    self.write_active_remote_image("clipboard paste");
                },
                ImageSource::FileDrop => {
                    self.write_active_remote_image("file drop");
                },
            }
            return None;
        }
        if !has_events {
            self.write_active(ClientMessage::Input { data });
            return None;
        }
        let previous_width: u16 = self.current_sidebar_width(self.host.reported_cols);
        let forward: Vec<u8> = Vec::new();
        assert(forward@ =~= Seq::empty());
        Some(RawRoute { data, forward, offset: 0, shell_changed: false, previous_width })
    }

    fn maybe_dispatch(&mut self, action: Option<ClientSidebarAction>)
        requires
            is_sound(old(self)@),
        ensures
            final(self)@ == maybe_dispatched(old(self)@, opt_view(action)),
    {
        if let Some(action) = action {
            self.dispatch_sidebar_action(action);
        }
    }

    /// Keeps the bytes of a key that put the shell into a prefix.
    fn keep_prefix(&mut self, previous_mode: Mode, raw: &Vec<u8>)
        ensures
            final(self)@ == if previous_mode == Mode::Terminal && old(self)@.sidebar.mode
                == Mode::Prefix {
                FleetView { pending_prefix_bytes: raw@, ..old(self)@ }
            } else {
                old(self)@
            },
    {
        proof {
            reveal(shell_model);
        }
        if previous_mode == Mode::Terminal && self.sidebar.mode == Mode::Prefix {
            self.pending_prefix_bytes = copy_bytes(raw);
        }
    }

    /// Sends a key again, with the prefix before it.
    fn replay_prefix(&mut self, raw: &Vec<u8>)
        requires
            old(self)@.active < old(self)@.instances.len(),
        ensures
            final(self)@ == written_to_active(
                old(self)@,
                ClientMessageView::Input { data: old(self)@.pending_prefix_bytes + raw@ },
            ),
            differs_in_effects(old(self)@, final(self)@),
    {
        let mut replay = copy_bytes(&self.pending_prefix_bytes);
        push_range(&mut replay, raw, 0, raw.len());
        assert(replay@ =~= self@.pending_prefix_bytes + raw@);
        self.write_active(ClientMessage::Input { data: replay });
    }

    fn take_report(&mut self, event: &RoutedEvent) -> (changed: bool)
        ensures
            (final(self)@.sidebar, changed) == report_taken(old(self)@.sidebar, event@),
            final(self)@ == with_sidebar(old(self)@, final(self)@.sidebar),
    {
        proof {
            reveal(shell_model);
        }
        match event {
            RoutedEvent::HostDefaultColor { kind, color, inferred } =>
                self.sidebar.update_host_terminal_theme_state(*kind, *color, *inferred),
            RoutedEvent::HostPaletteColors { colors } =>
                self.sidebar.update_host_terminal_palette_state(colors),
            RoutedEvent::HostColorSchemeChanged { appearance } =>
                self.sidebar.set_host_terminal_appearance_for_presentation(Some(*appearance), true),
            _ => false,
        }
    }

    fn take_cell_size(&mut self, width_px: u32, height_px: u32)
        ensures
            final(self)@ == (FleetView {
                cell_width_px: width_px,
                cell_height_px: height_px,
                ..old(self)@
            }),
    {
        self.cell_width_px = width_px;
        self.cell_height_px = height_px;
    }

    /// Routes a report of the host.
    fn route_report(&mut self, route: &mut RawRoute, raw: Vec<u8>, event: &RoutedEvent)
        requires
            old(self)@.active < old(self)@.instances.len(),
        ensures
            (final(self)@, final(route)@) == report_routed(
                old(self)@,
                old(route)@,
                raw@,
                event@,
            ),
    {
        self.flush_active_input(&mut route.forward);
        let changed: bool = self.take_report(event);
        route.note_change(changed);
        self.broadcast_input(raw);
    }

    /// Routes a key that the shell has seen.
    fn route_key(&mut self, route: &mut RawRoute, raw: Vec<u8>, event: RoutedEvent)
        requires
            is_sound(old(self)@),
        ensures
            (final(self)@, final(route)@) == key_routed(old(self)@, old(route)@, raw@, event@),
    {
        let mut raw = raw;
        match event {
            RoutedEvent::ForwardedKey { previous_mode } => {
                self.keep_prefix(previous_mode, &raw);
                route.forward.append(&mut raw);
            },
            RoutedEvent::KeyWithPrefix => {
                self.flush_active_input(&mut route.forward);
                self.replay_prefix(&raw);
                route.note_change(true);
            },
            RoutedEvent::KeyCancellingPrefix { action } => {
                self.flush_active_input(&mut route.forward);
                self.cancel_active_server_prefix();
                self.maybe_dispatch(action);
                route.note_change(true);
            },
            RoutedEvent::TakenKey { action } => {
                self.maybe_dispatch(action);
                route.note_change(true);
            },
            _ => {},
        }
    }

    /// Routes an event, which is `len` bytes long and starts at `start`.
    pub fn route_raw_input(
        &mut self,
        route: &mut RawRoute,
        start: usize,
        len: usize,
        event: RoutedEvent,
    )
        requires
            is_sound(old(self)@),
            start <= old(route)@.data.len(),
            old(route)@.offset <= old(route)@.data.len(),
        ensures
            (final(self)@, final(route)@) == event_routed(
                old(self)@,
                old(route)@,
                start,
                len,
                event@,
            ),
    {
        let mut raw = route.advance(start, len);
        match &event {
            RoutedEvent::Forward => {
                route.forward.append(&mut raw);
            },
            RoutedEvent::Mouse => {
                self.flush_active_input(&mut route.forward);
            },
            RoutedEvent::TakenText => {
                route.note_change(true);
            },
            RoutedEvent::HostCellSizeReport { width_px, height_px } => {
                self.take_cell_size(*width_px, *height_px);
            },
            RoutedEvent::HostDefaultColor { .. } => {
                self.route_report(route, raw, &event);
            },
            RoutedEvent::HostPaletteColors { .. } => {
                self.route_report(route, raw, &event);
            },
            RoutedEvent::HostColorSchemeChanged { .. } => {
                self.route_report(route, raw, &event);
            },
            _ => {
                self.route_key(route, raw, event);
            },
        }
    }

    fn settle_shell(&mut self, previous_width: u16, view: ShellView)
        ensures
            final(self)@ == shell_settled(old(self)@, previous_width, view),
    {
        self.update_sidebar_geometry(view);
        if self.current_sidebar_width(self.host.reported_cols) != previous_width {
            self.resize_content_streams(view);
        }
        self.request_repaint();
        let ghost before = self@;
        self.emit(Effect::PersistPresentation);
        self.emit(Effect::Render);
        assert(self@.effects =~= before.effects + seq![
            EffectView::PersistPresentation,
            EffectView::Render,
        ]);
    }

    /// Ends the routing of a piece of input. `view` is where the sidebar and the
    /// content are now.
    pub fn finish_raw_input(&mut self, route: RawRoute, view: ShellView)
        requires
            old(self)@.active < old(self)@.instances.len(),
        ensures
            final(self)@ == input_finished(old(self)@, route@, view),
    {
        let mut route = route;
        let ghost routed = route@;
        if route.offset < route.data.len() {
            push_range(&mut route.forward, &route.data, route.offset, route.data.len());
        }
        assert(route.forward@ =~= left_to_forward(routed));
        self.flush_active_input(&mut route.forward);
        if route.shell_changed {
            self.settle_shell(route.previous_width, view);
        }
    }

    fn leave_prefix(&mut self)
        requires
            old(self)@.active < old(self)@.instances.len(),
        ensures
            final(self)@ == prefix_left(old(self)@),
            final(self)@.active == old(self)@.active,
            final(self)@.instances == old(self)@.instances,
            final(self)@.sidebar.view == old(self)@.sidebar.view,
    {
        proof {
            reveal(shell_model);
        }
        if self.sidebar.mode == Mode::Prefix {
            self.cancel_active_server_prefix();
            self.sidebar.mode = Mode::Terminal;
        }
    }

    /// Sees a use of the mouse, and tells what it is about. `view` is where the
    /// sidebar and the content are.
    pub fn handle_mouse_input(&mut self, mouse: MouseEvent, view: ShellView) -> (r: MouseInputRoute)
        requires
            old(self)@.active < old(self)@.instances.len(),
        ensures
            (final(self)@, r) == mouse_begun(old(self)@, mouse, view),
    {
        proof {
            reveal(shell_model);
        }
        self.update_sidebar_geometry(view);
        self.leave_prefix();
        let area = view.terminal_area;
        let sidebar_related: bool = self.sidebar.mode != Mode::Terminal || mouse.column < area.x
            || mouse.row < area.y || self.sidebar.dragging;
        if sidebar_related {
            return MouseInputRoute::Sidebar { width: view.sidebar_rect.width };
        }
        if let Some(kind) = mouse_kind(mouse.kind) {
            let event = ClientInputEvent::Mouse {
                kind,
                column: mouse.column.saturating_sub(area.x),
                row: mouse.row.saturating_sub(area.y),
                modifiers: mouse.modifiers,
            };
            let mut events: Vec<ClientInputEvent> = Vec::new();
            events.push(event);
            assert(events@ =~= seq![content_mouse(view, mouse)]);
            self.write_active(ClientMessage::InputEvents { events });
        }
        MouseInputRoute::Content
    }

    /// Ends what the shell made of a use of the mouse that is part of a route.
    /// `width` is how wide the sidebar was before, and `view` where it and the
    /// content are now.
    pub fn finish_mouse_input(&mut self, route: &mut RawRoute, width: u16, view: ShellView)
        ensures
            final(self)@ == mouse_finished(old(self)@, width, view),
            final(route)@ == with_change(old(route)@, true),
    {
        route.note_change(true);
        self.update_sidebar_geometry(view);
        if self.current_sidebar_width(self.host.reported_cols) != width {
            self.resize_content_streams(view);
        }
    }

    /// Takes in that the host terminal has another size.
    pub fn handle_resize(
        &mut self,
        cols: u16,
        rows: u16,
        cell_width_px: u32,
        cell_height_px: u32,
        view: ShellView,
    )
        ensures
            final(self)@ == screen_resized(
                old(self)@,
                cols,
                rows,
                cell_width_px,
                cell_height_px,
                view,
            ),
    {
        self.host.reported_cols = cols;
        self.host.reported_rows = rows;
        self.take_cell_size(cell_width_px, cell_height_px);
        self.resize_content_streams(view);
        self.request_repaint();
        self.emit(Effect::Render);
    }
}

/// The state once the host terminal has another size: the content is fitted to
/// it, and all is rendered.
pub open spec fn screen_resized(
    state: FleetView,
    cols: u16,
    rows: u16,
    cell_width_px: u32,
    cell_height_px: u32,
    view: ShellView,
) -> FleetView {
    let sized = FleetView {
        host: HostStateView { reported_cols: cols, reported_rows: rows, ..state.host },
        cell_width_px,
        cell_height_px,
        ..state
    };
    emitted(repainted(resized(sized, view)), EffectView::Render)
}

/// Whether what waits to be forwarded is all of the input so far.
pub open spec fn forwards_all(route: RawRouteView) -> bool {
    route.offset <= route.data.len() && route.forward == route.data.take(route.offset as int)
}

/// Input that the shell leaves alone reaches the active instance byte for byte:
/// a route that forwards all of its input so far goes on doing so through events
/// that are forwarded, as long as they come in order, and what is left to
/// forward in the end is the whole input.
pub proof fn law_untouched_input_is_forwarded_whole(
    state: FleetView,
    route: RawRouteView,
    start: usize,
    len: usize,
    previous_mode: Mode,
)
    requires
        forwards_all(route),
        route.data.len() <= usize::MAX,
        route.offset <= start <= route.data.len(),
    ensures
        forwards_all(event_routed(state, route, start, len, RoutedEventView::Forward).1),
        forwards_all(
            event_routed(
                state,
                route,
                start,
                len,
                RoutedEventView::ForwardedKey { previous_mode },
            ).1,
        ),
        left_to_forward(route) == route.data,
{
    let read = advanced(route, start, len);
    let end = range_end(route.data, start, len);
    assert(route.data.take(route.offset as int) + route.data.subrange(
        route.offset as int,
        start as int,
    ) + event_bytes(route.data, start, len) =~= route.data.take(end));
    assert(read.forward + event_bytes(route.data, start, len) =~= route.data.take(end));
    assert(route.data.take(route.offset as int) + route.data.skip(route.offset as int)
        =~= route.data);
    assert(left_to_forward(route) =~= route.data);
}

/// An event with the place where it starts and the length that it has.
pub struct PlacedEvent {
    pub start: usize,
    pub len: usize,
    pub event: RoutedEventView,
}

/// The state and the route after several events.
pub open spec fn events_routed(
    state: FleetView,
    route: RawRouteView,
    events: Seq<PlacedEvent>,
) -> (FleetView, RawRouteView)
    decreases events.len(),
{
    if events.len() == 0 {
        (state, route)
    } else {
        let (before, read) = events_routed(state, route, events.drop_last());
        let last = events.last();
        event_routed(before, read, last.start, last.len, last.event)
    }
}

/// Whether events lie within the input, one after the other, and are all left
/// alone by the shell.
pub open spec fn are_left_alone(data: Seq<u8>, events: Seq<PlacedEvent>) -> bool {
    &&& forall|i: int|
        0 <= i < events.len() ==> (#[trigger] events[i]).start <= data.len() && (
        events[i].event is Forward || events[i].event is ForwardedKey)
    &&& forall|i: int, j: int|
        0 <= i < j < events.len() ==> range_end(
            data,
            (#[trigger] events[i]).start,
            events[i].len,
        ) <= (#[trigger] events[j]).start
}

/// Input whose events the shell leaves alone goes to the active instance as it
/// came, whatever the events are.
pub proof fn law_input_left_alone_arrives_as_it_came(
    state: FleetView,
    route: RawRouteView,
    events: Seq<PlacedEvent>,
)
    requires
        route.data.len() <= usize::MAX,
        route.offset == 0,
        route.forward == Seq::<u8>::empty(),
        are_left_alone(route.data, events),
    ensures
        left_to_forward(events_routed(state, route, events).1) == route.data,
        events_routed(state, route, events).1.shell_changed == route.shell_changed,
{
    lemma_events_left_alone(state, route, events);
    let routed = events_routed(state, route, events).1;
    assert(routed.data.take(routed.offset as int) + routed.data.skip(routed.offset as int)
        =~= routed.data);
    assert(left_to_forward(routed) =~= routed.data);
}

proof fn lemma_events_left_alone(
    state: FleetView,
    route: RawRouteView,
    events: Seq<PlacedEvent>,
)
    requires
        route.data.len() <= usize::MAX,
        route.offset == 0,
        route.forward == Seq::<u8>::empty(),
        are_left_alone(route.data, events),
    ensures
        ({
            let routed = events_routed(state, route, events).1;
            &&& forwards_all(routed)
            &&& routed.data == route.data
            &&& routed.shell_changed == route.shell_changed
            &&& routed.offset == if events.len() == 0 {
                0
            } else {
                range_end(route.data, events.last().start, events.last().len)
            }
        }),
    decreases events.len(),
{
    if events.len() == 0 {
        assert(route.data.take(0) =~= Seq::<u8>::empty());
    } else {
        let front = events.drop_last();
        let last = events.last();
        assert(are_left_alone(route.data, front)) by {
            assert forall|i: int| 0 <= i < front.len() implies (#[trigger] front[i]).start
                <= route.data.len() && (front[i].event is Forward
                || front[i].event is ForwardedKey) by {
                assert(front[i] == events[i]);
            }
            assert forall|i: int, j: int| 0 <= i < j < front.len() implies range_end(
                route.data,
                (#[trigger] front[i]).start,
                front[i].len,
            ) <= (#[trigger] front[j]).start by {
                assert(front[i] == events[i]);
                assert(front[j] == events[j]);
            }
        }
        lemma_events_left_alone(state, route, front);
        let (before, read) = events_routed(state, route, front);
        assert(events[events.len() - 1] == last);
        if front.len() > 0 {
            assert(front.last() == events[front.len() - 1]);
            assert(range_end(route.data, events[front.len() - 1].start, events[front.len()
                - 1].len) <= events[events.len() - 1].start);
        }
        match last.event {
            RoutedEventView::ForwardedKey { previous_mode } => {
                law_untouched_input_is_forwarded_whole(
                    before,
                    read,
                    last.start,
                    last.len,
                    previous_mode,
                );
            },
            _ => {
                law_untouched_input_is_forwarded_whole(
                    before,
                    read,
                    last.start,
                    last.len,
                    Mode::Terminal,
                );
            },
        }
    }
}

/// What the shell takes of the input is not forwarded.
pub proof fn law_taken_input_is_not_forwarded(
    state: FleetView,
    route: RawRouteView,
    start: usize,
    len: usize,
    action: Option<ClientSidebarActionView>,
)
    ensures
        event_routed(state, route, start, len, RoutedEventView::TakenText).1.forward == advanced(
            route,
            start,
            len,
        ).forward,
        event_routed(
            state,
            route,
            start,
            len,
            RoutedEventView::TakenKey { action },
        ).1.forward == advanced(route, start, len).forward,
{
}

/// An event changes neither the input nor takes back what has been read of it.
pub proof fn law_routing_reads_on(
    state: FleetView,
    route: RawRouteView,
    start: usize,
    len: usize,
    event: RoutedEventView,
)
    requires
        start <= route.data.len() <= usize::MAX,
        route.offset <= route.data.len(),
    ensures
        ({
            let after = event_routed(state, route, start, len, event).1;
            &&& after.data == route.data
            &&& route.offset <= after.offset <= route.data.len()
            &&& range_end(route.data, start, len) <= after.offset
            &&& route.shell_changed ==> after.shell_changed
            &&& after.previous_width == route.previous_width
        }),
{
}

/// Routing an event keeps the state sound.
pub proof fn law_routing_keeps_the_state_sound(
    state: FleetView,
    route: RawRouteView,
    start: usize,
    len: usize,
    event: RoutedEventView,
)
    requires
        is_sound(state),
    ensures
        is_sound(event_routed(state, route, start, len, event).0),
{
    reveal(written_to_active);
    reveal(sent_to_all);
    let read = advanced(route, start, len);
    match event {
        RoutedEventView::KeyCancellingPrefix { action } => {
            if let Some(action) = action {
                law_actions_keep_the_state_sound(
                    prefix_cancelled(flushed(state, read.forward)),
                    action,
                );
            }
        },
        RoutedEventView::TakenKey { action } => {
            if let Some(action) = action {
                law_actions_keep_the_state_sound(state, action);
            }
        },
        _ => {},
    }
}

/// An instance is told of the mouse at places counted from the corner of its
/// content.
pub proof fn law_content_mouse_is_relative(state: FleetView, mouse: MouseEvent, view: ShellView)
    requires
        mouse_begun(state, mouse, view).1 is Content,
    ensures
        content_mouse(view, mouse) matches ClientInputEvent::Mouse {
            column,
            row,
            ..
        } && column + view.terminal_area.x == mouse.column && row + view.terminal_area.y
            == mouse.row,
{
}

/// The mouse never leaves the shell in a prefix.
pub proof fn law_mouse_leaves_the_prefix(state: FleetView, mouse: MouseEvent, view: ShellView)
    ensures
        mouse_begun(state, mouse, view).0.sidebar.mode != Mode::Prefix,
{
    reveal(written_to_active);
}

} // verus!
