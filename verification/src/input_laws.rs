//! What becomes of each piece of input from the host terminal.

use vstd::prelude::*;
use vstd::string::*;

use crate::app_state::{
    law_reported_color_is_known, law_told_appearance_is_known, AppStateView, Mode, ShellView,
};
use crate::fleet_state::{resized, sent_to_all, FleetView, HostStateView};
use crate::messages::{
    ClientInputEvent, ClientMessageView, ClientSidebarActionView, EffectView, MouseEvent,
};
use crate::raw_input::{
    event_routed, facts_taken, input_begun, input_finished, mouse_begun, mouse_finished,
    screen_resized, shell_settled, with_change, ImageSource, MouseInputRoute, RawInputFacts,
    RawRouteView, RoutedEventView,
};
use crate::sidebar_actions::action_dispatched;
use crate::state_laws::{
    law_messages_go_to_the_active_instance, law_prefixes_are_left_by_an_escape,
    law_waiting_input_is_sent,
};
use crate::terminal_theme::{with_palette_entries, DefaultColorKind, HostAppearance, RgbColor};

verus! {

/// The state once bytes are on their way to the active instance, where it has a
/// content stream.
pub open spec fn with_input(state: FleetView, data: Seq<u8>) -> FleetView {
    FleetView {
        effects: if state.instances[state.active as int].connected {
            state.effects.push(
                EffectView::Send {
                    index: state.active,
                    message: ClientMessageView::Input { data },
                },
            )
        } else {
            state.effects
        },
        ..state
    }
}

/// The state once what waits is on its way to the active instance: nothing is
/// sent where nothing waits.
pub open spec fn with_waiting(state: FleetView, data: Seq<u8>) -> FleetView {
    if data.len() > 0 {
        with_input(state, data)
    } else {
        state
    }
}

/// Where an event ends: its own end, or that of the input where it is longer.
pub open spec fn event_end(route: RawRouteView, start: usize, len: usize) -> int {
    if start + len < route.data.len() {
        start + len
    } else {
        route.data.len() as int
    }
}

/// The bytes of an event.
pub open spec fn own_bytes(route: RawRouteView, start: usize, len: usize) -> Seq<u8> {
    route.data.subrange(start as int, event_end(route, start, len))
}

/// What waits to be forwarded when an event comes: what waited before, and what
/// lies between the last event and this one.
pub open spec fn waiting_before(route: RawRouteView, start: usize) -> Seq<u8> {
    if start > route.offset {
        route.forward + route.data.subrange(route.offset as int, start as int)
    } else {
        route.forward
    }
}

/// Whether a route was read on to the end of an event, with some bytes waiting now.
/// What was read before is not read again.
pub open spec fn is_read_on(
    before: RawRouteView,
    after: RawRouteView,
    start: usize,
    len: usize,
    waiting: Seq<u8>,
    changed: bool,
) -> bool {
    &&& after.data == before.data
    &&& after.forward == waiting
    &&& after.offset == if event_end(before, start, len) > before.offset {
        event_end(before, start, len)
    } else {
        before.offset as int
    }
    &&& after.shell_changed == (before.shell_changed || changed)
    &&& after.previous_width == before.previous_width
}

/// Whether an event lies within the input of a route.
pub open spec fn is_within(route: RawRouteView, start: usize) -> bool {
    start <= route.data.len() <= usize::MAX && route.offset <= route.data.len()
}

/// An event that is forwarded waits behind what waits already.
pub proof fn law_forwarded_events_wait(
    state: FleetView,
    route: RawRouteView,
    start: usize,
    len: usize,
)
    requires
        is_within(route, start),
    ensures
        ({
            let (after, read) = event_routed(state, route, start, len, RoutedEventView::Forward);
            &&& after == state
            &&& is_read_on(
                route,
                read,
                start,
                len,
                waiting_before(route, start) + own_bytes(route, start, len),
                false,
            )
        }),
{
}

/// A key that is forwarded waits behind what waits already. Where it put the shell
/// into a prefix, its bytes are kept.
pub proof fn law_forwarded_keys_wait(
    state: FleetView,
    route: RawRouteView,
    start: usize,
    len: usize,
    previous_mode: Mode,
)
    requires
        is_within(route, start),
    ensures
        ({
            let (after, read) = event_routed(
                state,
                route,
                start,
                len,
                RoutedEventView::ForwardedKey { previous_mode },
            );
            let raw = own_bytes(route, start, len);
            let entered = previous_mode is Terminal && state.sidebar.mode is Prefix;
            &&& entered ==> after == (FleetView { pending_prefix_bytes: raw, ..state })
            &&& !entered ==> after == state
            &&& is_read_on(route, read, start, len, waiting_before(route, start) + raw, false)
        }),
{
}

/// Before a use of the mouse is seen, what waits is sent. The bytes that tell of
/// the mouse are not forwarded.
pub proof fn law_mouse_comes_after_what_waits(
    state: FleetView,
    route: RawRouteView,
    start: usize,
    len: usize,
)
    requires
        is_within(route, start),
    ensures
        ({
            let (after, read) = event_routed(state, route, start, len, RoutedEventView::Mouse);
            &&& after == with_waiting(state, waiting_before(route, start))
            &&& is_read_on(route, read, start, len, Seq::empty(), false)
        }),
{
    law_waiting_input_is_sent(state, waiting_before(route, start));
}

/// A key that goes with a prefix is sent with the bytes of the prefix before it,
/// once what waits has been sent.
pub proof fn law_keys_follow_their_prefix(
    state: FleetView,
    route: RawRouteView,
    start: usize,
    len: usize,
)
    requires
        is_within(route, start),
    ensures
        ({
            let (after, read) = event_routed(
                state,
                route,
                start,
                len,
                RoutedEventView::KeyWithPrefix,
            );
            &&& after == with_input(
                with_waiting(state, waiting_before(route, start)),
                state.pending_prefix_bytes + own_bytes(route, start, len),
            )
            &&& is_read_on(route, read, start, len, Seq::empty(), true)
        }),
{
    let waiting = waiting_before(route, start);
    law_waiting_input_is_sent(state, waiting);
    law_messages_go_to_the_active_instance(
        with_waiting(state, waiting),
        ClientMessageView::Input {
            data: state.pending_prefix_bytes + own_bytes(route, start, len),
        },
    );
}

/// A key that ends a prefix has the active instance leave the prefix too, once what
/// waits has been sent; the key's action comes last. Its bytes are not forwarded.
pub proof fn law_prefixes_end_on_both_sides(
    state: FleetView,
    route: RawRouteView,
    start: usize,
    len: usize,
    action: Option<ClientSidebarActionView>,
)
    requires
        is_within(route, start),
    ensures
        ({
            let (after, read) = event_routed(
                state,
                route,
                start,
                len,
                RoutedEventView::KeyCancellingPrefix { action },
            );
            let left = with_input(
                with_waiting(state, waiting_before(route, start)),
                seq![0x1b],
            );
            &&& action is None ==> after == left
            &&& action matches Some(action) ==> after == action_dispatched(left, action)
            &&& is_read_on(route, read, start, len, Seq::empty(), true)
        }),
{
    let waiting = waiting_before(route, start);
    law_waiting_input_is_sent(state, waiting);
    law_prefixes_are_left_by_an_escape(with_waiting(state, waiting));
}

/// A key or a text that the shell takes is not forwarded, and has the shell
/// changed. What a key asks for is done; what waits goes on waiting.
pub proof fn law_taken_input_changes_the_shell(
    state: FleetView,
    route: RawRouteView,
    start: usize,
    len: usize,
    action: Option<ClientSidebarActionView>,
)
    requires
        is_within(route, start),
    ensures
        ({
            let (after_key, read_key) = event_routed(
                state,
                route,
                start,
                len,
                RoutedEventView::TakenKey { action },
            );
            let (after_text, read_text) = event_routed(
                state,
                route,
                start,
                len,
                RoutedEventView::TakenText,
            );
            let waiting = waiting_before(route, start);
            &&& action is None ==> after_key == state
            &&& action matches Some(action) ==> after_key == action_dispatched(state, action)
            &&& after_text == state
            &&& is_read_on(route, read_key, start, len, waiting, true)
            &&& is_read_on(route, read_text, start, len, waiting, true)
        }),
{
}

/// The size of the host's cells is known once it is reported, and the report is
/// not forwarded.
pub proof fn law_reported_cells_are_known(
    state: FleetView,
    route: RawRouteView,
    start: usize,
    len: usize,
    width_px: u32,
    height_px: u32,
)
    requires
        is_within(route, start),
    ensures
        ({
            let (after, read) = event_routed(
                state,
                route,
                start,
                len,
                RoutedEventView::HostCellSizeReport { width_px, height_px },
            );
            &&& after == (FleetView {
                cell_width_px: width_px,
                cell_height_px: height_px,
                ..state
            })
            &&& is_read_on(route, read, start, len, waiting_before(route, start), false)
        }),
{
}

/// Whether a report of the host was shared: what waits was sent first, then every
/// instance got the bytes of the report.
pub open spec fn is_shared(
    before: FleetView,
    after: FleetView,
    route: RawRouteView,
    start: usize,
    len: usize,
) -> bool {
    after == sent_to_all(
        FleetView {
            sidebar: after.sidebar,
            ..with_waiting(before, waiting_before(route, start))
        },
        ClientMessageView::Input { data: own_bytes(route, start, len) },
    )
}

/// A default colour that the host reports is known to the shell, and shared with
/// all instances. A background tells the appearance, unless the host has told it in
/// so many words.
pub proof fn law_default_colors_are_shared(
    state: FleetView,
    route: RawRouteView,
    start: usize,
    len: usize,
    kind: DefaultColorKind,
    color: RgbColor,
    inferred: HostAppearance,
)
    requires
        is_within(route, start),
    ensures
        ({
            let (after, read) = event_routed(
                state,
                route,
                start,
                len,
                RoutedEventView::HostDefaultColor { kind, color, inferred },
            );
            let shown = after.sidebar.theme != state.sidebar.theme
                || after.sidebar.host_terminal_theme != state.sidebar.host_terminal_theme;
            let known = after.sidebar.host_terminal_theme;
            &&& is_shared(state, after, route, start, len)
            &&& is_read_on(route, read, start, len, Seq::empty(), shown)
            &&& kind is Foreground ==> known.foreground == Some(color) && known.background
                == state.sidebar.host_terminal_theme.background
            &&& kind is Background ==> known.background == Some(color) && known.foreground
                == state.sidebar.host_terminal_theme.foreground
            &&& known.palette == state.sidebar.host_terminal_theme.palette
            &&& kind is Background && !state.sidebar.host_terminal_appearance_explicit
                ==> after.sidebar.host_terminal_appearance == Some(inferred)
            &&& !(kind is Background && !state.sidebar.host_terminal_appearance_explicit)
                ==> after.sidebar.host_terminal_appearance
                == state.sidebar.host_terminal_appearance
        }),
{
    reveal(sent_to_all);
    law_waiting_input_is_sent(state, waiting_before(route, start));
    law_reported_color_is_known(state.sidebar, kind, color, inferred);
}

/// The colours of the palette that the host reports are known to the shell, and
/// shared with all instances.
pub proof fn law_palettes_are_shared(
    state: FleetView,
    route: RawRouteView,
    start: usize,
    len: usize,
    colors: Seq<(u8, RgbColor)>,
)
    requires
        is_within(route, start),
    ensures
        ({
            let (after, read) = event_routed(
                state,
                route,
                start,
                len,
                RoutedEventView::HostPaletteColors { colors },
            );
            &&& is_shared(state, after, route, start, len)
            &&& after.sidebar == (AppStateView {
                host_terminal_theme: with_palette_entries(
                    state.sidebar.host_terminal_theme,
                    colors,
                ),
                ..state.sidebar
            })
            &&& is_read_on(
                route,
                read,
                start,
                len,
                Seq::empty(),
                after.sidebar.host_terminal_theme != state.sidebar.host_terminal_theme,
            )
        }),
{
    reveal(sent_to_all);
    law_waiting_input_is_sent(state, waiting_before(route, start));
}

/// A colour scheme that the host reports is known to the shell as told in so many
/// words, and shared with all instances.
pub proof fn law_color_schemes_are_shared(
    state: FleetView,
    route: RawRouteView,
    start: usize,
    len: usize,
    appearance: HostAppearance,
)
    requires
        is_within(route, start),
    ensures
        ({
            let (after, read) = event_routed(
                state,
                route,
                start,
                len,
                RoutedEventView::HostColorSchemeChanged { appearance },
            );
            &&& is_shared(state, after, route, start, len)
            &&& after.sidebar.host_terminal_appearance == Some(appearance)
            &&& after.sidebar.host_terminal_appearance_explicit
            &&& after.sidebar.host_terminal_theme == state.sidebar.host_terminal_theme
            &&& is_read_on(
                route,
                read,
                start,
                len,
                Seq::empty(),
                after.sidebar.theme != state.sidebar.theme,
            )
        }),
{
    reveal(sent_to_all);
    law_waiting_input_is_sent(state, waiting_before(route, start));
    law_told_appearance_is_known(state.sidebar, Some(appearance), true);
}

/// What a piece of input says of the host is known before anything is routed: a
/// repaint is due where it asks for one, the colours are asked for where it says
/// so, and the size of the cells is the one it tells. Nothing else differs.
pub proof fn law_facts_are_known(state: FleetView, facts: RawInputFacts)
    ensures
        ({
            let after = facts_taken(state, facts);
            &&& after.host == (HostStateView {
                repaint_pending: after.host.repaint_pending,
                ..state.host
            })
            &&& after.host.repaint_pending <==> state.host.repaint_pending || facts.redraw
            &&& facts.query_theme ==> after.effects == state.effects.push(
                EffectView::QueryHostTheme,
            )
            &&& !facts.query_theme ==> after.effects == state.effects
            &&& facts.cell_size matches Some(size) ==> (after.cell_width_px, after.cell_height_px)
                == size
            &&& facts.cell_size is None ==> after.cell_width_px == state.cell_width_px
                && after.cell_height_px == state.cell_height_px
            &&& after == (FleetView {
                host: after.host,
                effects: after.effects,
                cell_width_px: after.cell_width_px,
                cell_height_px: after.cell_height_px,
                ..state
            })
        }),
{
}

/// Input that stands for an image has the image sent to the active instance, with
/// where it comes from, and nothing is routed.
pub proof fn law_images_are_sent_instead(
    state: FleetView,
    data: Seq<u8>,
    facts: RawInputFacts,
    source: ImageSource,
    has_events: bool,
)
    ensures
        ({
            let (after, route) = input_begun(state, data, facts, Some(source), has_events);
            let known = facts_taken(state, facts);
            &&& route is None
            &&& after == (FleetView {
                effects: if state.instances[state.active as int].connected {
                    known.effects.push(
                        EffectView::SendImage {
                            index: state.active,
                            source: if source is ClipboardPaste {
                                "clipboard paste"@
                            } else {
                                "file drop"@
                            },
                        },
                    )
                } else {
                    known.effects
                },
                ..known
            })
        }),
{
}

/// Input without events goes to the active instance as it came; input with events
/// is routed from its start, with nothing waiting and the sidebar as wide as it is.
pub proof fn law_input_is_routed_from_its_start(
    state: FleetView,
    data: Seq<u8>,
    facts: RawInputFacts,
)
    ensures
        ({
            let known = facts_taken(state, facts);
            let (sent, none) = input_begun(state, data, facts, None, false);
            let (after, some) = input_begun(state, data, facts, None, true);
            let most = if state.host.reported_cols < 2 {
                0
            } else {
                state.host.reported_cols - 2
            };
            &&& none is None
            &&& sent == with_input(known, data)
            &&& after == known
            &&& some matches Some(route) && {
                &&& route.data == data
                &&& route.forward.len() == 0
                &&& route.offset == 0
                &&& !route.shell_changed
                &&& state.sidebar.view.sidebar_rect.width <= most ==> route.previous_width
                    == state.sidebar.view.sidebar_rect.width
                &&& state.sidebar.view.sidebar_rect.width > most ==> route.previous_width == most
            }
        }),
{
    law_messages_go_to_the_active_instance(
        facts_taken(state, facts),
        ClientMessageView::Input { data },
    );
}

/// The state with the sidebar and the content where they are now, and the content
/// fitted where the sidebar has another width than it had.
pub open spec fn fitted(state: FleetView, width: u16, view: ShellView) -> FleetView {
    let most = if state.host.reported_cols < 2 {
        0
    } else {
        state.host.reported_cols - 2
    };
    let wide = if view.sidebar_rect.width < most {
        view.sidebar_rect.width as int
    } else {
        most
    };
    let seen = FleetView { sidebar: AppStateView { view, ..state.sidebar }, ..state };
    if wide != width {
        resized(seen, view)
    } else {
        seen
    }
}

/// When all events are routed, what is left of the input is sent with what waits.
/// Where the shell changed, the content is fitted, the layout is saved and the
/// whole screen is painted, in this order.
pub proof fn law_routing_ends_with_the_rest(
    state: FleetView,
    route: RawRouteView,
    view: ShellView,
)
    requires
        route.offset <= route.data.len(),
    ensures
        ({
            let after = input_finished(state, route, view);
            let sent = with_waiting(
                state,
                route.forward + route.data.skip(route.offset as int),
            );
            let fit = fitted(sent, route.previous_width, view);
            &&& !route.shell_changed ==> after == sent
            &&& route.shell_changed ==> after == (FleetView {
                host: HostStateView { repaint_pending: true, ..fit.host },
                effects: fit.effects.push(EffectView::PersistPresentation).push(
                    EffectView::Render,
                ),
                ..fit
            })
        }),
{
    let rest = route.forward + route.data.skip(route.offset as int);
    if route.offset == route.data.len() {
        assert(rest =~= route.forward);
    }
    law_waiting_input_is_sent(state, rest);
    let sent = with_waiting(state, rest);
    let fit = fitted(sent, route.previous_width, view);
    let settled = shell_settled(sent, route.previous_width, view);
    assert(settled.effects =~= fit.effects.push(EffectView::PersistPresentation).push(
        EffectView::Render,
    ));
}

/// A use of the mouse ends a prefix, on the side of the instance too. It is the
/// shell's outside the content, while the shell is in use, and while something is
/// dragged; all else goes to the active instance, with its kind and modifiers, at
/// its place in the content.
pub proof fn law_mouse_goes_where_it_points(
    state: FleetView,
    mouse: MouseEvent,
    view: ShellView,
)
    ensures
        ({
            let (after, route) = mouse_begun(state, mouse, view);
            let seen = FleetView { sidebar: AppStateView { view, ..state.sidebar }, ..state };
            let left = if state.sidebar.mode is Prefix {
                FleetView {
                    sidebar: AppStateView { mode: Mode::Terminal, ..seen.sidebar },
                    ..with_input(seen, seq![0x1b])
                }
            } else {
                seen
            };
            let area = view.terminal_area;
            let in_content = {
                &&& state.sidebar.mode is Terminal || state.sidebar.mode is Prefix
                &&& mouse.column >= area.x
                &&& mouse.row >= area.y
                &&& !state.sidebar.dragging
            };
            &&& !in_content ==> after == left && route == (MouseInputRoute::Sidebar {
                width: view.sidebar_rect.width,
            })
            &&& in_content ==> route is Content && after == (FleetView {
                effects: if state.instances[state.active as int].connected {
                    left.effects.push(
                        EffectView::Send {
                            index: state.active,
                            message: ClientMessageView::InputEvents {
                                events: seq![
                                    ClientInputEvent::Mouse {
                                        kind: crate::messages::told_kind(mouse.kind),
                                        column: (mouse.column - area.x) as u16,
                                        row: (mouse.row - area.y) as u16,
                                        modifiers: mouse.modifiers,
                                    },
                                ],
                            },
                        },
                    )
                } else {
                    left.effects
                },
                ..left
            })
        }),
{
    let seen = FleetView { sidebar: AppStateView { view, ..state.sidebar }, ..state };
    law_prefixes_are_left_by_an_escape(seen);
    let left = if state.sidebar.mode is Prefix {
        FleetView {
            sidebar: AppStateView { mode: Mode::Terminal, ..seen.sidebar },
            ..with_input(seen, seq![0x1b])
        }
    } else {
        seen
    };
    law_messages_go_to_the_active_instance(
        left,
        ClientMessageView::InputEvents {
            events: seq![crate::raw_input::content_mouse(view, mouse)],
        },
    );
}

/// What the shell made of the mouse counts as a change of the shell, and has the
/// content fitted where the sidebar has another width.
pub proof fn law_dragged_sidebars_are_fitted(
    state: FleetView,
    route: RawRouteView,
    width: u16,
    view: ShellView,
)
    ensures
        mouse_finished(state, width, view) == fitted(state, width, view),
        with_change(route, true) == (RawRouteView { shell_changed: true, ..route }),
{
}

/// A host terminal of another size has the size known, the content fitted, and the
/// whole screen painted.
pub proof fn law_resized_hosts_are_fitted(
    state: FleetView,
    cols: u16,
    rows: u16,
    cell_width_px: u32,
    cell_height_px: u32,
    view: ShellView,
)
    ensures
        ({
            let after = screen_resized(state, cols, rows, cell_width_px, cell_height_px, view);
            let fit = resized(
                FleetView {
                    host: HostStateView { reported_cols: cols, reported_rows: rows, ..state.host },
                    cell_width_px,
                    cell_height_px,
                    ..state
                },
                view,
            );
            after == (FleetView {
                host: HostStateView { repaint_pending: true, ..fit.host },
                effects: fit.effects.push(EffectView::Render),
                ..fit
            })
        }),
{
}

} // verus!
