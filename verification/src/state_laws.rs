//! What holds of the moves that the parts of the fleet client share.

use vstd::prelude::*;

use crate::app_state::{AppStateView, Mode, ShellView};
use crate::fleet_state::{
    content_size_in, emitted, emitting, flushed, image_sent, is_due, is_going_on, keeps_selection,
    layout_saved, mode_applied, next_due, prefix_cancelled, prefix_input_applied, repainted,
    requested, resized, sends_to, sent_to_all, sidebar_width_on, stream_lost, synced, wanted_mode,
    with_view, written_to_active, FleetView, HostMode, HostStateView,
};
use crate::instance::InstanceView;
use crate::messages::{ClientMessageView, EffectView, MethodView};
use crate::registry::{
    default_presentation, equal_presentations, is_nan_bits, FleetPresentationView,
};

verus! {

/// What is wanted done is done after all that was wanted before, and nothing
/// else changes.
pub proof fn law_effects_queue_up(state: FleetView, effect: EffectView, more: Seq<EffectView>)
    ensures
        emitted(state, effect) == (FleetView { effects: state.effects.push(effect), ..state }),
        emitting(state, more) == (FleetView { effects: state.effects + more, ..state }),
{
}

/// What goes to a content stream is due where the instance has one. All else is
/// always due.
pub proof fn law_only_messages_need_a_stream(effect: EffectView, instances: Seq<InstanceView>)
    ensures
        effect matches EffectView::Send { index, .. } ==> (is_due(effect, instances) <==> index
            < instances.len() && instances[index as int].connected),
        effect matches EffectView::SendImage { index, .. } ==> (is_due(effect, instances) <==> index
            < instances.len() && instances[index as int].connected),
        !(effect is Send) && !(effect is SendImage) ==> is_due(effect, instances),
{
}

/// What is handed out is the first thing that can be done; what comes before it
/// cannot be, and what comes after it is left, in order. Nothing is handed out
/// where nothing can be done.
pub proof fn law_effects_come_in_order(effects: Seq<EffectView>, instances: Seq<InstanceView>)
    ensures
        ({
            let (due, left) = next_due(effects, instances);
            match due {
                Some(effect) => exists|i: int|
                    {
                        &&& 0 <= i < effects.len()
                        &&& effect == #[trigger] effects[i]
                        &&& is_due(effect, instances)
                        &&& left == effects.skip(i + 1)
                        &&& forall|j: int| 0 <= j < i ==> !is_due(#[trigger] effects[j], instances)
                    },
                None => {
                    &&& left.len() == 0
                    &&& forall|j: int|
                        0 <= j < effects.len() ==> !is_due(#[trigger] effects[j], instances)
                },
            }
        }),
    decreases effects.len(),
{
    if effects.len() > 0 {
        let rest = effects.skip(1);
        if is_due(effects[0], instances) {
            let first: int = 0;
            assert(effects.skip(first + 1) == rest && effects[first] == effects[0]);
        } else {
            law_effects_come_in_order(rest, instances);
            let (due, left) = next_due(rest, instances);
            match due {
                Some(effect) => {
                    let i = choose|i: int|
                        {
                            &&& 0 <= i < rest.len()
                            &&& effect == #[trigger] rest[i]
                            &&& is_due(effect, instances)
                            &&& left == rest.skip(i + 1)
                            &&& forall|j: int| 0 <= j < i ==> !is_due(#[trigger] rest[j], instances)
                        };
                    assert(effects[i + 1] == rest[i]);
                    assert(effects.skip(i + 2) =~= rest.skip(i + 1));
                    assert forall|j: int| 0 <= j < i + 1 implies !is_due(
                        #[trigger] effects[j],
                        instances,
                    ) by {
                        if j > 0 {
                            assert(rest[j - 1] == effects[j]);
                        }
                    }
                },
                None => {
                    assert forall|j: int| 0 <= j < effects.len() implies !is_due(
                        #[trigger] effects[j],
                        instances,
                    ) by {
                        if j > 0 {
                            assert(rest[j - 1] == effects[j]);
                        }
                    }
                },
            }
        }
    }
}

/// An instance whose content stream turned out to be gone shows nothing and says
/// why, and the screen is painted again. It keeps all else that is known of it,
/// and no other instance is touched.
pub proof fn law_lost_streams_are_told(state: FleetView, index: int, other: int)
    requires
        0 <= index < state.instances.len(),
        0 <= other < state.instances.len(),
    ensures
        ({
            let after = stream_lost(state, index);
            let lost = after.instances[index];
            &&& lost.error == Some("disconnected"@)
            &&& !lost.connected
            &&& lost.frame is None
            &&& lost == (InstanceView {
                error: lost.error,
                connected: lost.connected,
                frame: lost.frame,
                ..state.instances[index]
            })
            &&& after.instances.len() == state.instances.len()
            &&& other != index ==> after.instances[other] == state.instances[other]
            &&& after.host == (HostStateView { repaint_pending: true, ..state.host })
            &&& after == (FleetView { instances: after.instances, host: after.host, ..state })
        }),
{
}

/// Asking for a repaint changes nothing but that one is due.
pub proof fn law_repaints_are_asked_for(state: FleetView)
    ensures
        repainted(state) == (FleetView {
            host: HostStateView { repaint_pending: true, ..state.host },
            ..state
        }),
{
}

/// A message for the active instance goes to it and to no other, once, where it
/// has a content stream, and else nowhere.
pub proof fn law_messages_go_to_the_active_instance(state: FleetView, message: ClientMessageView)
    ensures
        ({
            let after = written_to_active(state, message);
            let connected = state.instances[state.active as int].connected;
            &&& connected ==> after.effects == state.effects.push(
                EffectView::Send { index: state.active, message },
            )
            &&& !connected ==> after.effects == state.effects
            &&& after == (FleetView { effects: after.effects, ..state })
        }),
{
    reveal(written_to_active);
    assert(state.effects + seq![EffectView::Send { index: state.active, message }]
        =~= state.effects.push(EffectView::Send { index: state.active, message }));
    assert(state.effects + Seq::<EffectView>::empty() =~= state.effects);
}

/// Input that waits goes to the active instance as one message, and where none
/// waits nothing is sent.
pub proof fn law_waiting_input_is_sent(state: FleetView, data: Seq<u8>)
    ensures
        data.len() == 0 ==> flushed(state, data) == state,
        data.len() > 0 && state.instances[state.active as int].connected ==> flushed(state, data)
            == (FleetView {
            effects: state.effects.push(
                EffectView::Send {
                    index: state.active,
                    message: ClientMessageView::Input { data },
                },
            ),
            ..state
        }),
        data.len() > 0 && !state.instances[state.active as int].connected ==> flushed(state, data)
            == state,
{
    law_messages_go_to_the_active_instance(state, ClientMessageView::Input { data });
}

/// A prefix is left by sending the active instance an escape.
pub proof fn law_prefixes_are_left_by_an_escape(state: FleetView)
    ensures
        prefix_cancelled(state) == (FleetView {
            effects: if state.instances[state.active as int].connected {
                state.effects.push(
                    EffectView::Send {
                        index: state.active,
                        message: ClientMessageView::Input { data: seq![0x1b] },
                    },
                )
            } else {
                state.effects
            },
            ..state
        }),
{
    law_messages_go_to_the_active_instance(
        state,
        ClientMessageView::Input { data: seq![0x1bu8] },
    );
}

/// An image goes to the active instance and to no other, with where it comes
/// from, where that instance has a content stream.
pub proof fn law_images_go_to_the_active_instance(state: FleetView, source: Seq<char>)
    ensures
        ({
            let after = image_sent(state, source);
            let connected = state.instances[state.active as int].connected;
            &&& connected ==> after.effects == state.effects.push(
                EffectView::SendImage { index: state.active, source },
            )
            &&& !connected ==> after.effects == state.effects
            &&& after == (FleetView { effects: after.effects, ..state })
        }),
{
}

proof fn lemma_sends_to(instances: Seq<InstanceView>, message: ClientMessageView)
    requires
        instances.len() <= usize::MAX,
    ensures
        forall|i: int|
            0 <= i < sends_to(instances, message).len() ==> {
                &&& #[trigger] sends_to(instances, message)[i] matches EffectView::Send {
                    index,
                    message: sent,
                }
                &&& sent == message
                &&& index < instances.len()
                &&& instances[index as int].connected
            },
        forall|i: int, j: int|
            0 <= i < j < sends_to(instances, message).len() ==> (#[trigger] sends_to(
                instances,
                message,
            )[i])->Send_index < (#[trigger] sends_to(instances, message)[j])->Send_index,
        forall|index: usize|
            index < instances.len() && instances[index as int].connected ==> sends_to(
                instances,
                message,
            ).contains(#[trigger] send_of(index, message)),
    decreases instances.len(),
{
    let all = sends_to(instances, message);
    if instances.len() > 0 {
        let front = instances.drop_last();
        let rest = sends_to(front, message);
        lemma_sends_to(front, message);
        let last = EffectView::Send { index: (instances.len() - 1) as usize, message };
        assert forall|i: int| 0 <= i < all.len() implies {
            &&& #[trigger] all[i] matches EffectView::Send { index, message: sent }
            &&& sent == message
            &&& index < instances.len()
            &&& instances[index as int].connected
        } by {
            if i < rest.len() {
                assert(all[i] == rest[i]);
                assert(front[rest[i]->Send_index as int] == instances[rest[i]->Send_index as int]);
            }
        }
        assert forall|i: int, j: int| 0 <= i < j < all.len() implies (
        #[trigger] all[i])->Send_index < (#[trigger] all[j])->Send_index by {
            assert(all[i] == rest[i]);
            if j < rest.len() {
                assert(all[j] == rest[j]);
            }
        }
        assert forall|index: usize|
            index < instances.len() && instances[index as int].connected implies all.contains(
            #[trigger] send_of(index, message),
        ) by {
            if index < front.len() {
                assert(front[index as int].connected);
                assert(rest.contains(send_of(index, message)));
                let i = choose|i: int| 0 <= i < rest.len() && rest[i] == send_of(index, message);
                assert(all[i] == rest[i]);
            } else {
                assert(all[rest.len() as int] == last);
            }
        }
    }
}

/// A message on its way to an instance.
pub open spec fn send_of(index: usize, message: ClientMessageView) -> EffectView {
    EffectView::Send { index, message }
}

/// A message for all goes to every instance that has a content stream, once, in
/// the order of the instances, and to no other. Nothing else changes.
pub proof fn law_messages_for_all_reach_each_stream_once(
    state: FleetView,
    message: ClientMessageView,
    index: usize,
)
    requires
        index < state.instances.len() <= usize::MAX,
    ensures
        ({
            let after = sent_to_all(state, message);
            let sent = after.effects.skip(state.effects.len() as int);
            &&& after == (FleetView { effects: after.effects, ..state })
            &&& after.effects.len() >= state.effects.len()
            &&& after.effects.take(state.effects.len() as int) == state.effects
            &&& sent.contains(EffectView::Send { index, message })
                <==> state.instances[index as int].connected
            &&& forall|i: int|
                0 <= i < sent.len() ==> (#[trigger] sent[i]) is Send && sent[i]->Send_message
                    == message
            &&& forall|i: int, j: int|
                0 <= i < j < sent.len() ==> (#[trigger] sent[i])->Send_index < (
                #[trigger] sent[j])->Send_index
        }),
{
    reveal(sent_to_all);
    let after = sent_to_all(state, message);
    let sent = after.effects.skip(state.effects.len() as int);
    lemma_sends_to(state.instances, message);
    assert(sent =~= sends_to(state.instances, message));
    assert(after.effects.take(state.effects.len() as int) =~= state.effects);
    assert(send_of(index, message) == EffectView::Send { index, message });
    if sent.contains(EffectView::Send { index, message }) {
        let i = choose|i: int|
            0 <= i < sent.len() && sent[i] == EffectView::Send { index, message };
        assert(sends_to(state.instances, message)[i] == EffectView::Send { index, message });
    }
}

/// Content has the size of its area, and at least two columns and a row.
pub proof fn law_content_has_the_size_of_its_area(view: ShellView)
    ensures
        ({
            let (cols, rows) = content_size_in(view);
            &&& cols >= 2
            &&& rows >= 1
            &&& view.terminal_area.width >= 2 ==> cols == view.terminal_area.width
            &&& view.terminal_area.height >= 1 ==> rows == view.terminal_area.height
            &&& view.terminal_area.width < 2 ==> cols == 2
            &&& view.terminal_area.height < 1 ==> rows == 1
        }),
{
}

/// When the content is to fit a view, every instance that has a content stream is
/// told the size of the content there and of the cells, and what any instance
/// showed at the size before is dropped. All else of the instances stays.
pub proof fn law_resizing_tells_the_size_of_the_content(
    state: FleetView,
    view: ShellView,
    index: usize,
)
    requires
        index < state.instances.len() <= usize::MAX,
    ensures
        ({
            let after = resized(state, view);
            let sent = after.effects.skip(state.effects.len() as int);
            let (cols, rows) = content_size_in(view);
            let told = ClientMessageView::Resize {
                cols,
                rows,
                cell_width_px: state.cell_width_px,
                cell_height_px: state.cell_height_px,
            };
            &&& sent.contains(EffectView::Send { index, message: told })
                <==> state.instances[index as int].connected
            &&& forall|i: int|
                0 <= i < sent.len() ==> (#[trigger] sent[i]) is Send && sent[i]->Send_message
                    == told
            &&& after.instances.len() == state.instances.len()
            &&& after.instances[index as int] == (InstanceView {
                frame: None,
                ..state.instances[index as int]
            })
            &&& after.sidebar == (AppStateView { view, ..state.sidebar })
            &&& after == (FleetView {
                instances: after.instances,
                sidebar: after.sidebar,
                effects: after.effects,
                ..state
            })
        }),
{
    reveal(resized);
    let seen = with_view(state, view);
    let (cols, rows) = content_size_in(view);
    let told = ClientMessageView::Resize {
        cols,
        rows,
        cell_width_px: state.cell_width_px,
        cell_height_px: state.cell_height_px,
    };
    law_messages_for_all_reach_each_stream_once(seen, told, index);
}

/// A request goes to the instance that it is for, under its id, where that
/// instance takes requests, and else nowhere.
pub proof fn law_requests_go_to_their_instance(
    state: FleetView,
    index: usize,
    id: Seq<char>,
    method: MethodView,
)
    ensures
        ({
            let after = requested(state, index, id, method);
            let takes = index < state.instances.len()
                && state.instances[index as int].accepts_requests;
            &&& takes ==> after.effects == state.effects.push(
                EffectView::Request { index, id, method },
            )
            &&& !takes ==> after.effects == state.effects
            &&& after == (FleetView { effects: after.effects, ..state })
        }),
{
    assert(state.effects + seq![EffectView::Request { index, id, method }] =~= state.effects.push(
        EffectView::Request { index, id, method },
    ));
    assert(state.effects + Seq::<EffectView>::empty() =~= state.effects);
}

/// The host's input source is switched for an active instance that is in a
/// prefix, and restored for any other.
pub proof fn law_input_source_follows_the_active_instance(state: FleetView)
    ensures
        ({
            let after = prefix_input_applied(state);
            &&& state.instances[state.active as int].prefix_input_active ==> after.effects
                == state.effects.push(EffectView::SwitchPrefixInput)
            &&& !state.instances[state.active as int].prefix_input_active ==> after.effects
                == state.effects.push(EffectView::RestorePrefixInput)
            &&& after == (FleetView { effects: after.effects, ..state })
        }),
{
}

/// A mode that the host is to take is one in which it differs from the active
/// instance, and taking it makes the two agree; the other mode stays.
pub proof fn law_wanted_modes_are_those_of_the_active_instance(state: FleetView)
    ensures
        ({
            let instance = state.instances[state.active as int];
            match wanted_mode(state) {
                Some(HostMode::MouseCapture(on)) => on == instance.mouse_capture && on
                    != state.host.mouse_capture_active,
                Some(HostMode::KeyboardReportAll(on)) => on == instance.keyboard_report_all && on
                    != state.host.keyboard_report_all_active && state.host.mouse_capture_active
                    == instance.mouse_capture,
                None => state.host.mouse_capture_active == instance.mouse_capture
                    && state.host.keyboard_report_all_active == instance.keyboard_report_all,
            }
        }),
{
}

/// The host is in the mode that it has taken, and in its other modes as before.
pub proof fn law_taken_modes_are_known(state: FleetView, on: bool)
    ensures
        mode_applied(state, HostMode::MouseCapture(on)) == (FleetView {
            host: HostStateView { mouse_capture_active: on, ..state.host },
            ..state
        }),
        mode_applied(state, HostMode::KeyboardReportAll(on)) == (FleetView {
            host: HostStateView { keyboard_report_all_active: on, ..state.host },
            ..state
        }),
{
}

/// The sidebar is as wide as it was laid out, unless that leaves the content
/// fewer than two columns: then it is as wide as that allows.
pub proof fn law_sidebars_leave_room_for_the_content(view: ShellView, cols: u16)
    ensures
        ({
            let width = sidebar_width_on(view, cols);
            &&& width <= view.sidebar_rect.width
            &&& width > 0 ==> width + 2 <= cols
            &&& view.sidebar_rect.width + 2 <= cols ==> width == view.sidebar_rect.width
            &&& 2 <= cols < view.sidebar_rect.width + 2 ==> width + 2 == cols
        }),
{
}

/// The selection stays where the user put it while the user renames or closes a
/// workspace, has a menu open or moves through the sidebar, and at no other time.
pub proof fn law_selections_stay_in_use(mode: Mode)
    ensures
        keeps_selection(mode) <==> mode is RenameWorkspace || mode is ContextMenu
            || mode is ConfirmClose || mode is Navigate,
{
}

/// Bringing the sidebar up to date moves the selection to the active row, unless
/// the user is at work there, and touches only what the sidebar shows.
pub proof fn law_syncing_moves_the_selection(state: FleetView, view: ShellView)
    ensures
        ({
            let after = synced(state, view);
            let is_at_work = state.sidebar.mode is RenameWorkspace
                || state.sidebar.mode is ContextMenu || state.sidebar.mode is ConfirmClose
                || state.sidebar.mode is Navigate;
            &&& is_at_work ==> after.sidebar.selected == state.sidebar.selected
            &&& !is_at_work ==> (after.sidebar.active matches Some(row)
                ==> after.sidebar.selected == row)
            &&& after.sidebar.view == view
            &&& after.sidebar == (AppStateView {
                rows: after.sidebar.rows,
                active: after.sidebar.active,
                selected: after.sidebar.selected,
                view: after.sidebar.view,
                ..state.sidebar
            })
            &&& after == (FleetView {
                projection: after.projection,
                sidebar: after.sidebar,
                ..state
            })
        }),
{
    reveal(synced);
}

/// Another view replaces the one before, and nothing else.
pub proof fn law_views_are_replaced(state: FleetView, view: ShellView)
    ensures
        with_view(state, view) == (FleetView {
            sidebar: AppStateView { view, ..state.sidebar },
            ..state
        }),
{
}

/// Layouts that compare equal have the same width and the same collapsed spaces,
/// and splits that are the same number. A layout that differs in one of them
/// does not compare equal.
pub proof fn law_equal_layouts(a: FleetPresentationView, b: FleetPresentationView)
    ensures
        equal_presentations(a, b) ==> {
            &&& a.sidebar_width == b.sidebar_width
            &&& a.collapsed_space_keys == b.collapsed_space_keys
            &&& a.sidebar_section_split is Some <==> b.sidebar_section_split is Some
        },
        a == b && (a.sidebar_section_split matches Some(split) ==> !is_nan_bits(split))
            ==> equal_presentations(a, b),
        (a.sidebar_section_split matches Some(x) && b.sidebar_section_split matches Some(y) && x
            != y && x % 0x8000_0000 != 0) ==> !equal_presentations(a, b),
        (a.sidebar_section_split matches Some(x) && x % 0x8000_0000 > 0x7f80_0000)
            ==> !equal_presentations(a, b),
        default_presentation().sidebar_width is None,
        default_presentation().sidebar_section_split is None,
        forall|key: Seq<char>| !default_presentation().collapsed_space_keys.contains(key),
{
}

/// A layout is saved where it differs from the saved one, as the shell has it:
/// its width, its split and its collapsed spaces. Once it is, there is nothing
/// to save.
pub proof fn law_layouts_are_saved_as_they_are(state: FleetView, saved: FleetPresentationView)
    ensures
        ({
            let (after, layout) = layout_saved(state, saved);
            &&& !after.sidebar.session_dirty
            &&& after == (FleetView {
                sidebar: AppStateView { session_dirty: false, ..state.sidebar },
                ..state
            })
            &&& layout matches Some(layout) ==> {
                &&& layout.sidebar_width == Some(state.sidebar.sidebar_width)
                &&& layout.sidebar_section_split == Some(state.sidebar.sidebar_section_split)
                &&& layout.collapsed_space_keys == state.sidebar.collapsed_space_keys
                &&& !is_nan_bits(state.sidebar.sidebar_section_split) ==> layout_saved(
                    after,
                    layout,
                ).1 is None
            }
            &&& layout is None ==> saved.sidebar_width == Some(state.sidebar.sidebar_width)
                && saved.collapsed_space_keys == state.sidebar.collapsed_space_keys
            &&& saved == (FleetPresentationView {
                sidebar_width: Some(state.sidebar.sidebar_width),
                sidebar_section_split: Some(state.sidebar.sidebar_section_split),
                collapsed_space_keys: state.sidebar.collapsed_space_keys,
            }) && !is_nan_bits(state.sidebar.sidebar_section_split) ==> layout is None
        }),
{
}

/// The client goes on until it is told to stop or the user leaves it.
pub proof fn law_the_client_goes_on_until_it_is_left(state: FleetView, told_to_stop: bool)
    ensures
        told_to_stop ==> !is_going_on(state, told_to_stop),
        state.quit_requested ==> !is_going_on(state, told_to_stop),
        !told_to_stop && !state.quit_requested ==> is_going_on(state, told_to_stop),
{
}

/// A stream of an instance that there is not changes nothing.
pub proof fn law_unknown_streams_change_nothing(state: FleetView, index: int)
    requires
        index >= state.instances.len(),
    ensures
        stream_lost(state, index) == state,
{
}

} // verus!
