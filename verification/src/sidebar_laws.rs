//! What holds of the sidebar, whatever the instances report.

use vstd::prelude::*;

use crate::app_state::ShellView;
use crate::fleet_state::{
    is_due, is_sound, mode_applied, next_due, row_is_known, rows_are_known, stream_lost, synced,
    wanted_mode, FleetView,
};
use crate::instance::InstanceView;
use crate::messages::EffectView;
use crate::projection::{
    key_number, law_asking_again_adds_nothing, law_key_numbers_are_distinct,
    law_key_numbers_are_stable, with_keys,
};
use crate::routes::hit_instance;
use crate::sidebar::{
    first_row, instance_row, instance_rows, last_focused_row, shown_workspaces, sidebar_keys,
    sidebar_model, sidebar_rows, tab_route, tabs_of, tabs_pane_routes, workspace_row, RowView,
};
use crate::snapshot::{SnapshotView, TabInfoView};

verus! {

proof fn lemma_pane_routes_stay_home(
    instance: usize,
    instance_id: Seq<char>,
    snapshot: SnapshotView,
    tabs: Seq<TabInfoView>,
    keys: Seq<Seq<char>>,
)
    ensures
        forall|i: int|
            0 <= i < tabs_pane_routes(instance, instance_id, snapshot, tabs, keys).len()
                ==> hit_instance(
                (#[trigger] tabs_pane_routes(instance, instance_id, snapshot, tabs, keys)[i]).target,
            ) == instance,
    decreases tabs.len(),
{
    if tabs.len() > 0 {
        lemma_pane_routes_stay_home(instance, instance_id, snapshot, tabs.drop_last(), keys);
    }
}

/// Every row of an instance leads to that instance.
proof fn lemma_row_stays_home(
    index: usize,
    instance: InstanceView,
    keys: Seq<Seq<char>>,
    i: int,
    count: nat,
)
    requires
        0 <= i < instance_rows(index, instance, keys).len(),
        index < count,
    ensures
        instance_rows(index, instance, keys)[i].instance == index,
        row_is_known(instance_rows(index, instance, keys)[i], count),
{
    let row = instance_rows(index, instance, keys)[i];
    if shown_workspaces(instance).len() == 0 {
        assert(row == instance_row(index, instance, keys));
    } else {
        let snapshot = instance.snapshot->0;
        let workspace = shown_workspaces(instance)[i];
        assert(row == workspace_row(index, instance, snapshot, workspace, keys));
        let tabs = tabs_of(snapshot.tabs, workspace.workspace_id);
        lemma_pane_routes_stay_home(index, instance.id, snapshot, tabs, keys);
        assert forall|t: int|
            0 <= t < row.tab_routes.len() implies ((#[trigger] row.tab_routes[t]) matches Some(hit)
            ==> hit_instance(hit) < count) by {
            assert(row.tab_routes[t] == tab_route(
                index,
                snapshot,
                workspace,
                row.workspace.tabs[t].number,
            ));
        }
    }
}

/// The rows of a fleet lead to its instances, and every instance has a row.
pub proof fn law_rows_cover_the_fleet(instances: Seq<InstanceView>, keys: Seq<Seq<char>>)
    requires
        instances.len() <= usize::MAX,
    ensures
        rows_are_known(sidebar_rows(instances, keys), instances.len()),
        forall|i: int|
            0 <= i < sidebar_rows(instances, keys).len() ==> (#[trigger] sidebar_rows(
                instances,
                keys,
            )[i]).instance < instances.len(),
        forall|index: int|
            0 <= index < instances.len() ==> #[trigger] has_row(
                sidebar_rows(instances, keys),
                index,
            ),
    decreases instances.len(),
{
    let rows = sidebar_rows(instances, keys);
    if instances.len() > 0 {
        let front = instances.drop_last();
        let index = (instances.len() - 1) as usize;
        law_rows_cover_the_fleet(front, keys);
        let above = sidebar_rows(front, keys);
        let own = instance_rows(index, instances.last(), keys);
        assert(rows == above + own);
        assert forall|i: int| 0 <= i < rows.len() implies row_is_known(
            #[trigger] rows[i],
            instances.len(),
        ) && rows[i].instance < instances.len() by {
            if i < above.len() {
                assert(rows[i] == above[i]);
                assert(row_is_known(above[i], front.len()));
            } else {
                assert(rows[i] == own[i - above.len()]);
                lemma_row_stays_home(
                    index,
                    instances.last(),
                    keys,
                    i - above.len(),
                    instances.len(),
                );
            }
        }
        assert forall|wanted: int| 0 <= wanted < instances.len() implies #[trigger] has_row(
            rows,
            wanted,
        ) by {
            if wanted < front.len() {
                assert(has_row(above, wanted));
                let i = choose|i: int|
                    0 <= i < above.len() && (#[trigger] above[i]).instance == wanted;
                assert(rows[i] == above[i]);
            } else {
                assert(own.len() > 0);
                lemma_row_stays_home(index, instances.last(), keys, 0, instances.len());
                assert(rows[above.len() as int] == own[0]);
            }
        }
    }
}

/// Whether an instance has a row.
pub open spec fn has_row(rows: Seq<RowView>, instance: int) -> bool {
    exists|i: int| 0 <= i < rows.len() && (#[trigger] rows[i]).instance == instance
}

proof fn lemma_first_row(rows: Seq<RowView>, instance: usize)
    requires
        rows.len() <= usize::MAX,
    ensures
        match first_row(rows, instance) {
            Some(row) => row < rows.len() && rows[row as int].instance == instance,
            None => !has_row(rows, instance as int),
        },
    decreases rows.len(),
{
    if rows.len() > 0 {
        let front = rows.drop_last();
        lemma_first_row(front, instance);
        if first_row(rows, instance) is None {
            assert forall|i: int| 0 <= i < rows.len() implies (#[trigger] rows[i]).instance
                != instance by {
                if i < front.len() {
                    assert(front[i] == rows[i]);
                }
            }
        }
    }
}

/// The active row is one of the active instance's, and it is the one selected.
pub proof fn law_active_row_is_the_active_instances(
    instances: Seq<InstanceView>,
    active: usize,
    keys: Seq<Seq<char>>,
)
    requires
        active < instances.len() <= usize::MAX,
        sidebar_rows(instances, keys).len() <= usize::MAX,
    ensures
        ({
            let model = sidebar_model(instances, active, keys);
            &&& model.active matches Some(row) && row < model.rows.len()
                && model.rows[row as int].instance == active && model.selected == row
        }),
{
    let rows = sidebar_rows(instances, keys);
    law_rows_cover_the_fleet(instances, keys);
    assert(has_row(rows, active as int));
    lemma_last_focused_row(rows, active);
    lemma_first_row(rows, active);
}

proof fn lemma_last_focused_row(rows: Seq<RowView>, instance: usize)
    requires
        rows.len() <= usize::MAX,
    ensures
        last_focused_row(rows, instance) matches Some(row) ==> row < rows.len()
            && rows[row as int].instance == instance,
    decreases rows.len(),
{
    if rows.len() > 0 {
        lemma_last_focused_row(rows.drop_last(), instance);
    }
}

/// Bringing the sidebar up to date makes the state sound, as long as the active
/// instance is one of the fleet.
pub proof fn law_syncing_makes_the_state_sound(state: FleetView, view: ShellView)
    requires
        state.active < state.instances.len() <= usize::MAX,
    ensures
        is_sound(synced(state, view)),
{
    reveal(synced);
    let keys = with_keys(state.projection, sidebar_keys(state.instances));
    law_rows_cover_the_fleet(state.instances, keys);
}

/// Whatever the instances report, a pane that the sidebar has listed keeps its
/// identity, and two panes never share one.
pub proof fn law_panes_keep_their_identities(
    state: FleetView,
    view: ShellView,
    a: Seq<char>,
    b: Seq<char>,
)
    requires
        state.projection.contains(a),
        state.projection.contains(b),
        a != b,
    ensures
        ({
            let after = synced(state, view).projection;
            &&& after.contains(a)
            &&& key_number(after, a) == key_number(state.projection, a)
            &&& key_number(after, a) != key_number(after, b)
        }),
{
    reveal(synced);
    let added = sidebar_keys(state.instances);
    law_key_numbers_are_stable(state.projection, added, a);
    law_key_numbers_are_stable(state.projection, added, b);
    if key_number(state.projection, a) == key_number(state.projection, b) {
        law_key_numbers_are_distinct(state.projection, a, b);
    }
}

/// Bringing the sidebar up to date a second time changes nothing but where it and
/// the content are: rows, routes and identities stay.
pub proof fn law_syncing_twice(state: FleetView, first: ShellView, second: ShellView)
    ensures
        synced(synced(state, first), second) == synced(state, second),
        synced(synced(state, first), first) == synced(state, first),
{
    reveal(synced);
    law_asking_again_adds_nothing(state.projection, sidebar_keys(state.instances));
}

/// Nothing is handed out for a content stream that is gone.
pub proof fn law_lost_streams_get_nothing(effects: Seq<EffectView>, instances: Seq<InstanceView>)
    ensures
        next_due(effects, instances).0 matches Some(effect) ==> is_due(effect, instances),
        next_due(effects, instances).1.len() <= effects.len(),
    decreases effects.len(),
{
    if effects.len() > 0 {
        law_lost_streams_get_nothing(effects.skip(1), instances);
    }
}

/// Once a content stream turned out to be gone, what still waits for it is
/// dropped.
pub proof fn law_lost_stream_is_not_due(state: FleetView, effect: EffectView, index: usize)
    requires
        index < state.instances.len(),
        effect matches EffectView::Send { index: to, .. } && to == index,
    ensures
        !is_due(effect, stream_lost(state, index as int).instances),
{
}

/// After at most two modes have been taken, the host follows the active
/// instance.
pub proof fn law_host_modes_settle(state: FleetView)
    requires
        state.active < state.instances.len(),
    ensures
        ({
            let instance = state.instances[state.active as int];
            let once = match wanted_mode(state) {
                Some(mode) => mode_applied(state, mode),
                None => state,
            };
            let twice = match wanted_mode(once) {
                Some(mode) => mode_applied(once, mode),
                None => once,
            };
            &&& wanted_mode(twice) is None
            &&& twice.host.mouse_capture_active == instance.mouse_capture
            &&& twice.host.keyboard_report_all_active == instance.keyboard_report_all
        }),
{
}

} // verus!
