//! Watching an instance: what it is asked for, and when it is asked again.

use vstd::prelude::*;
use vstd::relations::{sorted_by, total_ordering};
use vstd::seq_lib::{lemma_sorted_unique, to_multiset_build, to_multiset_insert};
use vstd::string::*;

use crate::compare::{all_alike, opt_view, result_view, views};
use crate::frame::texts;
use crate::messages::{
    FleetEvent, FleetEventView, Method, MethodView, ServerMessage, ServerMessageView, Subscription,
    SubscriptionView,
};
use crate::snapshot::{PaneInfoView, SessionSnapshot, SnapshotView};
use crate::text::text_chars;

verus! {

/// A request to the API of an instance, and the id that its answer carries.
#[derive(Debug)]
pub struct ApiRequest {
    pub id: String,
    pub method: Method,
}

/// Whether a text comes before another or is the same: by the first character
/// in which they differ, and a text before those that it starts.
pub open spec fn text_le(a: Seq<char>, b: Seq<char>) -> bool
    decreases a.len(),
{
    if a.len() == 0 {
        true
    } else if b.len() == 0 {
        false
    } else if a[0] == b[0] {
        text_le(a.skip(1), b.skip(1))
    } else {
        (a[0] as int) < (b[0] as int)
    }
}

/// The order of texts.
pub open spec fn text_order() -> spec_fn(Seq<char>, Seq<char>) -> bool {
    |a: Seq<char>, b: Seq<char>| text_le(a, b)
}

proof fn lemma_text_le_reflexive(a: Seq<char>)
    ensures
        text_le(a, a),
    decreases a.len(),
{
    if a.len() > 0 {
        lemma_text_le_reflexive(a.skip(1));
    }
}

proof fn lemma_text_le_antisymmetric(a: Seq<char>, b: Seq<char>)
    requires
        text_le(a, b),
        text_le(b, a),
    ensures
        a == b,
    decreases a.len(),
{
    if a.len() > 0 && b.len() > 0 {
        lemma_text_le_antisymmetric(a.skip(1), b.skip(1));
        assert forall|i: int| 0 <= i < a.len() implies a[i] == b[i] by {
            if i > 0 {
                assert(a.skip(1)[i - 1] == b.skip(1)[i - 1]);
            }
        }
        assert(a.skip(1).len() == b.skip(1).len());
    }
    assert(a =~= b);
}

proof fn lemma_text_le_transitive(a: Seq<char>, b: Seq<char>, c: Seq<char>)
    requires
        text_le(a, b),
        text_le(b, c),
    ensures
        text_le(a, c),
    decreases a.len(),
{
    if a.len() > 0 && a[0] == b[0] && b[0] == c[0] {
        lemma_text_le_transitive(a.skip(1), b.skip(1), c.skip(1));
    }
}

proof fn lemma_text_le_total(a: Seq<char>, b: Seq<char>)
    ensures
        text_le(a, b) || text_le(b, a),
    decreases a.len(),
{
    if a.len() > 0 && b.len() > 0 && a[0] == b[0] {
        lemma_text_le_total(a.skip(1), b.skip(1));
    }
}

/// Texts can be put in order: any two of them are comparable, and in one way
/// only unless they are the same.
pub proof fn law_texts_are_ordered()
    ensures
        total_ordering(text_order()),
{
    let order = text_order();
    assert forall|a: Seq<char>| #[trigger] order(a, a) by {
        lemma_text_le_reflexive(a);
    }
    assert forall|a: Seq<char>, b: Seq<char>| #[trigger]
        order(a, b) && #[trigger] order(b, a) implies a == b by {
        lemma_text_le_antisymmetric(a, b);
    }
    assert forall|a: Seq<char>, b: Seq<char>, c: Seq<char>| #[trigger]
        order(a, b) && #[trigger] order(b, c) implies order(a, c) by {
        lemma_text_le_transitive(a, b, c);
    }
    assert forall|a: Seq<char>, b: Seq<char>| #[trigger] order(a, b) || #[trigger] order(b, a) by {
        lemma_text_le_total(a, b);
    }
}

/// Whether a character comes before another.
fn is_before(a: char, b: char) -> (r: bool)
    ensures
        r == ((a as int) < (b as int)),
{
    (a as u32) < (b as u32)
}

/// Whether a text comes before another or is the same.
fn comes_first(a: &str, b: &str) -> (r: bool)
    ensures
        r == text_le(a@, b@),
{
    let x = text_chars(a);
    let y = text_chars(b);
    let mut i: usize = 0;
    assert(a@.skip(0) =~= a@);
    assert(b@.skip(0) =~= b@);
    while i < x.len() && i < y.len()
        invariant
            x@ == a@,
            y@ == b@,
            i <= x@.len(),
            i <= y@.len(),
            text_le(a@, b@) == text_le(a@.skip(i as int), b@.skip(i as int)),
        decreases x@.len() - i,
    {
        let ghost p = a@.skip(i as int);
        let ghost q = b@.skip(i as int);
        assert(p[0] == x@[i as int]);
        assert(q[0] == y@[i as int]);
        if x[i] != y[i] {
            return is_before(x[i], y[i]);
        }
        assert(p.skip(1) =~= a@.skip(i + 1));
        assert(q.skip(1) =~= b@.skip(i + 1));
        i += 1;
    }
    x.len() <= y.len()
}

/// Whether a list holds the texts of another, in order.
pub open spec fn is_sorting_of(sorted: Seq<Seq<char>>, list: Seq<Seq<char>>) -> bool {
    sorted_by(sorted, text_order()) && sorted.to_multiset() == list.to_multiset()
}

/// Two lists of the same texts have the same sorting.
pub proof fn law_sorting_is_unique(
    a: Seq<Seq<char>>,
    b: Seq<Seq<char>>,
    sorted_a: Seq<Seq<char>>,
    sorted_b: Seq<Seq<char>>,
)
    requires
        is_sorting_of(sorted_a, a),
        is_sorting_of(sorted_b, b),
    ensures
        sorted_a == sorted_b <==> a.to_multiset() == b.to_multiset(),
{
    if a.to_multiset() == b.to_multiset() {
        law_texts_are_ordered();
        lemma_sorted_unique(sorted_a, sorted_b, text_order());
    }
}

/// Puts a text where it belongs in a list that is in order.
fn insert_sorted(list: &mut Vec<String>, text: String)
    requires
        sorted_by(texts(old(list)@), text_order()),
    ensures
        sorted_by(texts(final(list)@), text_order()),
        texts(final(list)@).to_multiset() == texts(old(list)@).to_multiset().insert(text@),
{
    let ghost before = texts(list@);
    let ghost order = text_order();
    let mut i: usize = 0;
    while i < list.len() && comes_first(list[i].as_str(), text.as_str())
        invariant
            i <= list@.len(),
            before == texts(list@),
            sorted_by(before, order),
            order == text_order(),
            forall|j: int| 0 <= j < i ==> text_le(#[trigger] before[j], text@),
        decreases list@.len() - i,
    {
        i += 1;
    }
    let ghost value = text@;
    proof {
        if i < before.len() {
            lemma_text_le_total(before[i as int], value);
        }
        assert forall|j: int| i <= j < before.len() implies text_le(
            value,
            #[trigger] before[j],
        ) by {
            if j > i {
                assert(order(before[i as int], before[j]));
                lemma_text_le_transitive(value, before[i as int], before[j]);
            }
        }
    }
    list.insert(i, text);
    let ghost after = texts(list@);
    proof {
        assert(after =~= before.insert(i as int, value));
        to_multiset_insert(before, i as int, value);
        assert forall|j: int, k: int| 0 <= j < k < after.len() implies #[trigger] order(
            after[j],
            after[k],
        ) by {
            let p = if j < i { j } else { j - 1 };
            let q = if k < i { k } else { k - 1 };
            if j != i && k != i {
                assert(after[j] == before[p]);
                assert(after[k] == before[q]);
                assert(order(before[p], before[q]));
            } else if j == i {
                assert(after[k] == before[q]);
            } else {
                assert(after[j] == before[p]);
            }
        }
    }
}

/// The ids of the panes of a snapshot.
pub open spec fn pane_ids_of(snapshot: SnapshotView) -> Seq<Seq<char>> {
    snapshot.panes.map_values(|pane: PaneInfoView| pane.pane_id)
}

/// The ids of the panes that an instance reported, in order; none where it could
/// not be asked.
pub fn snapshot_pane_ids(result: &Result<SessionSnapshot, String>) -> (r: Vec<String>)
    ensures
        match result {
            Ok(snapshot) => is_sorting_of(texts(r@), pane_ids_of(snapshot@)),
            Err(_) => texts(r@) == Seq::<Seq<char>>::empty(),
        },
{
    let mut ids: Vec<String> = Vec::new();
    assert(texts(ids@) =~= Seq::<Seq<char>>::empty());
    let snapshot = match result {
        Ok(snapshot) => snapshot,
        Err(_) => {
            return ids;
        },
    };
    let ghost all = pane_ids_of(snapshot@);
    assert(all.take(0) =~= Seq::<Seq<char>>::empty());
    let mut i: usize = 0;
    while i < snapshot.panes.len()
        invariant
            i <= snapshot.panes@.len(),
            all == pane_ids_of(snapshot@),
            all.len() == snapshot.panes@.len(),
            is_sorting_of(texts(ids@), all.take(i as int)),
        decreases snapshot.panes@.len() - i,
    {
        let id = snapshot.panes[i].pane_id.clone();
        assert(snapshot@.panes[i as int] == snapshot.panes@[i as int]@);
        assert(all[i as int] == id@);
        proof {
            assert(all.take(i + 1) =~= all.take(i as int).push(id@));
            to_multiset_build(all.take(i as int), id@);
        }
        insert_sorted(&mut ids, id);
        i += 1;
    }
    assert(all.take(i as int) =~= all);
    ids
}

/// The id of a request for a snapshot of an instance, and what is asked for.
pub open spec fn snapshot_asked(instance_id: Seq<char>) -> (Seq<char>, MethodView) {
    ("fleet-snapshot:"@ + instance_id, MethodView::SessionSnapshot)
}

/// The request for a snapshot of an instance.
pub fn snapshot_request(instance_id: &str) -> (r: ApiRequest)
    ensures
        (r.id@, r.method@) == snapshot_asked(instance_id@),
{
    ApiRequest {
        id: "fleet-snapshot:".to_string().concat(instance_id),
        method: Method::SessionSnapshot,
    }
}

/// The kinds of events that are watched in every instance.
pub open spec fn standing_subscriptions() -> Seq<SubscriptionView> {
    seq![
        SubscriptionView::WorkspaceCreated,
        SubscriptionView::WorkspaceUpdated,
        SubscriptionView::WorkspaceMetadataUpdated,
        SubscriptionView::WorkspaceRenamed,
        SubscriptionView::WorkspaceMoved,
        SubscriptionView::WorkspaceReordered,
        SubscriptionView::WorkspaceClosed,
        SubscriptionView::WorkspaceFocused,
        SubscriptionView::WorktreeCreated,
        SubscriptionView::WorktreeOpened,
        SubscriptionView::WorktreeRemoved,
        SubscriptionView::TabCreated,
        SubscriptionView::TabClosed,
        SubscriptionView::TabFocused,
        SubscriptionView::TabRenamed,
        SubscriptionView::TabMoved,
        SubscriptionView::PaneCreated,
        SubscriptionView::PaneClosed,
        SubscriptionView::PaneUpdated,
        SubscriptionView::PaneFocused,
        SubscriptionView::PaneMoved,
        SubscriptionView::PaneExited,
        SubscriptionView::PaneAgentDetected,
        SubscriptionView::LayoutUpdated,
    ]
}

/// The watch on the agent of a pane, whatever it does.
pub open spec fn pane_subscription(pane_id: Seq<char>) -> SubscriptionView {
    SubscriptionView::PaneAgentStatusChanged { pane_id, agent_status: None }
}

/// What is watched in an instance: the standing kinds, and the agents of its
/// panes.
pub open spec fn subscriptions_for(pane_ids: Seq<Seq<char>>) -> Seq<SubscriptionView> {
    standing_subscriptions() + pane_ids.map_values(
        |pane_id: Seq<char>| pane_subscription(pane_id),
    )
}

fn standing_list() -> (r: Vec<Subscription>)
    ensures
        views(r@) == standing_subscriptions(),
{
    let list = vec![
        Subscription::WorkspaceCreated,
        Subscription::WorkspaceUpdated,
        Subscription::WorkspaceMetadataUpdated,
        Subscription::WorkspaceRenamed,
        Subscription::WorkspaceMoved,
        Subscription::WorkspaceReordered,
        Subscription::WorkspaceClosed,
        Subscription::WorkspaceFocused,
        Subscription::WorktreeCreated,
        Subscription::WorktreeOpened,
        Subscription::WorktreeRemoved,
        Subscription::TabCreated,
        Subscription::TabClosed,
        Subscription::TabFocused,
        Subscription::TabRenamed,
        Subscription::TabMoved,
        Subscription::PaneCreated,
        Subscription::PaneClosed,
        Subscription::PaneUpdated,
        Subscription::PaneFocused,
        Subscription::PaneMoved,
        Subscription::PaneExited,
        Subscription::PaneAgentDetected,
        Subscription::LayoutUpdated,
    ];
    assert(views(list@) =~= standing_subscriptions());
    list
}

/// The id of a request to report the events of an instance that has these panes,
/// and what is asked for.
pub open spec fn events_asked(instance_id: Seq<char>, pane_ids: Seq<Seq<char>>) -> (
    Seq<char>,
    MethodView,
) {
    (
        "fleet-events:"@ + instance_id,
        MethodView::EventsSubscribe { subscriptions: subscriptions_for(pane_ids) },
    )
}

/// The request to report the events of an instance that has these panes.
pub fn events_request(instance_id: &str, pane_ids: &Vec<String>) -> (r: ApiRequest)
    ensures
        (r.id@, r.method@) == events_asked(instance_id@, texts(pane_ids@)),
{
    let mut subscriptions = standing_list();
    let ghost panes = texts(pane_ids@);
    let mut i: usize = 0;
    assert(views(subscriptions@) =~= subscriptions_for(panes.take(0)));
    while i < pane_ids.len()
        invariant
            i <= pane_ids@.len(),
            panes == texts(pane_ids@),
            views(subscriptions@) == subscriptions_for(panes.take(i as int)),
        decreases pane_ids@.len() - i,
    {
        let ghost before = views(subscriptions@);
        let pane_id = pane_ids[i].clone();
        assert(panes[i as int] == pane_id@);
        let ghost watched = pane_subscription(pane_id@);
        subscriptions.push(Subscription::PaneAgentStatusChanged { pane_id, agent_status: None });
        assert(views(subscriptions@) =~= before.push(watched));
        assert(before.push(watched) =~= subscriptions_for(panes.take(i + 1)));
        i += 1;
    }
    assert(panes.take(i as int) =~= panes);
    ApiRequest {
        id: "fleet-events:".to_string().concat(instance_id),
        method: Method::EventsSubscribe { subscriptions },
    }
}

/// What came of reading a line of the event stream.
#[derive(Debug)]
pub enum ReadOutcome {
    Closed,
    Line,
    Interrupted,
    Failed(String),
}

/// What to do after reading from the event stream.
#[derive(Debug)]
pub enum WatchStep {
    ReadOn,
    TakeSnapshot,
    Fail(String),
}

/// Whether a step is the one to do after reading from the event stream.
pub open spec fn is_step_after(outcome: ReadOutcome, step: WatchStep) -> bool {
    match outcome {
        ReadOutcome::Closed => step matches WatchStep::Fail(error) && error@
            == "event stream disconnected"@,
        ReadOutcome::Line => step is TakeSnapshot,
        ReadOutcome::Interrupted => step is ReadOn,
        ReadOutcome::Failed(error) => step == WatchStep::Fail(error),
    }
}

/// Decides what to do after reading from the event stream: an event calls for a
/// fresh snapshot, and an interruption for nothing.
pub fn after_read(outcome: ReadOutcome) -> (r: WatchStep)
    ensures
        is_step_after(outcome, r),
{
    match outcome {
        ReadOutcome::Closed => WatchStep::Fail("event stream disconnected".to_string()),
        ReadOutcome::Line => WatchStep::TakeSnapshot,
        ReadOutcome::Interrupted => WatchStep::ReadOn,
        ReadOutcome::Failed(error) => WatchStep::Fail(error),
    }
}

/// Whether a watch ends after a snapshot, and if so, whether another one follows.
pub open spec fn watch_ends(sent: Option<Seq<Seq<char>>>, watched: Seq<Seq<char>>) -> Option<
    bool,
> {
    match sent {
        None => Some(false),
        Some(ids) => if ids == watched {
            None
        } else {
            Some(true)
        },
    }
}

/// The panes of a snapshot that was taken.
pub open spec fn sent_ids(sent: Option<Vec<String>>) -> Option<Seq<Seq<char>>> {
    match sent {
        Some(ids) => Some(texts(ids@)),
        None => None,
    }
}

/// Decides whether a watch ends after a snapshot, and if so, whether another one
/// follows: it does where the instance has other panes now. `sent` is the panes
/// of the snapshot, where there was somebody to take it.
pub fn after_snapshot(sent: &Option<Vec<String>>, watched: &Vec<String>) -> (r: Option<bool>)
    ensures
        r == watch_ends(sent_ids(*sent), texts(watched@)),
{
    match sent {
        None => Some(false),
        Some(ids) => {
            proof {
                assert(views(ids@) =~= texts(ids@));
                assert(views(watched@) =~= texts(watched@));
            }
            if all_alike(ids, watched) {
                None
            } else {
                Some(true)
            }
        },
    }
}

/// What the watcher of an instance does when a watch has ended.
#[derive(Debug)]
pub enum WatcherNext {
    Stop,
    WatchAgain,
    ReportAndWait(String),
}

/// What the watcher of an instance does when a watch has ended.
pub open spec fn next_after(told_to_stop: bool, result: Result<bool, String>) -> WatcherNext {
    if told_to_stop {
        WatcherNext::Stop
    } else {
        match result {
            Ok(true) => WatcherNext::WatchAgain,
            Ok(false) => WatcherNext::Stop,
            Err(error) => WatcherNext::ReportAndWait(error),
        }
    }
}

/// Decides what the watcher of an instance does when a watch has ended.
pub fn after_watch(told_to_stop: bool, result: Result<bool, String>) -> (r: WatcherNext)
    ensures
        r == next_after(told_to_stop, result),
{
    if told_to_stop {
        return WatcherNext::Stop;
    }
    match result {
        Ok(again) => if again {
            WatcherNext::WatchAgain
        } else {
            WatcherNext::Stop
        },
        Err(error) => WatcherNext::ReportAndWait(error),
    }
}

/// The event that a read from the content stream of an instance comes to.
pub open spec fn read_event(
    instance_id: Seq<char>,
    read: Option<ServerMessageView>,
) -> FleetEventView {
    match read {
        Some(message) => FleetEventView::ServerMessage { instance_id, message },
        None => FleetEventView::Disconnected { instance_id },
    }
}

/// The event that a request for a snapshot comes to.
pub open spec fn snapshot_reported(
    instance_id: Seq<char>,
    result: Result<SnapshotView, Seq<char>>,
) -> FleetEventView {
    FleetEventView::Snapshot { instance_id, result }
}

/// The event that a read from the content stream of an instance comes to: a
/// message, or that the stream is gone.
pub fn reader_event(instance_id: &str, read: Option<ServerMessage>) -> (r: FleetEvent)
    ensures
        r@ == read_event(instance_id@, opt_view(read)),
{
    match read {
        Some(message) => FleetEvent::ServerMessage {
            instance_id: instance_id.to_string(),
            message,
        },
        None => FleetEvent::Disconnected { instance_id: instance_id.to_string() },
    }
}

/// The event that a request for a snapshot comes to.
pub fn snapshot_event(instance_id: &str, result: Result<SessionSnapshot, String>) -> (r: FleetEvent)
    ensures
        r@ == snapshot_reported(instance_id@, result_view(result)),
{
    FleetEvent::Snapshot { instance_id: instance_id.to_string(), result }
}

/// Every pane of an instance is watched, and nothing is watched twice for it but
/// what it reports twice.
pub proof fn law_every_pane_is_watched(pane_ids: Seq<Seq<char>>, pane_id: Seq<char>)
    ensures
        subscriptions_for(pane_ids).contains(pane_subscription(pane_id)) <==> pane_ids.contains(
            pane_id,
        ),
        subscriptions_for(pane_ids).len() == standing_subscriptions().len() + pane_ids.len(),
{
    let all = subscriptions_for(pane_ids);
    let wanted = pane_subscription(pane_id);
    let count = standing_subscriptions().len() as int;
    if pane_ids.contains(pane_id) {
        let i = choose|i: int| 0 <= i < pane_ids.len() && pane_ids[i] == pane_id;
        assert(all[count + i] == wanted);
    }
    if all.contains(wanted) {
        let i = choose|i: int| 0 <= i < all.len() && all[i] == wanted;
        if i < count {
            assert(all[i] == standing_subscriptions()[i]);
        } else {
            assert(all[i] == pane_subscription(pane_ids[i - count]));
        }
    }
}

/// Every kind of event but those about the agent of a single pane is watched in
/// every instance, and each once.
pub proof fn law_every_kind_is_watched(kind: SubscriptionView, pane_ids: Seq<Seq<char>>)
    requires
        !(kind is PaneAgentStatusChanged),
    ensures
        exists|i: int|
            {
                &&& 0 <= i < subscriptions_for(pane_ids).len()
                &&& #[trigger] subscriptions_for(pane_ids)[i] == kind
                &&& forall|j: int|
                    0 <= j < subscriptions_for(pane_ids).len() && #[trigger] subscriptions_for(
                        pane_ids,
                    )[j] == kind ==> j == i
            },
{
    let all = subscriptions_for(pane_ids);
    let i = match kind {
        SubscriptionView::WorkspaceCreated => 0int,
        SubscriptionView::WorkspaceUpdated => 1,
        SubscriptionView::WorkspaceMetadataUpdated => 2,
        SubscriptionView::WorkspaceRenamed => 3,
        SubscriptionView::WorkspaceMoved => 4,
        SubscriptionView::WorkspaceReordered => 5,
        SubscriptionView::WorkspaceClosed => 6,
        SubscriptionView::WorkspaceFocused => 7,
        SubscriptionView::WorktreeCreated => 8,
        SubscriptionView::WorktreeOpened => 9,
        SubscriptionView::WorktreeRemoved => 10,
        SubscriptionView::TabCreated => 11,
        SubscriptionView::TabClosed => 12,
        SubscriptionView::TabFocused => 13,
        SubscriptionView::TabRenamed => 14,
        SubscriptionView::TabMoved => 15,
        SubscriptionView::PaneCreated => 16,
        SubscriptionView::PaneClosed => 17,
        SubscriptionView::PaneUpdated => 18,
        SubscriptionView::PaneFocused => 19,
        SubscriptionView::PaneMoved => 20,
        SubscriptionView::PaneExited => 21,
        SubscriptionView::PaneAgentDetected => 22,
        _ => 23,
    };
    assert(all[i] == kind);
    assert forall|j: int| 0 <= j < all.len() && #[trigger] all[j] == kind implies j == i by {
        if j >= 24 {
            assert(all[j] == pane_subscription(pane_ids[j - 24]));
        } else {
            assert(all[j] == standing_subscriptions()[j]);
        }
    }
}

/// The agent of a pane is watched whatever it does.
pub proof fn law_agents_are_watched_whatever_they_do(pane_ids: Seq<Seq<char>>, i: int)
    requires
        0 <= i < pane_ids.len(),
    ensures
        subscriptions_for(pane_ids).contains(
            SubscriptionView::PaneAgentStatusChanged { pane_id: pane_ids[i], agent_status: None },
        ),
{
    law_every_pane_is_watched(pane_ids, pane_ids[i]);
    assert(pane_ids.contains(pane_ids[i]));
}

/// A request carries the id of the instance it goes to, with what it is for before
/// it, and asks for just that.
pub proof fn law_requests_name_their_instance(instance_id: Seq<char>, pane_ids: Seq<Seq<char>>)
    ensures
        snapshot_asked(instance_id).0 == "fleet-snapshot:"@ + instance_id,
        snapshot_asked(instance_id).1 is SessionSnapshot,
        events_asked(instance_id, pane_ids).0 == "fleet-events:"@ + instance_id,
        events_asked(instance_id, pane_ids).1 == (MethodView::EventsSubscribe {
            subscriptions: subscriptions_for(pane_ids),
        }),
{
}

/// Texts are ordered by the first character in which they differ, and a text comes
/// before those that it starts.
pub proof fn law_texts_are_ordered_by_the_first_difference(
    start: Seq<char>,
    a: Seq<char>,
    b: Seq<char>,
)
    requires
        a.len() > 0 && b.len() > 0 ==> a[0] != b[0],
    ensures
        text_le(start + a, start + b) <==> a.len() == 0 || (b.len() > 0 && (a[0] as int) < (
        b[0] as int)),
    decreases start.len(),
{
    if start.len() == 0 {
        assert(start + a =~= a);
        assert(start + b =~= b);
    } else {
        let rest = start.skip(1);
        assert((start + a)[0] == start[0]);
        assert((start + b)[0] == start[0]);
        assert((start + a).skip(1) =~= rest + a);
        assert((start + b).skip(1) =~= rest + b);
        law_texts_are_ordered_by_the_first_difference(rest, a, b);
    }
}

/// A line of the event stream calls for a snapshot, an interruption for reading on,
/// and a stream that is closed or fails ends the watch, with the reason.
pub proof fn law_events_call_for_snapshots(error: String, step: WatchStep)
    ensures
        is_step_after(ReadOutcome::Line, step) <==> step == WatchStep::TakeSnapshot,
        is_step_after(ReadOutcome::Interrupted, step) <==> step == WatchStep::ReadOn,
        is_step_after(ReadOutcome::Failed(error), step) <==> step == WatchStep::Fail(error),
        is_step_after(ReadOutcome::Closed, step) ==> step is Fail && step->Fail_0@
            == "event stream disconnected"@,
{
}

/// A watch goes on as long as the snapshots are taken and the instance has the
/// panes that are watched; with other panes it is begun anew, and with nobody to
/// take the snapshots it ends for good.
pub proof fn law_watches_follow_the_panes(ids: Seq<Seq<char>>, watched: Seq<Seq<char>>)
    ensures
        watch_ends(Some(watched), watched) is None,
        ids != watched ==> watch_ends(Some(ids), watched) == Some(true),
        watch_ends(None, watched) == Some(false),
{
}

/// A watcher that is told to stop does. Else it watches again where that is called
/// for, stops where it is not, and reports a failure before it tries again.
pub proof fn law_watchers_go_on_until_told(result: Result<bool, String>, error: String)
    ensures
        next_after(true, result) == WatcherNext::Stop,
        next_after(false, Ok(true)) == WatcherNext::WatchAgain,
        next_after(false, Ok(false)) == WatcherNext::Stop,
        next_after(false, Err(error)) == WatcherNext::ReportAndWait(error),
{
}

/// What is read of an instance, and what came of asking it, is reported as its own.
pub proof fn law_reports_name_their_instance(
    instance_id: Seq<char>,
    message: ServerMessageView,
    result: Result<SnapshotView, Seq<char>>,
)
    ensures
        read_event(instance_id, Some(message)) == (FleetEventView::ServerMessage {
            instance_id,
            message,
        }),
        read_event(instance_id, None) == (FleetEventView::Disconnected { instance_id }),
        snapshot_reported(instance_id, result) == (FleetEventView::Snapshot {
            instance_id,
            result,
        }),
{
}

/// The panes that are watched are those of the snapshot, each under its id.
pub proof fn law_panes_are_watched_by_id(snapshot: SnapshotView, i: int)
    requires
        0 <= i < snapshot.panes.len(),
    ensures
        pane_ids_of(snapshot).len() == snapshot.panes.len(),
        pane_ids_of(snapshot)[i] == snapshot.panes[i].pane_id,
{
}

} // verus!
