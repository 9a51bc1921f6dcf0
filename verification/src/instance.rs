//! The instances that the fleet client is connected to.

use vstd::prelude::*;
use vstd::string::*;

use crate::compare::{lemma_views_update, opt_text, views};
use crate::frame::{FrameData, FrameView};
use crate::snapshot::{SessionSnapshot, SnapshotView};

verus! {

/// Where an instance's API is reached: a session of this machine, or a socket.
#[derive(Debug)]
pub enum ApiTarget {
    LocalSession(String),
    SocketPath(String),
}

/// The mathematical model of an API target.
pub enum ApiTargetView {
    LocalSession(Seq<char>),
    SocketPath(Seq<char>),
}

impl View for ApiTarget {
    type V = ApiTargetView;

    open spec fn view(&self) -> ApiTargetView {
        match self {
            ApiTarget::LocalSession(name) => ApiTargetView::LocalSession(name@),
            ApiTarget::SocketPath(path) => ApiTargetView::SocketPath(path@),
        }
    }
}

/// An instance of the fleet. The first one is local, the others are remote.
///
/// `connected` tells whether there is a content stream to write to, and
/// `accepts_requests` whether there is a worker that takes API requests.
#[derive(Debug)]
pub struct Instance {
    pub id: String,
    pub name: String,
    pub remote_target: Option<String>,
    pub remote_session: Option<String>,
    pub bridge_connecting: bool,
    pub connected: bool,
    pub api_target: Option<ApiTarget>,
    pub snapshot: Option<SessionSnapshot>,
    pub frame: Option<FrameData>,
    pub error: Option<String>,
    pub mouse_capture: bool,
    pub keyboard_report_all: bool,
    pub prefix_input_active: bool,
    pub window_title: Option<String>,
    pub accepts_requests: bool,
    pub client_socket: Option<String>,
}

/// The mathematical model of an instance.
pub struct InstanceView {
    pub id: Seq<char>,
    pub name: Seq<char>,
    pub remote_target: Option<Seq<char>>,
    pub remote_session: Option<Seq<char>>,
    pub bridge_connecting: bool,
    pub connected: bool,
    pub api_target: Option<ApiTargetView>,
    pub snapshot: Option<SnapshotView>,
    pub frame: Option<FrameView>,
    pub error: Option<Seq<char>>,
    pub mouse_capture: bool,
    pub keyboard_report_all: bool,
    pub prefix_input_active: bool,
    pub window_title: Option<Seq<char>>,
    pub accepts_requests: bool,
    pub client_socket: Option<Seq<char>>,
}

/// The model of an optional snapshot.
pub open spec fn opt_snapshot(o: Option<SessionSnapshot>) -> Option<SnapshotView> {
    match o {
        Some(s) => Some(s@),
        None => None,
    }
}

/// The model of an optional frame.
pub open spec fn opt_frame(o: Option<FrameData>) -> Option<FrameView> {
    match o {
        Some(f) => Some(f@),
        None => None,
    }
}

/// The model of an optional API target.
pub open spec fn opt_target(o: Option<ApiTarget>) -> Option<ApiTargetView> {
    match o {
        Some(t) => Some(t@),
        None => None,
    }
}

/// The model of an instance.
#[verifier::opaque]
pub open spec fn instance_model(value: Instance) -> InstanceView {
    InstanceView {
        id: value.id@,
        name: value.name@,
        remote_target: opt_text(value.remote_target),
        remote_session: opt_text(value.remote_session),
        bridge_connecting: value.bridge_connecting,
        connected: value.connected,
        api_target: opt_target(value.api_target),
        snapshot: opt_snapshot(value.snapshot),
        frame: opt_frame(value.frame),
        error: opt_text(value.error),
        mouse_capture: value.mouse_capture,
        keyboard_report_all: value.keyboard_report_all,
        prefix_input_active: value.prefix_input_active,
        window_title: opt_text(value.window_title),
        accepts_requests: value.accepts_requests,
        client_socket: opt_text(value.client_socket),
    }
}

impl View for Instance {
    type V = InstanceView;

    open spec fn view(&self) -> InstanceView {
        instance_model(*self)
    }
}

/// Keeps what an instance shows.
pub(crate) fn keep_frame(instances: &mut Vec<Instance>, index: usize, frame: FrameData)
    requires
        index < old(instances)@.len(),
    ensures
        final(instances)@.len() == old(instances)@.len(),
        views(final(instances)@) == views(old(instances)@).update(
            index as int,
            InstanceView { frame: Some(frame@), ..views(old(instances)@)[index as int] },
        ),
{
    let ghost after = InstanceView { frame: Some(frame@), ..views(instances@)[index as int] };
    instances[index].frame = Some(frame);
    proof {
        reveal(instance_model);
        assert(instances@[index as int]@ == after);
        lemma_views_update(old(instances)@, instances@, index as int);
    }
}

/// Drops what an instance shows.
pub(crate) fn drop_frame(instances: &mut Vec<Instance>, index: usize)
    requires
        index < old(instances)@.len(),
    ensures
        final(instances)@.len() == old(instances)@.len(),
        views(final(instances)@) == views(old(instances)@).update(
            index as int,
            InstanceView { frame: None, ..views(old(instances)@)[index as int] },
        ),
{
    let ghost after = InstanceView { frame: None, ..views(instances@)[index as int] };
    instances[index].frame = None;
    proof {
        reveal(instance_model);
        assert(instances@[index as int]@ == after);
        lemma_views_update(old(instances)@, instances@, index as int);
    }
}

/// Keeps what is wrong with an instance.
pub(crate) fn keep_error(instances: &mut Vec<Instance>, index: usize, error: String)
    requires
        index < old(instances)@.len(),
    ensures
        final(instances)@.len() == old(instances)@.len(),
        views(final(instances)@) == views(old(instances)@).update(
            index as int,
            InstanceView { error: Some(error@), ..views(old(instances)@)[index as int] },
        ),
{
    let ghost after = InstanceView { error: Some(error@), ..views(instances@)[index as int] };
    instances[index].error = Some(error);
    proof {
        reveal(instance_model);
        assert(instances@[index as int]@ == after);
        lemma_views_update(old(instances)@, instances@, index as int);
    }
}

/// Keeps what an instance reports of its session. Nothing is wrong with it then.
pub(crate) fn keep_snapshot(instances: &mut Vec<Instance>, index: usize, snapshot: SessionSnapshot)
    requires
        index < old(instances)@.len(),
    ensures
        final(instances)@.len() == old(instances)@.len(),
        views(final(instances)@) == views(old(instances)@).update(
            index as int,
            InstanceView {
                snapshot: Some(snapshot@),
                error: None,
                ..views(old(instances)@)[index as int]
            },
        ),
{
    let ghost after = InstanceView {
        snapshot: Some(snapshot@),
        error: None,
        ..views(instances@)[index as int]
    };
    instances[index].snapshot = Some(snapshot);
    instances[index].error = None;
    proof {
        reveal(instance_model);
        assert(instances@[index as int]@ == after);
        lemma_views_update(old(instances)@, instances@, index as int);
    }
}

/// Keeps the title that an instance wants.
pub(crate) fn keep_title(instances: &mut Vec<Instance>, index: usize, title: Option<String>)
    requires
        index < old(instances)@.len(),
    ensures
        final(instances)@.len() == old(instances)@.len(),
        views(final(instances)@) == views(old(instances)@).update(
            index as int,
            InstanceView { window_title: opt_text(title), ..views(old(instances)@)[index as int] },
        ),
{
    let ghost after = InstanceView {
        window_title: opt_text(title),
        ..views(instances@)[index as int]
    };
    instances[index].window_title = title;
    proof {
        reveal(instance_model);
        assert(instances@[index as int]@ == after);
        lemma_views_update(old(instances)@, instances@, index as int);
    }
}

/// Keeps whether an instance wants the mouse.
pub(crate) fn keep_mouse_capture(instances: &mut Vec<Instance>, index: usize, enabled: bool)
    requires
        index < old(instances)@.len(),
    ensures
        final(instances)@.len() == old(instances)@.len(),
        views(final(instances)@) == views(old(instances)@).update(
            index as int,
            InstanceView { mouse_capture: enabled, ..views(old(instances)@)[index as int] },
        ),
{
    let ghost after = InstanceView { mouse_capture: enabled, ..views(instances@)[index as int] };
    instances[index].mouse_capture = enabled;
    proof {
        reveal(instance_model);
        assert(instances@[index as int]@ == after);
        lemma_views_update(old(instances)@, instances@, index as int);
    }
}

/// Keeps whether an instance wants all keys reported.
pub(crate) fn keep_keyboard_report(instances: &mut Vec<Instance>, index: usize, enabled: bool)
    requires
        index < old(instances)@.len(),
    ensures
        final(instances)@.len() == old(instances)@.len(),
        views(final(instances)@) == views(old(instances)@).update(
            index as int,
            InstanceView { keyboard_report_all: enabled, ..views(old(instances)@)[index as int] },
        ),
{
    let ghost after = InstanceView {
        keyboard_report_all: enabled,
        ..views(instances@)[index as int]
    };
    instances[index].keyboard_report_all = enabled;
    proof {
        reveal(instance_model);
        assert(instances@[index as int]@ == after);
        lemma_views_update(old(instances)@, instances@, index as int);
    }
}

/// Keeps whether an instance wants plain input for a prefix.
pub(crate) fn keep_prefix_input(instances: &mut Vec<Instance>, index: usize, active: bool)
    requires
        index < old(instances)@.len(),
    ensures
        final(instances)@.len() == old(instances)@.len(),
        views(final(instances)@) == views(old(instances)@).update(
            index as int,
            InstanceView { prefix_input_active: active, ..views(old(instances)@)[index as int] },
        ),
{
    let ghost after = InstanceView {
        prefix_input_active: active,
        ..views(instances@)[index as int]
    };
    instances[index].prefix_input_active = active;
    proof {
        reveal(instance_model);
        assert(instances@[index as int]@ == after);
        lemma_views_update(old(instances)@, instances@, index as int);
    }
}

/// Keeps whether an instance waits for its bridge.
pub(crate) fn keep_bridging(instances: &mut Vec<Instance>, index: usize, waits: bool)
    requires
        index < old(instances)@.len(),
    ensures
        final(instances)@.len() == old(instances)@.len(),
        views(final(instances)@) == views(old(instances)@).update(
            index as int,
            InstanceView { bridge_connecting: waits, ..views(old(instances)@)[index as int] },
        ),
{
    let ghost after = InstanceView { bridge_connecting: waits, ..views(instances@)[index as int] };
    instances[index].bridge_connecting = waits;
    proof {
        reveal(instance_model);
        assert(instances@[index as int]@ == after);
        lemma_views_update(old(instances)@, instances@, index as int);
    }
}

/// Keeps that an instance has a content stream. Nothing is wrong with it then.
pub(crate) fn keep_connected(instances: &mut Vec<Instance>, index: usize)
    requires
        index < old(instances)@.len(),
    ensures
        final(instances)@.len() == old(instances)@.len(),
        views(final(instances)@) == views(old(instances)@).update(
            index as int,
            InstanceView { connected: true, error: None, ..views(old(instances)@)[index as int] },
        ),
{
    let ghost after = InstanceView {
        connected: true,
        error: None,
        ..views(instances@)[index as int]
    };
    instances[index].connected = true;
    instances[index].error = None;
    proof {
        reveal(instance_model);
        assert(instances@[index as int]@ == after);
        lemma_views_update(old(instances)@, instances@, index as int);
    }
}

/// Keeps that an instance takes requests.
pub(crate) fn keep_taking_requests(instances: &mut Vec<Instance>, index: usize)
    requires
        index < old(instances)@.len(),
    ensures
        final(instances)@.len() == old(instances)@.len(),
        views(final(instances)@) == views(old(instances)@).update(
            index as int,
            InstanceView { accepts_requests: true, ..views(old(instances)@)[index as int] },
        ),
{
    let ghost after = InstanceView { accepts_requests: true, ..views(instances@)[index as int] };
    instances[index].accepts_requests = true;
    proof {
        reveal(instance_model);
        assert(instances@[index as int]@ == after);
        lemma_views_update(old(instances)@, instances@, index as int);
    }
}

/// Keeps that an instance has no content stream any more, and why.
pub(crate) fn lose(instances: &mut Vec<Instance>, index: usize, error: String)
    requires
        index < old(instances)@.len(),
    ensures
        final(instances)@.len() == old(instances)@.len(),
        views(final(instances)@) == views(old(instances)@).update(
            index as int,
            InstanceView {
                error: Some(error@),
                connected: false,
                frame: None,
                ..views(old(instances)@)[index as int]
            },
        ),
{
    let ghost after = InstanceView {
        error: Some(error@),
        connected: false,
        frame: None,
        ..views(instances@)[index as int]
    };
    instances[index].error = Some(error);
    instances[index].connected = false;
    instances[index].frame = None;
    proof {
        reveal(instance_model);
        assert(instances@[index as int]@ == after);
        lemma_views_update(old(instances)@, instances@, index as int);
    }
}

/// Keeps where an instance is reached through its bridge.
pub(crate) fn keep_bridge(
    instances: &mut Vec<Instance>,
    index: usize,
    client_socket: String,
    api_socket: String,
)
    requires
        index < old(instances)@.len(),
    ensures
        final(instances)@.len() == old(instances)@.len(),
        views(final(instances)@) == views(old(instances)@).update(
            index as int,
            InstanceView {
                client_socket: Some(client_socket@),
                api_target: Some(ApiTargetView::SocketPath(api_socket@)),
                accepts_requests: true,
                error: None,
                ..views(old(instances)@)[index as int]
            },
        ),
{
    let ghost after = InstanceView {
        client_socket: Some(client_socket@),
        api_target: Some(ApiTargetView::SocketPath(api_socket@)),
        accepts_requests: true,
        error: None,
        ..views(instances@)[index as int]
    };
    instances[index].client_socket = Some(client_socket);
    instances[index].api_target = Some(ApiTarget::SocketPath(api_socket));
    instances[index].accepts_requests = true;
    instances[index].error = None;
    proof {
        reveal(instance_model);
        assert(instances@[index as int]@ == after);
        lemma_views_update(old(instances)@, instances@, index as int);
    }
}

} // verus!
