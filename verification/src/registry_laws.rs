//! What the registry keeps, and what becomes of each request to it.

use vstd::prelude::*;
use vstd::string::*;

use crate::ids::{drawn_id, IdDraw};
use crate::names::{
    default_name_of, is_unbroken, law_good_values_are_taken, RegistryErrorView,
};
use crate::projection::lemma_key_number;
use crate::registry::{
    addition, default_registry, enabled_of, equal_presentations, has_enabled, has_id, has_name,
    has_target, ids_of, law_enabled_remotes, offered_id, or_default, place_of, removal, sourced,
    switching, with_presentation, FleetPresentationView, FleetRegistryView, RemoteInstanceView,
    REGISTRY_FILE, REGISTRY_LOCK_FILE,
};
use crate::text::trimmed;

verus! {

/// Whether a value may be kept: it is not empty once it is trimmed, and it has no
/// line break or NUL.
pub open spec fn is_good(value: Seq<char>) -> bool {
    trimmed(value).len() > 0 && is_unbroken(trimmed(value))
}

/// An optional value without the white space around it.
pub open spec fn trimmed_option(value: Option<Seq<char>>) -> Option<Seq<char>> {
    match value {
        Some(value) => Some(trimmed(value)),
        None => None,
    }
}

/// The name that a new remote is given, or gets by default.
pub open spec fn name_for(target: Seq<char>, name: Option<Seq<char>>) -> Seq<char> {
    match name {
        Some(name) => trimmed(name),
        None => default_name_of(trimmed(target)),
    }
}

/// Whether a remote has the target, session and name that a new one is to have.
pub open spec fn is_same_place(
    remote: RemoteInstanceView,
    target: Seq<char>,
    session: Option<Seq<char>>,
) -> bool {
    remote.target == trimmed(target) && remote.session == trimmed_option(session)
}

/// Whether the values of a request to add a remote are good.
pub open spec fn is_good_request(
    target: Seq<char>,
    name: Option<Seq<char>>,
    session: Option<Seq<char>>,
) -> bool {
    &&& is_good(target) && trimmed(target)[0] != '-'
    &&& session matches Some(session) ==> is_good(session)
    &&& name matches Some(name) ==> is_good(name)
}

/// A remote with good values, at a place and under a name that no other has, is
/// added behind the others, enabled, under the id that was drawn for it. Where
/// another remote has the id, nothing is added.
pub proof fn law_new_remotes_are_added(
    registry: FleetRegistryView,
    target: Seq<char>,
    name: Option<Seq<char>>,
    session: Option<Seq<char>>,
    draw: IdDraw,
)
    requires
        is_good_request(target, name, session),
        forall|i: int|
            0 <= i < registry.instances.len() ==> !is_same_place(
                #[trigger] registry.instances[i],
                target,
                session,
            ) && registry.instances[i].name != name_for(target, name),
    ensures
        ({
            let (outcome, after) = addition(registry, target, name, session, draw);
            let remote = RemoteInstanceView {
                id: drawn_id(trimmed(target), trimmed_option(session), draw),
                name: name_for(target, name),
                target: trimmed(target),
                session: trimmed_option(session),
                enabled: true,
            };
            let taken = exists|i: int|
                0 <= i < registry.instances.len() && (#[trigger] registry.instances[i]).id
                    == remote.id;
            &&& !taken ==> {
                &&& outcome == Ok::<Option<RemoteInstanceView>, RegistryErrorView>(Some(remote))
                &&& after.instances == registry.instances.push(remote)
                &&& after.version == registry.version
                &&& after.presentation == registry.presentation
            }
            &&& taken ==> outcome == Ok::<Option<RemoteInstanceView>, RegistryErrorView>(None)
                && after == registry
        }),
{
    law_good_values_are_taken(target, "session"@);
    if let Some(session) = session {
        law_good_values_are_taken(session, "session"@);
    }
    if let Some(name) = name {
        law_good_values_are_taken(name, "session"@);
    }
    let place = trimmed(target);
    let kept = trimmed_option(session);
    if has_target(registry.instances, place, kept) {
        let i = choose|i: int|
            0 <= i < registry.instances.len() && (#[trigger] registry.instances[i]).target == place
                && registry.instances[i].session == kept;
        assert(is_same_place(registry.instances[i], target, session));
    }
    if has_name(registry.instances, name_for(target, name)) {
        let i = choose|i: int|
            0 <= i < registry.instances.len() && (#[trigger] registry.instances[i]).name
                == name_for(target, name);
        assert(!is_same_place(registry.instances[i], target, session));
    }
}

/// A request to add a remote is refused for the first thing that is wrong with it:
/// its target, its session, that another remote has both, its name, or that another
/// remote has that. A refusal leaves the registry as it is.
pub proof fn law_bad_requests_are_refused(
    registry: FleetRegistryView,
    target: Seq<char>,
    name: Option<Seq<char>>,
    session: Option<Seq<char>>,
    draw: IdDraw,
)
    ensures
        ({
            let (outcome, after) = addition(registry, target, name, session, draw);
            let destination = is_good(target) && trimmed(target)[0] != '-';
            let in_session = session matches Some(session) ==> is_good(session);
            let named = name matches Some(name) ==> is_good(name);
            let same_place = exists|i: int|
                0 <= i < registry.instances.len() && is_same_place(
                    #[trigger] registry.instances[i],
                    target,
                    session,
                );
            let same_name = exists|i: int|
                0 <= i < registry.instances.len() && (#[trigger] registry.instances[i]).name
                    == name_for(target, name);
            &&& trimmed(target).len() == 0 ==> outcome == Err::<
                Option<RemoteInstanceView>,
                RegistryErrorView,
            >(RegistryErrorView::EmptyTarget)
            &&& trimmed(target).len() > 0 && !destination ==> outcome == Err::<
                Option<RemoteInstanceView>,
                RegistryErrorView,
            >(RegistryErrorView::InvalidTarget)
            &&& destination && !in_session ==> outcome == Err::<
                Option<RemoteInstanceView>,
                RegistryErrorView,
            >(RegistryErrorView::InvalidValue { field: "session"@ })
            &&& destination && in_session && same_place ==> outcome == Err::<
                Option<RemoteInstanceView>,
                RegistryErrorView,
            >(RegistryErrorView::DuplicateTarget)
            &&& destination && in_session && !same_place && !named ==> outcome == Err::<
                Option<RemoteInstanceView>,
                RegistryErrorView,
            >(RegistryErrorView::InvalidName)
            &&& destination && in_session && !same_place && named && same_name ==> outcome == Err::<
                Option<RemoteInstanceView>,
                RegistryErrorView,
            >(RegistryErrorView::DuplicateName { name: name_for(target, name) })
            &&& outcome is Err ==> after == registry
        }),
{
    law_good_values_are_taken(target, "session"@);
    if let Some(session) = session {
        law_good_values_are_taken(session, "session"@);
    }
    if let Some(name) = name {
        law_good_values_are_taken(name, "session"@);
    }
    let place = trimmed(target);
    let kept = trimmed_option(session);
    if exists|i: int|
        0 <= i < registry.instances.len() && is_same_place(
            #[trigger] registry.instances[i],
            target,
            session,
        ) {
        let i = choose|i: int|
            0 <= i < registry.instances.len() && is_same_place(
                #[trigger] registry.instances[i],
                target,
                session,
            );
        assert(registry.instances[i].target == place && registry.instances[i].session == kept);
        assert(has_target(registry.instances, place, kept));
    }
    if has_target(registry.instances, place, kept) {
        let i = choose|i: int|
            0 <= i < registry.instances.len() && (#[trigger] registry.instances[i]).target == place
                && registry.instances[i].session == kept;
        assert(is_same_place(registry.instances[i], target, session));
    }
}

proof fn lemma_first_place(instances: Seq<RemoteInstanceView>, id: Seq<char>, place: int)
    requires
        0 <= place < instances.len(),
        instances[place].id == id,
        forall|i: int| 0 <= i < place ==> (#[trigger] instances[i]).id != id,
    ensures
        has_id(instances, id),
        place_of(instances, id) == place,
{
    let ids = ids_of(instances);
    assert forall|i: int| 0 <= i < place implies ids[i] != id by {
        assert(ids[i] == instances[i].id);
    }
    lemma_key_number(ids, id, place);
}

/// Removing hands back the first remote with the id, and leaves the others as they
/// are, in their order.
pub proof fn law_first_remotes_are_removed(
    registry: FleetRegistryView,
    id: Seq<char>,
    place: int,
)
    requires
        0 <= place < registry.instances.len(),
        registry.instances[place].id == id,
        forall|i: int| 0 <= i < place ==> (#[trigger] registry.instances[i]).id != id,
    ensures
        ({
            let (outcome, after) = removal(registry, id);
            &&& outcome == Ok::<RemoteInstanceView, RegistryErrorView>(registry.instances[place])
            &&& after.instances == registry.instances.take(place) + registry.instances.skip(
                place + 1,
            )
            &&& after.version == registry.version
            &&& after.presentation == registry.presentation
        }),
{
    lemma_first_place(registry.instances, id, place);
    assert(removal(registry, id).1.instances =~= registry.instances.take(place)
        + registry.instances.skip(place + 1));
}

/// Switching on or off concerns the first remote with the id and nothing else, and
/// hands it back as it is then.
pub proof fn law_first_remotes_are_switched(
    registry: FleetRegistryView,
    id: Seq<char>,
    enabled: bool,
    place: int,
    other: int,
)
    requires
        0 <= place < registry.instances.len(),
        registry.instances[place].id == id,
        forall|i: int| 0 <= i < place ==> (#[trigger] registry.instances[i]).id != id,
        0 <= other < registry.instances.len(),
    ensures
        ({
            let (outcome, after) = switching(registry, id, enabled);
            let old = registry.instances[place];
            let switched = after.instances[place];
            &&& outcome == Ok::<RemoteInstanceView, RegistryErrorView>(switched)
            &&& switched.enabled == enabled
            &&& switched.id == old.id
            &&& switched.name == old.name
            &&& switched.target == old.target
            &&& switched.session == old.session
            &&& after.instances.len() == registry.instances.len()
            &&& other != place ==> after.instances[other] == registry.instances[other]
            &&& after.version == registry.version
            &&& after.presentation == registry.presentation
        }),
{
    lemma_first_place(registry.instances, id, place);
}

/// An id that no remote has is neither removed nor switched: that is what the user
/// is told, and nothing changes.
pub proof fn law_unknown_ids_are_not_found(
    registry: FleetRegistryView,
    id: Seq<char>,
    enabled: bool,
)
    requires
        forall|i: int|
            0 <= i < registry.instances.len() ==> (#[trigger] registry.instances[i]).id != id,
    ensures
        removal(registry, id) == (
            Err::<RemoteInstanceView, RegistryErrorView>(RegistryErrorView::NotFound { id }),
            registry,
        ),
        switching(registry, id, enabled) == (
            Err::<RemoteInstanceView, RegistryErrorView>(RegistryErrorView::NotFound { id }),
            registry,
        ),
{
}

/// A registry of the known version is taken as it is, and one of any other version
/// is refused with it. Where there is none, it is empty, of the known version, and
/// nothing was laid out.
pub proof fn law_known_registries_are_taken(registry: FleetRegistryView)
    ensures
        registry.version == 1 ==> sourced(Some(registry)) == Ok::<
            FleetRegistryView,
            RegistryErrorView,
        >(registry),
        registry.version != 1 ==> sourced(Some(registry)) == Err::<
            FleetRegistryView,
            RegistryErrorView,
        >(RegistryErrorView::UnsupportedVersion { version: registry.version }),
        ({
            let fresh = default_registry();
            &&& sourced(None) == Ok::<FleetRegistryView, RegistryErrorView>(fresh)
            &&& or_default(None) == fresh
            &&& fresh.version == 1
            &&& fresh.instances.len() == 0
            &&& fresh.presentation.sidebar_width is None
            &&& fresh.presentation.sidebar_section_split is None
            &&& fresh.presentation.collapsed_space_keys == Set::<Seq<char>>::empty()
        }),
        or_default(Some(registry)) == registry,
{
}

/// The client is in use exactly where some remote is enabled.
pub proof fn law_clients_are_used_for_enabled_remotes(instances: Seq<RemoteInstanceView>)
    ensures
        has_enabled(instances) <==> enabled_of(instances).len() > 0,
{
    if has_enabled(instances) {
        let i = choose|i: int| 0 <= i < instances.len() && (#[trigger] instances[i]).enabled;
        law_enabled_remotes(instances, instances[i]);
        assert(instances.contains(instances[i]));
        assert(enabled_of(instances).contains(instances[i]));
    }
    if enabled_of(instances).len() > 0 {
        let remote = enabled_of(instances)[0];
        law_enabled_remotes(instances, remote);
        assert(enabled_of(instances).contains(remote));
        let i = choose|i: int| 0 <= i < instances.len() && instances[i] == remote;
        assert(instances[i].enabled);
    }
}

/// Layouts compare by the numbers that their splits stand for: zeros of either sign
/// are the same, and what is no number is the same as nothing.
pub proof fn law_splits_compare_as_numbers(layout: FleetPresentationView, a: u32, b: u32)
    ensures
        ({
            let x = FleetPresentationView { sidebar_section_split: Some(a), ..layout };
            let y = FleetPresentationView { sidebar_section_split: Some(b), ..layout };
            let none = FleetPresentationView { sidebar_section_split: None, ..layout };
            let a_is_number = a <= 0x7f80_0000 || 0x8000_0000 <= a <= 0xff80_0000;
            let b_is_number = b <= 0x7f80_0000 || 0x8000_0000 <= b <= 0xff80_0000;
            let both_zero = (a == 0 || a == 0x8000_0000) && (b == 0 || b == 0x8000_0000);
            &&& equal_presentations(x, y) <==> a_is_number && b_is_number && (a == b || both_zero)
            &&& equal_presentations(none, none)
            &&& !equal_presentations(x, none)
            &&& !equal_presentations(none, x)
        }),
{
}

/// The registry is kept under its own name, and the lock under one that no listing
/// shows.
pub proof fn law_files_have_their_names()
    ensures
        REGISTRY_FILE@ == "remotes.toml"@,
        REGISTRY_LOCK_FILE@ == ".remotes.lock"@,
{
}

/// A draw offers the id that it gives where no remote has it, and none where one
/// does.
pub proof fn law_taken_ids_are_not_offered(
    instances: Seq<RemoteInstanceView>,
    target: Seq<char>,
    session: Option<Seq<char>>,
    draw: IdDraw,
    i: int,
)
    requires
        0 <= i < instances.len(),
    ensures
        ({
            let offered = offered_id(instances, target, session, draw);
            let id = drawn_id(target, session, draw);
            &&& instances[i].id == id ==> offered is None
            &&& offered matches Some(offered) ==> offered == id && instances[i].id != id
            &&& offered is None ==> exists|j: int|
                0 <= j < instances.len() && (#[trigger] instances[j]).id == id
        }),
        offered_id(Seq::empty(), target, session, draw) == Some(drawn_id(target, session, draw)),
{
}

/// Replacing the layout leaves the version and the remotes as they are.
pub proof fn law_layouts_are_replaced(
    registry: FleetRegistryView,
    presentation: FleetPresentationView,
)
    ensures
        with_presentation(registry, presentation).presentation == presentation,
        with_presentation(registry, presentation).instances == registry.instances,
        with_presentation(registry, presentation).version == registry.version,
{
}

} // verus!
