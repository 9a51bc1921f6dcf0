//! The registry of remote instances, and how the fleet client was last laid
//! out.

use vstd::prelude::*;
use vstd::string::*;

use crate::compare::{copy_option_text, opt_text, opt_view, same_option_text, views};
use crate::frame::texts;
use crate::ids::{draw_id, drawn_id, is_remote_id, IdDraw, InstanceId};
use crate::names::{
    default_name, default_name_of, is_kept_value, law_default_name_is_a_kept_value,
    law_taken_target_is_a_destination, law_taken_values_are_kept_values, normalize_name,
    normalize_optional_value, normalize_target, normalized_name, normalized_optional,
    normalized_target, remote_not_found, RegistryError, RegistryErrorView, REGISTRY_VERSION,
};
use crate::projection::{key_number, lemma_key_number, lemma_key_number_found};
use crate::text::same_text;

verus! {

/// The name of the registry file.
pub const REGISTRY_FILE: &'static str = "remotes.toml";

/// The name of the file that is locked while the registry is rewritten.
pub const REGISTRY_LOCK_FILE: &'static str = ".remotes.lock";

/// A remote that the user has configured.
#[derive(Debug, PartialEq, Eq)]
pub struct RemoteInstance {
    pub id: InstanceId,
    pub name: String,
    pub target: String,
    pub session: Option<String>,
    pub enabled: bool,
}

/// The mathematical model of a remote.
pub struct RemoteInstanceView {
    pub id: Seq<char>,
    pub name: Seq<char>,
    pub target: Seq<char>,
    pub session: Option<Seq<char>>,
    pub enabled: bool,
}

impl View for RemoteInstance {
    type V = RemoteInstanceView;

    open spec fn view(&self) -> RemoteInstanceView {
        RemoteInstanceView {
            id: self.id@,
            name: self.name@,
            target: self.target@,
            session: opt_text(self.session),
            enabled: self.enabled,
        }
    }
}

impl Clone for RemoteInstance {
    fn clone(&self) -> (r: Self)
        ensures
            r == *self,
    {
        RemoteInstance {
            id: self.id.clone(),
            name: self.name.clone(),
            target: self.target.clone(),
            session: copy_option_text(&self.session),
            enabled: self.enabled,
        }
    }
}

/// A remote is enabled unless its entry says otherwise.
pub fn enabled_by_default() -> (r: bool)
    ensures
        r,
{
    true
}

/// How the fleet client was last laid out. The split is kept as the bits of a
/// single-precision number; the keys form a set, whatever their order.
#[derive(Debug)]
pub struct FleetPresentation {
    pub sidebar_width: Option<u16>,
    pub sidebar_section_split: Option<u32>,
    pub collapsed_space_keys: Vec<String>,
}

/// The mathematical model of a layout.
pub struct FleetPresentationView {
    pub sidebar_width: Option<u16>,
    pub sidebar_section_split: Option<u32>,
    pub collapsed_space_keys: Set<Seq<char>>,
}

impl View for FleetPresentation {
    type V = FleetPresentationView;

    open spec fn view(&self) -> FleetPresentationView {
        FleetPresentationView {
            sidebar_width: self.sidebar_width,
            sidebar_section_split: self.sidebar_section_split,
            collapsed_space_keys: texts(self.collapsed_space_keys@).to_set(),
        }
    }
}

/// The layout of a client that was never laid out.
pub open spec fn default_presentation() -> FleetPresentationView {
    FleetPresentationView {
        sidebar_width: None,
        sidebar_section_split: None,
        collapsed_space_keys: Set::empty(),
    }
}

/// Whether bits stand for a single-precision number that is no number.
pub open spec fn is_nan_bits(bits: u32) -> bool {
    bits % 0x8000_0000 > 0x7f80_0000
}

/// Whether bits stand for a single-precision zero, of either sign.
pub open spec fn is_zero_bits(bits: u32) -> bool {
    bits % 0x8000_0000 == 0
}

/// Whether the single-precision numbers of two bit patterns compare equal.
pub open spec fn equal_splits(a: u32, b: u32) -> bool {
    &&& !is_nan_bits(a)
    &&& !is_nan_bits(b)
    &&& a == b || (is_zero_bits(a) && is_zero_bits(b))
}

/// Whether two layouts compare equal.
pub open spec fn equal_presentations(a: FleetPresentationView, b: FleetPresentationView) -> bool {
    &&& a.sidebar_width == b.sidebar_width
    &&& match (a.sidebar_section_split, b.sidebar_section_split) {
        (Some(x), Some(y)) => equal_splits(x, y),
        (None, None) => true,
        _ => false,
    }
    &&& a.collapsed_space_keys == b.collapsed_space_keys
}

fn split_is(a: u32, b: u32) -> (r: bool)
    ensures
        r == equal_splits(a, b),
{
    let x: u32 = a % 0x8000_0000;
    let y: u32 = b % 0x8000_0000;
    x <= 0x7f80_0000 && y <= 0x7f80_0000 && (a == b || (x == 0 && y == 0))
}

/// Whether every key of `a` is one of `b`.
fn keys_within(a: &Vec<String>, b: &Vec<String>) -> (r: bool)
    ensures
        r == texts(a@).to_set().subset_of(texts(b@).to_set()),
{
    let ghost whole = texts(b@);
    let mut i: usize = 0;
    while i < a.len()
        invariant
            i <= a@.len(),
            whole == texts(b@),
            forall|k: int| 0 <= k < i ==> whole.contains((#[trigger] a@[k])@),
        decreases a@.len() - i,
    {
        let mut found: bool = false;
        let mut j: usize = 0;
        while j < b.len() && !found
            invariant
                i < a@.len(),
                j <= b@.len(),
                whole == texts(b@),
                found ==> whole.contains(a@[i as int]@),
                !found ==> forall|k: int| 0 <= k < j ==> whole[k] != a@[i as int]@,
            decreases b@.len() - j + (if found { 0int } else { 1int }),
        {
            assert(whole[j as int] == b@[j as int]@);
            if same_text(a[i].as_str(), b[j].as_str()) {
                found = true;
            } else {
                j += 1;
            }
        }
        if !found {
            proof {
                let key = a@[i as int]@;
                assert(texts(a@)[i as int] == key);
                assert(texts(a@).to_set().contains(key));
                assert(!whole.contains(key));
                assert(!whole.to_set().contains(key));
            }
            return false;
        }
        i += 1;
    }
    assert forall|key: Seq<char>| texts(a@).to_set().contains(key) implies texts(
        b@,
    ).to_set().contains(key) by {
        let k = choose|k: int| 0 <= k < texts(a@).len() && texts(a@)[k] == key;
        assert(a@[k]@ == key);
    }
    true
}

impl FleetPresentation {
    /// The layout of a client that was never laid out.
    pub fn unset() -> (r: Self)
        ensures
            r@ == default_presentation(),
    {
        let r = FleetPresentation {
            sidebar_width: None,
            sidebar_section_split: None,
            collapsed_space_keys: Vec::new(),
        };
        assert(r@.collapsed_space_keys =~= Set::empty());
        r
    }

    /// Whether the client was never laid out.
    pub fn is_default(&self) -> (r: bool)
        ensures
            r == equal_presentations(self@, default_presentation()),
    {
        proof {
            if self.collapsed_space_keys@.len() == 0 {
                assert(self@.collapsed_space_keys =~= Set::empty());
            } else {
                let key = texts(self.collapsed_space_keys@)[0];
                assert(self@.collapsed_space_keys.contains(key));
                assert(!Set::<Seq<char>>::empty().contains(key));
            }
        }
        self.sidebar_width.is_none() && self.sidebar_section_split.is_none()
            && self.collapsed_space_keys.len() == 0
    }

    /// Whether two layouts compare equal.
    pub fn equals(&self, other: &Self) -> (r: bool)
        ensures
            r == equal_presentations(self@, other@),
    {
        let width: bool = match (self.sidebar_width, other.sidebar_width) {
            (Some(a), Some(b)) => a == b,
            (None, None) => true,
            _ => false,
        };
        let split: bool = match (self.sidebar_section_split, other.sidebar_section_split) {
            (Some(a), Some(b)) => split_is(a, b),
            (None, None) => true,
            _ => false,
        };
        let within: bool = keys_within(&self.collapsed_space_keys, &other.collapsed_space_keys);
        let around: bool = keys_within(&other.collapsed_space_keys, &self.collapsed_space_keys);
        proof {
            if within && around {
                assert(self@.collapsed_space_keys =~= other@.collapsed_space_keys);
            }
        }
        width && split && within && around
    }
}

/// The registry: the version of its format, the remotes, and the layout.
#[derive(Debug)]
pub struct FleetRegistry {
    pub version: u32,
    pub instances: Vec<RemoteInstance>,
    pub presentation: FleetPresentation,
}

/// The mathematical model of the registry.
pub struct FleetRegistryView {
    pub version: u32,
    pub instances: Seq<RemoteInstanceView>,
    pub presentation: FleetPresentationView,
}

impl View for FleetRegistry {
    type V = FleetRegistryView;

    open spec fn view(&self) -> FleetRegistryView {
        FleetRegistryView {
            version: self.version,
            instances: views(self.instances@),
            presentation: self.presentation@,
        }
    }
}

/// The registry of a user who has configured nothing.
pub open spec fn default_registry() -> FleetRegistryView {
    FleetRegistryView {
        version: REGISTRY_VERSION,
        instances: seq![],
        presentation: default_presentation(),
    }
}

/// The ids of remotes.
pub open spec fn ids_of(instances: Seq<RemoteInstanceView>) -> Seq<Seq<char>> {
    instances.map_values(|i: RemoteInstanceView| i.id)
}

/// The place of the first remote with an id; the number of remotes where there
/// is none.
pub open spec fn place_of(instances: Seq<RemoteInstanceView>, id: Seq<char>) -> nat {
    key_number(ids_of(instances), id)
}

/// Whether a remote has an id.
pub open spec fn has_id(instances: Seq<RemoteInstanceView>, id: Seq<char>) -> bool {
    exists|i: int| 0 <= i < instances.len() && (#[trigger] instances[i]).id == id
}

/// Whether a remote has a name.
pub open spec fn has_name(instances: Seq<RemoteInstanceView>, name: Seq<char>) -> bool {
    exists|i: int| 0 <= i < instances.len() && (#[trigger] instances[i]).name == name
}

/// Whether a remote has a target and session.
pub open spec fn has_target(
    instances: Seq<RemoteInstanceView>,
    target: Seq<char>,
    session: Option<Seq<char>>,
) -> bool {
    exists|i: int|
        0 <= i < instances.len() && (#[trigger] instances[i]).target == target
            && instances[i].session == session
}

/// The remotes that are enabled, in order.
pub open spec fn enabled_of(instances: Seq<RemoteInstanceView>) -> Seq<RemoteInstanceView>
    decreases instances.len(),
{
    if instances.len() == 0 {
        seq![]
    } else {
        let rest = enabled_of(instances.drop_last());
        if instances.last().enabled {
            rest.push(instances.last())
        } else {
            rest
        }
    }
}

/// The remote that a request to add one describes, without an id, or why it is
/// refused.
pub open spec fn planned_remote(
    instances: Seq<RemoteInstanceView>,
    target: Seq<char>,
    name: Option<Seq<char>>,
    session: Option<Seq<char>>,
) -> Result<RemoteInstanceView, RegistryErrorView> {
    match normalized_target(target) {
        Err(e) => Err(e),
        Ok(target) => match normalized_optional(session, "session"@) {
            Err(e) => Err(e),
            Ok(session) => if has_target(instances, target, session) {
                Err(RegistryErrorView::DuplicateTarget)
            } else {
                let name = match name {
                    Some(name) => normalized_name(name),
                    None => Ok(default_name_of(target)),
                };
                match name {
                    Err(e) => Err(e),
                    Ok(name) => if has_name(instances, name) {
                        Err(RegistryErrorView::DuplicateName { name })
                    } else {
                        Ok(RemoteInstanceView { id: seq![], name, target, session, enabled: true })
                    },
                }
            },
        },
    }
}

/// The registry with one more remote.
pub open spec fn with_remote(
    registry: FleetRegistryView,
    remote: RemoteInstanceView,
) -> FleetRegistryView {
    FleetRegistryView { instances: registry.instances.push(remote), ..registry }
}

/// The registry with another layout.
pub open spec fn with_presentation(
    registry: FleetRegistryView,
    presentation: FleetPresentationView,
) -> FleetRegistryView {
    FleetRegistryView { presentation, ..registry }
}

/// The id that a draw gives a new remote, where no remote has it yet.
pub open spec fn offered_id(
    instances: Seq<RemoteInstanceView>,
    target: Seq<char>,
    session: Option<Seq<char>>,
    draw: IdDraw,
) -> Option<Seq<char>> {
    let id = drawn_id(target, session, draw);
    if has_id(instances, id) {
        None
    } else {
        Some(id)
    }
}

/// The registry without the remote at a place.
pub open spec fn without_remote(registry: FleetRegistryView, place: int) -> FleetRegistryView {
    FleetRegistryView { instances: registry.instances.remove(place), ..registry }
}

/// The registry with the remote at a place switched on or off.
pub open spec fn with_enabled(
    registry: FleetRegistryView,
    place: int,
    enabled: bool,
) -> FleetRegistryView {
    FleetRegistryView {
        instances: registry.instances.update(
            place,
            RemoteInstanceView { enabled, ..registry.instances[place] },
        ),
        ..registry
    }
}

/// What came of a request to add a remote that was not refused: the remote, or
/// that the draw gave an id that is taken, in which case nothing changed and
/// another draw is due.
#[derive(Debug)]
pub enum AddOutcome {
    Added(RemoteInstance),
    IdTaken,
}

/// What a request to add a remote comes to, and what the registry is then.
pub open spec fn addition(
    registry: FleetRegistryView,
    target: Seq<char>,
    name: Option<Seq<char>>,
    session: Option<Seq<char>>,
    draw: IdDraw,
) -> (Result<Option<RemoteInstanceView>, RegistryErrorView>, FleetRegistryView) {
    match planned_remote(registry.instances, target, name, session) {
        Err(e) => (Err(e), registry),
        Ok(planned) => {
            let id = drawn_id(planned.target, planned.session, draw);
            let remote = RemoteInstanceView { id, ..planned };
            if has_id(registry.instances, id) {
                (Ok(None), registry)
            } else {
                (Ok(Some(remote)), with_remote(registry, remote))
            }
        },
    }
}

/// What a request to remove a remote comes to, and what the registry is then.
pub open spec fn removal(registry: FleetRegistryView, id: Seq<char>) -> (
    Result<RemoteInstanceView, RegistryErrorView>,
    FleetRegistryView,
) {
    let place = place_of(registry.instances, id) as int;
    if has_id(registry.instances, id) {
        (Ok(registry.instances[place]), without_remote(registry, place))
    } else {
        (Err(RegistryErrorView::NotFound { id }), registry)
    }
}

/// What a request to switch a remote on or off comes to, and what the registry is
/// then.
pub open spec fn switching(registry: FleetRegistryView, id: Seq<char>, enabled: bool) -> (
    Result<RemoteInstanceView, RegistryErrorView>,
    FleetRegistryView,
) {
    let place = place_of(registry.instances, id) as int;
    let after = with_enabled(registry, place, enabled);
    if has_id(registry.instances, id) {
        (Ok(after.instances[place]), after)
    } else {
        (Err(RegistryErrorView::NotFound { id }), registry)
    }
}

/// The outcome of a request to add a remote.
pub open spec fn added(r: Result<AddOutcome, RegistryError>) -> Result<
    Option<RemoteInstanceView>,
    RegistryErrorView,
> {
    match r {
        Ok(AddOutcome::Added(remote)) => Ok(Some(remote@)),
        Ok(AddOutcome::IdTaken) => Ok(None),
        Err(e) => Err(e@),
    }
}

/// The outcome of a request that hands a remote back.
pub open spec fn handed(r: Result<RemoteInstance, RegistryError>) -> Result<
    RemoteInstanceView,
    RegistryErrorView,
> {
    match r {
        Ok(remote) => Ok(remote@),
        Err(e) => Err(e@),
    }
}

impl Default for FleetRegistry {
    fn default() -> (r: Self)
        ensures
            r@ == default_registry(),
    {
        let r = FleetRegistry {
            version: REGISTRY_VERSION,
            instances: Vec::new(),
            presentation: FleetPresentation::unset(),
        };
        assert(r@.instances =~= seq![]);
        r
    }
}

impl FleetRegistry {
    /// The layout.
    pub fn presentation(&self) -> (r: &FleetPresentation)
        ensures
            *r == self.presentation,
    {
        &self.presentation
    }

    /// Replaces the layout.
    pub fn set_presentation(&mut self, presentation: FleetPresentation)
        ensures
            final(self)@ == with_presentation(old(self)@, presentation@),
    {
        self.presentation = presentation;
    }

    /// The remotes that are enabled, in order.
    pub fn enabled_instances(&self) -> (r: Vec<&RemoteInstance>)
        ensures
            views(r@) == enabled_of(self@.instances),
    {
        let mut r: Vec<&RemoteInstance> = Vec::new();
        let ghost all = self@.instances;
        assert(views(r@) =~= enabled_of(all.take(0)));
        let mut i: usize = 0;
        while i < self.instances.len()
            invariant
                i <= self.instances@.len(),
                all == views(self.instances@),
                views(r@) == enabled_of(all.take(i as int)),
            decreases self.instances@.len() - i,
        {
            let ghost before = views(r@);
            let instance = &self.instances[i];
            assert(all.take(i + 1).drop_last() =~= all.take(i as int));
            assert(all.take(i + 1).last() == instance@);
            if instance.enabled {
                r.push(instance);
                assert(views(r@) =~= before.push(instance@));
            }
            i += 1;
        }
        assert(all.take(i as int) =~= all);
        r
    }

    /// The place of the first remote with an id.
    fn place(&self, id: &str) -> (r: Option<usize>)
        ensures
            match r {
                Some(i) => i < self.instances@.len() && i == place_of(self@.instances, id@)
                    && has_id(self@.instances, id@),
                None => !has_id(self@.instances, id@) && place_of(self@.instances, id@)
                    == self@.instances.len(),
            },
    {
        let ghost ids = ids_of(self@.instances);
        let mut i: usize = 0;
        while i < self.instances.len()
            invariant
                i <= self.instances@.len(),
                ids == ids_of(self@.instances),
                ids.len() == self.instances@.len(),
                forall|j: int| 0 <= j < i ==> ids[j] != id@,
            decreases self.instances@.len() - i,
        {
            assert(self@.instances[i as int].id == self.instances@[i as int].id@);
            assert(ids[i as int] == self.instances@[i as int].id@);
            if same_text(self.instances[i].id.as_str(), id) {
                proof {
                    lemma_key_number(ids, id@, i as int);
                }
                return Some(i);
            }
            i += 1;
        }
        proof {
            lemma_key_number(ids, id@, i as int);
            assert forall|j: int| 0 <= j < self@.instances.len() implies (
            #[trigger] self@.instances[j]).id != id@ by {
                assert(ids[j] == self@.instances[j].id);
            }
        }
        None
    }

    /// Whether a remote has a target and session.
    fn knows_target(&self, target: &str, session: &Option<String>) -> (r: bool)
        ensures
            r == has_target(self@.instances, target@, opt_text(*session)),
    {
        let mut i: usize = 0;
        while i < self.instances.len()
            invariant
                i <= self.instances@.len(),
                forall|j: int|
                    0 <= j < i ==> (#[trigger] self@.instances[j]).target != target@
                        || self@.instances[j].session != opt_text(*session),
            decreases self.instances@.len() - i,
        {
            let instance = &self.instances[i];
            assert(self@.instances[i as int] == instance@);
            if same_text(instance.target.as_str(), target) && same_option_text(
                &instance.session,
                session,
            ) {
                return true;
            }
            i += 1;
        }
        false
    }

    /// Whether a remote has a name.
    fn knows_name(&self, name: &str) -> (r: bool)
        ensures
            r == has_name(self@.instances, name@),
    {
        let mut i: usize = 0;
        while i < self.instances.len()
            invariant
                i <= self.instances@.len(),
                forall|j: int| 0 <= j < i ==> (#[trigger] self@.instances[j]).name != name@,
            decreases self.instances@.len() - i,
        {
            let instance = &self.instances[i];
            assert(self@.instances[i as int] == instance@);
            if same_text(instance.name.as_str(), name) {
                return true;
            }
            i += 1;
        }
        false
    }

    /// The id that a draw gives a new remote, where no remote has it yet.
    pub fn next_id(&self, target: &str, session: Option<&str>, draw: IdDraw) -> (r: Option<
        InstanceId,
    >)
        ensures
            opt_view(r) == offered_id(
                self@.instances,
                target@,
                match session {
                    Some(s) => Some(s@),
                    None => None,
                },
                draw,
            ),
            r matches Some(drawn) ==> is_remote_id(drawn@),
    {
        let id = draw_id(target, session, draw);
        match self.place(id.as_str()) {
            Some(_) => None,
            None => Some(id),
        }
    }

    /// Adds a remote: its target and session must be new, and so must its name,
    /// which is taken from the target where none is given. The draw makes its
    /// id.
    pub fn add(
        &mut self,
        target: String,
        name: Option<String>,
        session: Option<String>,
        draw: IdDraw,
    ) -> (r: Result<AddOutcome, RegistryError>)
        ensures
            (added(r), final(self)@) == addition(
                old(self)@,
                target@,
                opt_text(name),
                opt_text(session),
                draw,
            ),
            r matches Ok(AddOutcome::Added(remote)) ==> is_remote_id(remote@.id),
    {
        let target = match normalize_target(target.as_str()) {
            Ok(target) => target,
            Err(e) => {
                return Err(e);
            },
        };
        let session = match normalize_optional_value(session, "session") {
            Ok(session) => session,
            Err(e) => {
                return Err(e);
            },
        };
        if self.knows_target(target.as_str(), &session) {
            return Err(RegistryError::DuplicateTarget);
        }
        let name = match name {
            Some(name) => match normalize_name(name.as_str()) {
                Ok(name) => name,
                Err(e) => {
                    return Err(e);
                },
            },
            None => default_name(target.as_str()),
        };
        if self.knows_name(name.as_str()) {
            return Err(RegistryError::DuplicateName { name });
        }
        let drawn = match &session {
            Some(text) => self.next_id(target.as_str(), Some(text.as_str()), draw),
            None => self.next_id(target.as_str(), None, draw),
        };
        let id = match drawn {
            Some(id) => id,
            None => {
                return Ok(AddOutcome::IdTaken);
            },
        };
        let instance = RemoteInstance { id, name, target, session, enabled: enabled_by_default() };
        self.instances.push(instance.clone());
        assert(self@.instances =~= old(self)@.instances.push(instance@));
        Ok(AddOutcome::Added(instance))
    }

    /// Removes the first remote with an id, and hands it back.
    pub fn remove(&mut self, id: &str) -> (r: Result<RemoteInstance, RegistryError>)
        ensures
            (handed(r), final(self)@) == removal(old(self)@, id@),
    {
        match self.place(id) {
            Some(index) => {
                let instance = self.instances.remove(index);
                assert(self@.instances =~= old(self)@.instances.remove(index as int));
                Ok(instance)
            },
            None => Err(remote_not_found(id)),
        }
    }

    /// Switches the first remote with an id on or off, and hands it back.
    pub fn set_enabled(&mut self, id: &str, enabled: bool) -> (r: Result<
        RemoteInstance,
        RegistryError,
    >)
        ensures
            (handed(r), final(self)@) == switching(old(self)@, id@, enabled),
    {
        match self.place(id) {
            Some(index) => {
                self.instances[index].enabled = enabled;
                assert(self@.instances =~= with_enabled(
                    old(self)@,
                    index as int,
                    enabled,
                ).instances);
                Ok(self.instances[index].clone())
            },
            None => Err(remote_not_found(id)),
        }
    }
}

/// Whether any remote is enabled.
pub open spec fn has_enabled(instances: Seq<RemoteInstanceView>) -> bool {
    exists|i: int| 0 <= i < instances.len() && (#[trigger] instances[i]).enabled
}

/// Whether the fleet client has anything to show besides this machine.
pub fn is_enabled(registry: &FleetRegistry) -> (r: bool)
    ensures
        r == has_enabled(registry@.instances),
{
    let mut i: usize = 0;
    while i < registry.instances.len()
        invariant
            i <= registry.instances@.len(),
            forall|j: int| 0 <= j < i ==> !(#[trigger] registry@.instances[j]).enabled,
        decreases registry.instances@.len() - i,
    {
        assert(registry@.instances[i as int] == registry.instances@[i as int]@);
        if registry.instances[i].enabled {
            return true;
        }
        i += 1;
    }
    false
}

/// What the registry file was found to be.
#[derive(Debug)]
pub enum RegistrySource {
    Missing,
    Parsed(FleetRegistry),
}

/// The registry that was read.
pub open spec fn loaded(r: Result<FleetRegistry, RegistryError>) -> Result<
    FleetRegistryView,
    RegistryErrorView,
> {
    match r {
        Ok(registry) => Ok(registry@),
        Err(e) => Err(e@),
    }
}

/// The registry that a file gives, where there is one, or why it is refused.
pub open spec fn sourced(found: Option<FleetRegistryView>) -> Result<
    FleetRegistryView,
    RegistryErrorView,
> {
    match found {
        None => Ok(default_registry()),
        Some(registry) => if registry.version == REGISTRY_VERSION {
            Ok(registry)
        } else {
            Err(RegistryErrorView::UnsupportedVersion { version: registry.version })
        },
    }
}

/// The registry of a file that was found.
pub open spec fn found_in(source: RegistrySource) -> Option<FleetRegistryView> {
    match source {
        RegistrySource::Missing => None,
        RegistrySource::Parsed(registry) => Some(registry@),
    }
}

/// The registry to work with where there may be none.
pub open spec fn or_default(registry: Option<FleetRegistryView>) -> FleetRegistryView {
    match registry {
        Some(registry) => registry,
        None => default_registry(),
    }
}

/// The registry that a file gives: a file that is not there gives an empty
/// registry, and a format of another version is refused.
pub fn load_from_source(source: RegistrySource) -> (r: Result<FleetRegistry, RegistryError>)
    ensures
        loaded(r) == sourced(found_in(source)),
{
    match source {
        RegistrySource::Missing => Ok(FleetRegistry::default()),
        RegistrySource::Parsed(registry) => {
            if registry.version != REGISTRY_VERSION {
                return Err(RegistryError::UnsupportedVersion { version: registry.version });
            }
            Ok(registry)
        },
    }
}

/// The registry to work with where reading one may have failed.
pub fn load_or_default(registry: Option<FleetRegistry>) -> (r: FleetRegistry)
    ensures
        r@ == or_default(opt_view(registry)),
{
    match registry {
        Some(registry) => registry,
        None => FleetRegistry::default(),
    }
}

/// Whether a path is that of a file in a directory: the directory and the file
/// with a separator between them, and none where the directory is empty or ends
/// in a slash. A directory that ends in a backslash or a colon may need none
/// either: on some platforms the one is a separator, and the other ends a drive.
pub open spec fn is_joined(dir: Seq<char>, file: Seq<char>, path: Seq<char>) -> bool {
    if dir.len() == 0 || dir.last() == '/' {
        path == dir + file
    } else {
        ||| (dir.last() == '\\' || dir.last() == ':') && path == dir + file
        ||| path == dir + seq!['/'] + file
        ||| path == dir + seq!['\\'] + file
    }
}

/// Whether a path is one that Windows rewrites when it is extended.
pub open spec fn is_verbatim(dir: Seq<char>) -> bool {
    &&& dir.len() >= 4
    &&& dir[0] == '\\' && dir[1] == '\\' && dir[2] == '?' && dir[3] == '\\'
}

/// Whether a path leads to a file by its name: the name stands at its end, and
/// a separator before it.
pub open spec fn ends_in(path: Seq<char>, file: Seq<char>) -> bool {
    let start = path.len() - file.len();
    &&& start > 0
    &&& path.skip(start) == file
    &&& path[start - 1] == '/' || path[start - 1] == '\\'
}

/// Whether a path is that of a file in a directory. What becomes of the directory
/// is left open where it has a verbatim prefix.
pub open spec fn is_path_in(dir: Seq<char>, file: Seq<char>, path: Seq<char>) -> bool {
    if is_verbatim(dir) {
        ends_in(path, file)
    } else {
        is_joined(dir, file, path)
    }
}

/// Whether a text is a plain file name: not empty, without a separator or a
/// drive, and not a dot or two, which stand for directories.
pub open spec fn is_plain_name(file: Seq<char>) -> bool {
    &&& file.len() > 0
    &&& file != seq!['.'] && file != seq!['.', '.']
    &&& forall|i: int|
        0 <= i < file.len() ==> (#[trigger] file[i]) != '/' && file[i] != '\\' && file[i] != ':'
}

/// `std::path::Path::join` on a directory and a plain file name. The path that
/// it gives is the directory and the file, with the separator of the platform
/// between them where the directory neither is empty nor ends in one. Which
/// separator that is depends on the platform, and so does whether a backslash at
/// the end of the directory is one, and whether a colon there ends a drive,
/// which takes none. A directory with a verbatim prefix is normalized on Windows:
/// what it becomes is not claimed, only that a separator and the file's name
/// stand at the end of the path.
#[verifier::external_body]
fn join_path(dir: &str, file: &str) -> (r: String)
    requires
        is_plain_name(file@),
    ensures
        is_path_in(dir@, file@, r@),
{
    std::path::Path::new(dir).join(file).display().to_string()
}

/// The path of the registry file.
pub fn registry_path(config_dir: &str) -> (r: String)
    ensures
        is_path_in(config_dir@, REGISTRY_FILE@, r@),
{
    proof {
        reveal_strlit("remotes.toml");
    }
    join_path(config_dir, REGISTRY_FILE)
}

/// The path of the file that is locked while the registry is rewritten.
pub fn registry_lock_path(config_dir: &str) -> (r: String)
    ensures
        is_path_in(config_dir@, REGISTRY_LOCK_FILE@, r@),
{
    proof {
        reveal_strlit(".remotes.lock");
    }
    join_path(config_dir, REGISTRY_LOCK_FILE)
}

/// Whether no two remotes have the same id, the same name, or the same target
/// and session.
pub open spec fn are_distinct(instances: Seq<RemoteInstanceView>) -> bool {
    forall|i: int, j: int|
        #![trigger instances[i], instances[j]]
        0 <= i < j < instances.len() ==> {
            &&& instances[i].id != instances[j].id
            &&& instances[i].name != instances[j].name
            &&& instances[i].target != instances[j].target || instances[i].session
                != instances[j].session
        }
}

/// An empty registry holds distinct remotes, and adding to a registry of
/// distinct remotes leaves it one.
pub proof fn law_add_keeps_remotes_distinct(
    registry: FleetRegistryView,
    target: Seq<char>,
    name: Option<Seq<char>>,
    session: Option<Seq<char>>,
    draw: IdDraw,
)
    requires
        are_distinct(registry.instances),
    ensures
        are_distinct(default_registry().instances),
        are_distinct(addition(registry, target, name, session, draw).1.instances),
{
}

/// Removing a remote from a registry of distinct remotes leaves it one, and
/// leaves no remote with that id.
pub proof fn law_remove_keeps_remotes_distinct(registry: FleetRegistryView, id: Seq<char>)
    requires
        are_distinct(registry.instances),
        has_id(registry.instances, id),
    ensures
        ({
            let left = without_remote(registry, place_of(registry.instances, id) as int);
            are_distinct(left.instances) && !has_id(left.instances, id)
        }),
{
    let place = place_of(registry.instances, id) as int;
    lemma_place(registry.instances, id);
    let left = registry.instances.remove(place);
    assert forall|i: int| 0 <= i < left.len() implies (#[trigger] left[i]).id != id by {
        let k = if i < place { i } else { i + 1 };
        assert(left[i] == registry.instances[k]);
        assert(registry.instances[place].id == id);
    }
    assert forall|i: int, j: int|
        #![trigger left[i], left[j]]
        0 <= i < j < left.len() implies {
        &&& left[i].id != left[j].id
        &&& left[i].name != left[j].name
        &&& left[i].target != left[j].target || left[i].session != left[j].session
    } by {
        let a = if i < place { i } else { i + 1 };
        let b = if j < place { j } else { j + 1 };
        assert(left[i] == registry.instances[a]);
        assert(left[j] == registry.instances[b]);
    }
}

/// The place of an id that a remote has is that of a remote with the id.
proof fn lemma_place(instances: Seq<RemoteInstanceView>, id: Seq<char>)
    requires
        has_id(instances, id),
    ensures
        place_of(instances, id) < instances.len(),
        instances[place_of(instances, id) as int].id == id,
{
    let ids = ids_of(instances);
    let i = choose|i: int| 0 <= i < instances.len() && (#[trigger] instances[i]).id == id;
    assert(ids[i] == id);
    assert(ids.contains(id));
    lemma_key_number_found(ids, id);
}

/// Switching a remote on or off leaves a registry of distinct remotes one, and
/// touches nothing but whether that remote is enabled.
pub proof fn law_set_enabled_touches_one_remote(
    registry: FleetRegistryView,
    id: Seq<char>,
    enabled: bool,
)
    requires
        has_id(registry.instances, id),
    ensures
        ({
            let place = place_of(registry.instances, id) as int;
            let after = with_enabled(registry, place, enabled);
            &&& are_distinct(registry.instances) ==> are_distinct(after.instances)
            &&& after.version == registry.version
            &&& after.presentation == registry.presentation
            &&& after.instances.len() == registry.instances.len()
            &&& place_of(after.instances, id) == place
            &&& forall|i: int|
                0 <= i < registry.instances.len() ==> #[trigger] after.instances[i] == if i == place {
                    RemoteInstanceView { enabled, ..registry.instances[i] }
                } else {
                    registry.instances[i]
                }
        }),
{
    lemma_place(registry.instances, id);
    let place = place_of(registry.instances, id) as int;
    let after = with_enabled(registry, place, enabled);
    assert(ids_of(after.instances) =~= ids_of(registry.instances));
}

/// Removing the remote that was just added gives back the registry as it was.
pub proof fn law_remove_undoes_add(
    registry: FleetRegistryView,
    target: Seq<char>,
    name: Option<Seq<char>>,
    session: Option<Seq<char>>,
    draw: IdDraw,
)
    requires
        addition(registry, target, name, session, draw).0 matches Ok(Some(_)),
    ensures
        ({
            let (outcome, grown) = addition(registry, target, name, session, draw);
            let remote = outcome->Ok_0->Some_0;
            &&& has_id(grown.instances, remote.id)
            &&& grown.instances[place_of(grown.instances, remote.id) as int] == remote
            &&& without_remote(grown, place_of(grown.instances, remote.id) as int) == registry
        }),
{
    let (outcome, grown) = addition(registry, target, name, session, draw);
    let remote = outcome->Ok_0->Some_0;
    let last = registry.instances.len() as int;
    assert(grown.instances[last] == remote);
    lemma_place(grown.instances, remote.id);
    let place = place_of(grown.instances, remote.id) as int;
    if place < last {
        assert(registry.instances[place].id == remote.id);
    }
    assert(grown.instances.remove(last) =~= registry.instances);
}

/// A remote that was added is enabled, and its name, target and session are
/// values the registry keeps.
pub proof fn law_added_remote_has_kept_values(
    registry: FleetRegistryView,
    target: Seq<char>,
    name: Option<Seq<char>>,
    session: Option<Seq<char>>,
    draw: IdDraw,
)
    requires
        addition(registry, target, name, session, draw).0 matches Ok(Some(_)),
    ensures
        ({
            let (outcome, grown) = addition(registry, target, name, session, draw);
            let remote = outcome->Ok_0->Some_0;
            &&& remote.enabled
            &&& is_kept_value(remote.name)
            &&& is_kept_value(remote.target) && remote.target[0] != '-'
            &&& remote.session is Some ==> is_kept_value(remote.session->Some_0)
            &&& enabled_of(grown.instances) == enabled_of(registry.instances).push(remote)
        }),
{
    let (outcome, grown) = addition(registry, target, name, session, draw);
    let remote = outcome->Ok_0->Some_0;
    law_taken_target_is_a_destination(target);
    match session {
        Some(s) => law_taken_values_are_kept_values(seq![], Some(s), "session"@),
        None => {},
    }
    match name {
        Some(n) => law_taken_values_are_kept_values(n, None, "session"@),
        None => law_default_name_is_a_kept_value(remote.target),
    }
    assert(grown.instances.drop_last() =~= registry.instances);
}

/// A layout compares equal to itself, and to no other in one direction only,
/// unless its split is no number.
pub proof fn law_layouts_compare_as_values(a: FleetPresentationView, b: FleetPresentationView)
    requires
        a.sidebar_section_split matches Some(split) ==> !is_nan_bits(split),
    ensures
        equal_presentations(a, a),
        equal_presentations(a, b) == equal_presentations(b, a),
{
}

/// A request to add a remote that adds none leaves the registry as it was.
pub proof fn law_refused_add_changes_nothing(
    registry: FleetRegistryView,
    target: Seq<char>,
    name: Option<Seq<char>>,
    session: Option<Seq<char>>,
    draw: IdDraw,
)
    requires
        !(addition(registry, target, name, session, draw).0 matches Ok(Some(_))),
    ensures
        addition(registry, target, name, session, draw).1 == registry,
{
}

/// The enabled remotes are those of the registry that are enabled, and no
/// others.
pub proof fn law_enabled_remotes(instances: Seq<RemoteInstanceView>, remote: RemoteInstanceView)
    ensures
        enabled_of(instances).contains(remote) <==> instances.contains(remote) && remote.enabled,
    decreases instances.len(),
{
    if instances.len() > 0 {
        let front = instances.drop_last();
        law_enabled_remotes(front, remote);
        let rest = enabled_of(front);
        let last = instances.last();
        assert(instances =~= front.push(last));
        if rest.contains(remote) {
            let i = choose|i: int| 0 <= i < rest.len() && rest[i] == remote;
            assert(rest.push(last)[i] == remote);
        }
        assert(rest.push(last)[rest.len() as int] == last);
        if front.contains(remote) {
            let i = choose|i: int| 0 <= i < front.len() && front[i] == remote;
            assert(instances[i] == remote);
        }
        if instances.contains(remote) {
            let i = choose|i: int| 0 <= i < instances.len() && instances[i] == remote;
            if i < front.len() {
                assert(front[i] == remote);
            }
        }
        assert(instances[instances.len() - 1] == last);
    }
}

} // verus!
