//! The text values of a remote: its target, name and session, as the user
//! gives them and as the registry keeps them, and the errors for those it does
//! not take.

use vstd::prelude::*;
use vstd::string::*;

use crate::compare::opt_text;
use crate::text::{
    debug_quoted, debug_text, decimal_string, decimal_text, is_blank, law_trimmed_twice,
    law_white_space_around_is_trimmed, text_chars, trimmed,
};

verus! {

/// The version of the registry format.
pub const REGISTRY_VERSION: u32 = 1;

/// The kind of an error, as programs tell errors apart.
#[derive(Debug, Clone, Copy, PartialEq, Eq, Structural)]
pub enum RegistryErrorKind {
    InvalidInput,
    AlreadyExists,
    NotFound,
    InvalidData,
}

/// Why the registry refuses a request.
#[derive(Debug)]
pub enum RegistryError {
    EmptyTarget,
    InvalidTarget,
    InvalidName,
    InvalidValue { field: String },
    DuplicateTarget,
    DuplicateName { name: String },
    NotFound { id: String },
    UnsupportedVersion { version: u32 },
}

/// The mathematical model of an error.
pub enum RegistryErrorView {
    EmptyTarget,
    InvalidTarget,
    InvalidName,
    InvalidValue { field: Seq<char> },
    DuplicateTarget,
    DuplicateName { name: Seq<char> },
    NotFound { id: Seq<char> },
    UnsupportedVersion { version: u32 },
}

impl View for RegistryError {
    type V = RegistryErrorView;

    open spec fn view(&self) -> RegistryErrorView {
        match self {
            RegistryError::EmptyTarget => RegistryErrorView::EmptyTarget,
            RegistryError::InvalidTarget => RegistryErrorView::InvalidTarget,
            RegistryError::InvalidName => RegistryErrorView::InvalidName,
            RegistryError::InvalidValue { field } => RegistryErrorView::InvalidValue {
                field: field@,
            },
            RegistryError::DuplicateTarget => RegistryErrorView::DuplicateTarget,
            RegistryError::DuplicateName { name } => RegistryErrorView::DuplicateName {
                name: name@,
            },
            RegistryError::NotFound { id } => RegistryErrorView::NotFound { id: id@ },
            RegistryError::UnsupportedVersion { version } => RegistryErrorView::UnsupportedVersion {
                version: *version,
            },
        }
    }
}

/// The kind of an error.
pub open spec fn error_kind(error: RegistryErrorView) -> RegistryErrorKind {
    match error {
        RegistryErrorView::EmptyTarget => RegistryErrorKind::InvalidInput,
        RegistryErrorView::InvalidTarget => RegistryErrorKind::InvalidInput,
        RegistryErrorView::InvalidName => RegistryErrorKind::InvalidInput,
        RegistryErrorView::InvalidValue { .. } => RegistryErrorKind::InvalidInput,
        RegistryErrorView::DuplicateTarget => RegistryErrorKind::AlreadyExists,
        RegistryErrorView::DuplicateName { .. } => RegistryErrorKind::AlreadyExists,
        RegistryErrorView::NotFound { .. } => RegistryErrorKind::NotFound,
        RegistryErrorView::UnsupportedVersion { .. } => RegistryErrorKind::InvalidData,
    }
}

/// What the user is told of an error.
pub open spec fn error_message(error: RegistryErrorView) -> Seq<char> {
    match error {
        RegistryErrorView::EmptyTarget => "remote target must not be empty"@,
        RegistryErrorView::InvalidTarget =>
            "remote target must be a single SSH destination and must not start with '-'"@,
        RegistryErrorView::InvalidName =>
            "remote name must not be empty or contain control characters"@,
        RegistryErrorView::InvalidValue { field } => field
            + " must not be empty or contain control characters"@,
        RegistryErrorView::DuplicateTarget =>
            "that remote target and session are already configured"@,
        RegistryErrorView::DuplicateName { name } => "a remote named "@ + debug_text(name)
            + " already exists"@,
        RegistryErrorView::NotFound { id } => "remote instance "@ + debug_text(id)
            + " was not found"@,
        RegistryErrorView::UnsupportedVersion { version } => "unsupported remote registry version "@
            + decimal_text(version as nat) + "; expected "@ + decimal_text(REGISTRY_VERSION as nat),
    }
}

impl RegistryError {
    /// The kind of the error.
    pub fn kind(&self) -> (r: RegistryErrorKind)
        ensures
            r == error_kind(self@),
    {
        match self {
            RegistryError::EmptyTarget => RegistryErrorKind::InvalidInput,
            RegistryError::InvalidTarget => RegistryErrorKind::InvalidInput,
            RegistryError::InvalidName => RegistryErrorKind::InvalidInput,
            RegistryError::InvalidValue { .. } => RegistryErrorKind::InvalidInput,
            RegistryError::DuplicateTarget => RegistryErrorKind::AlreadyExists,
            RegistryError::DuplicateName { .. } => RegistryErrorKind::AlreadyExists,
            RegistryError::NotFound { .. } => RegistryErrorKind::NotFound,
            RegistryError::UnsupportedVersion { .. } => RegistryErrorKind::InvalidData,
        }
    }

    /// What the user is told of the error.
    pub fn message(&self) -> (r: String)
        ensures
            r@ == error_message(self@),
    {
        match self {
            RegistryError::EmptyTarget => "remote target must not be empty".to_string(),
            RegistryError::InvalidTarget => {
                "remote target must be a single SSH destination and must not start with '-'"
                    .to_string()
            },
            RegistryError::InvalidName =>
                "remote name must not be empty or contain control characters".to_string(),
            RegistryError::InvalidValue { field } => field.clone().concat(
                " must not be empty or contain control characters",
            ),
            RegistryError::DuplicateTarget =>
                "that remote target and session are already configured".to_string(),
            RegistryError::DuplicateName { name } => "a remote named ".to_string().concat(
                debug_quoted(name.as_str()).as_str(),
            ).concat(" already exists"),
            RegistryError::NotFound { id } => "remote instance ".to_string().concat(
                debug_quoted(id.as_str()).as_str(),
            ).concat(" was not found"),
            RegistryError::UnsupportedVersion { version } =>
                "unsupported remote registry version ".to_string().concat(
                decimal_string(*version as u64).as_str(),
            ).concat("; expected ").concat(decimal_string(REGISTRY_VERSION as u64).as_str()),
        }
    }
}

/// The error for an id that no remote has.
pub fn remote_not_found(id: &str) -> (r: RegistryError)
    ensures
        r@ == (RegistryErrorView::NotFound { id: id@ }),
{
    RegistryError::NotFound { id: id.to_string() }
}

/// A line break or a NUL, which no value of a remote may hold.
pub open spec fn is_breaking(c: char) -> bool {
    c == '\n' || c == '\r' || c == '\0'
}

/// Whether a text holds a line break or a NUL.
pub open spec fn has_breaking(s: Seq<char>) -> bool {
    exists|i: int| 0 <= i < s.len() && is_breaking(#[trigger] s[i])
}

fn contains_breaking(s: &str) -> (r: bool)
    ensures
        r == has_breaking(s@),
{
    let chars = text_chars(s);
    let mut i: usize = 0;
    while i < chars.len()
        invariant
            chars@ == s@,
            i <= chars@.len(),
            forall|j: int| 0 <= j < i ==> !is_breaking(#[trigger] chars@[j]),
        decreases chars@.len() - i,
    {
        let c = chars[i];
        if c == '\n' || c == '\r' || c == '\0' {
            assert(is_breaking(s@[i as int]));
            return true;
        }
        i += 1;
    }
    false
}

/// The outcome of taking a text value.
pub open spec fn taken(r: Result<String, RegistryError>) -> Result<Seq<char>, RegistryErrorView> {
    match r {
        Ok(s) => Ok(s@),
        Err(e) => Err(e@),
    }
}

/// The outcome of taking an optional text value.
pub open spec fn taken_option(r: Result<Option<String>, RegistryError>) -> Result<
    Option<Seq<char>>,
    RegistryErrorView,
> {
    match r {
        Ok(s) => Ok(opt_text(s)),
        Err(e) => Err(e@),
    }
}

/// A target as the registry keeps it: trimmed, and refused where it is empty,
/// starts with a dash or holds a line break or a NUL.
pub open spec fn normalized_target(value: Seq<char>) -> Result<Seq<char>, RegistryErrorView> {
    let target = trimmed(value);
    if target.len() == 0 {
        Err(RegistryErrorView::EmptyTarget)
    } else if target[0] == '-' || has_breaking(target) {
        Err(RegistryErrorView::InvalidTarget)
    } else {
        Ok(target)
    }
}

/// A name as the registry keeps it: trimmed, and refused where it is empty or
/// holds a line break or a NUL.
pub open spec fn normalized_name(value: Seq<char>) -> Result<Seq<char>, RegistryErrorView> {
    let name = trimmed(value);
    if name.len() == 0 || has_breaking(name) {
        Err(RegistryErrorView::InvalidName)
    } else {
        Ok(name)
    }
}

/// An optional value as the registry keeps it: trimmed, and refused where it
/// is given but empty, or holds a line break or a NUL.
pub open spec fn normalized_optional(value: Option<Seq<char>>, field: Seq<char>) -> Result<
    Option<Seq<char>>,
    RegistryErrorView,
> {
    match value {
        None => Ok(None),
        Some(v) => if trimmed(v).len() == 0 || has_breaking(trimmed(v)) {
            Err(RegistryErrorView::InvalidValue { field })
        } else {
            Ok(Some(trimmed(v)))
        },
    }
}

/// Takes a target.
pub fn normalize_target(value: &str) -> (r: Result<String, RegistryError>)
    ensures
        taken(r) == normalized_target(value@),
{
    let target = value.trim();
    if target.is_empty() {
        return Err(RegistryError::EmptyTarget);
    }
    if target.get_char(0) == '-' || contains_breaking(target) {
        return Err(RegistryError::InvalidTarget);
    }
    Ok(target.to_string())
}

/// Takes a name.
pub fn normalize_name(value: &str) -> (r: Result<String, RegistryError>)
    ensures
        taken(r) == normalized_name(value@),
{
    let name = value.trim();
    if name.is_empty() || contains_breaking(name) {
        return Err(RegistryError::InvalidName);
    }
    Ok(name.to_string())
}

/// Takes an optional value; `field` names it in the error.
pub fn normalize_optional_value(value: Option<String>, field: &str) -> (r: Result<
    Option<String>,
    RegistryError,
>)
    ensures
        taken_option(r) == normalized_optional(opt_text(value), field@),
{
    match value {
        None => Ok(None),
        Some(value) => {
            let value = value.as_str().trim();
            if value.is_empty() || contains_breaking(value) {
                Err(RegistryError::InvalidValue { field: field.to_string() })
            } else {
                Ok(Some(value.to_string()))
            }
        },
    }
}

/// The place of the last `c` in a text; -1 where there is none.
pub open spec fn last_place(s: Seq<char>, c: char) -> int
    decreases s.len(),
{
    if s.len() == 0 {
        -1
    } else if s.last() == c {
        s.len() - 1
    } else {
        last_place(s.drop_last(), c)
    }
}

/// How many characters of a text stand before its first colon or slash.
pub open spec fn host_len(s: Seq<char>) -> nat
    decreases s.len(),
{
    if s.len() == 0 || s[0] == ':' || s[0] == '/' {
        0
    } else {
        1 + host_len(s.skip(1))
    }
}

/// The host part of a target: what follows its last `@`, up to a colon or a
/// slash.
pub open spec fn target_host(target: Seq<char>) -> Seq<char> {
    let rest = target.skip(last_place(target, '@') + 1);
    rest.take(host_len(rest) as int)
}

/// The name of a remote that is given none: the host part of its target, or the
/// whole target where that is empty.
pub open spec fn default_name_of(target: Seq<char>) -> Seq<char> {
    if target_host(target).len() == 0 {
        target
    } else {
        target_host(target)
    }
}

proof fn lemma_last_place(s: Seq<char>, c: char, i: int)
    requires
        -1 <= i < s.len(),
        i >= 0 ==> s[i] == c,
        forall|j: int| i < j < s.len() ==> s[j] != c,
    ensures
        last_place(s, c) == i,
    decreases s.len(),
{
    if s.len() > 0 && i < s.len() - 1 {
        assert(s[s.len() - 1] != c);
        lemma_last_place(s.drop_last(), c, i);
    }
}

proof fn lemma_host_len(s: Seq<char>)
    ensures
        host_len(s) <= s.len(),
        forall|j: int| 0 <= j < host_len(s) ==> s[j] != ':' && s[j] != '/',
        host_len(s) < s.len() ==> s[host_len(s) as int] == ':' || s[host_len(s) as int] == '/',
    decreases s.len(),
{
    if s.len() > 0 && s[0] != ':' && s[0] != '/' {
        lemma_host_len(s.skip(1));
        assert forall|j: int| 0 <= j < host_len(s) implies s[j] != ':' && s[j] != '/' by {
            if j > 0 {
                assert(s.skip(1)[j - 1] == s[j]);
            }
        }
    }
}

proof fn lemma_last_place_bound(s: Seq<char>, c: char)
    ensures
        -1 <= last_place(s, c) < s.len(),
    decreases s.len(),
{
    if s.len() > 0 {
        lemma_last_place_bound(s.drop_last(), c);
    }
}

/// The name of a remote that is given none.
pub fn default_name(target: &str) -> (r: String)
    ensures
        r@ == default_name_of(target@),
{
    let chars = text_chars(target);
    let mut start: usize = chars.len();
    while start > 0 && chars[start - 1] != '@'
        invariant
            chars@ == target@,
            start <= chars@.len(),
            forall|j: int| start <= j < chars@.len() ==> chars@[j] != '@',
        decreases start,
    {
        start -= 1;
    }
    proof {
        lemma_last_place(target@, '@', start - 1);
    }
    let ghost rest = target@.skip(start as int);
    let mut end: usize = start;
    assert(rest.skip(0) =~= rest);
    while end < chars.len() && chars[end] != ':' && chars[end] != '/'
        invariant
            chars@ == target@,
            start <= end <= chars@.len(),
            rest == target@.skip(start as int),
            host_len(rest) == (end - start) + host_len(rest.skip(end - start)),
        decreases chars@.len() - end,
    {
        assert(rest.skip(end - start)[0] == chars@[end as int]);
        assert(rest.skip(end - start).skip(1) =~= rest.skip(end - start + 1));
        end += 1;
    }
    proof {
        if end < chars@.len() {
            assert(rest.skip(end - start)[0] == chars@[end as int]);
        }
        assert(host_len(rest) == end - start);
        assert(target_host(target@) =~= target@.subrange(start as int, end as int));
    }
    if end == start {
        return target.to_string();
    }
    target.substring_char(start, end).to_string()
}

/// A value that the registry keeps: not empty, and without line breaks and NUL.
pub open spec fn is_kept_value(s: Seq<char>) -> bool {
    s.len() > 0 && !has_breaking(s)
}

/// A target that is taken is one that `ssh` sees as a destination: not empty,
/// without line breaks and NUL, and not an option.
pub proof fn law_taken_target_is_a_destination(value: Seq<char>)
    requires
        normalized_target(value) is Ok,
    ensures
        is_kept_value(normalized_target(value)->Ok_0),
        normalized_target(value)->Ok_0[0] != '-',
{
}

/// A name, and any other value, that is taken is not empty and has no line
/// breaks or NUL.
pub proof fn law_taken_values_are_kept_values(
    name: Seq<char>,
    value: Option<Seq<char>>,
    field: Seq<char>,
)
    ensures
        normalized_name(name) is Ok ==> is_kept_value(normalized_name(name)->Ok_0),
        normalized_optional(value, field) is Ok && value is Some ==> normalized_optional(
            value,
            field,
        )->Ok_0 is Some && is_kept_value(normalized_optional(value, field)->Ok_0->0),
{
}

/// A value that was taken is taken again as it is.
pub proof fn law_taken_values_stay(
    target: Seq<char>,
    name: Seq<char>,
    value: Option<Seq<char>>,
    field: Seq<char>,
)
    ensures
        normalized_target(target) is Ok ==> normalized_target(normalized_target(target)->Ok_0)
            == normalized_target(target),
        normalized_name(name) is Ok ==> normalized_name(normalized_name(name)->Ok_0)
            == normalized_name(name),
        normalized_optional(value, field) is Ok ==> normalized_optional(
            normalized_optional(value, field)->Ok_0,
            field,
        ) == normalized_optional(value, field),
{
    law_trimmed_twice(target);
    law_trimmed_twice(name);
    if value is Some {
        law_trimmed_twice(value->0);
    }
}

/// White space around a value never changes whether it is taken, as what, or
/// why not.
pub proof fn law_white_space_around_values_is_ignored(
    front: Seq<char>,
    value: Seq<char>,
    back: Seq<char>,
    field: Seq<char>,
)
    requires
        is_blank(front),
        is_blank(back),
    ensures
        normalized_target(front + value + back) == normalized_target(value),
        normalized_name(front + value + back) == normalized_name(value),
        normalized_optional(Some(front + value + back), field) == normalized_optional(
            Some(value),
            field,
        ),
{
    law_white_space_around_is_trimmed(front, value, back);
}

/// The name that a remote gets by default is one that the registry keeps.
pub proof fn law_default_name_is_a_kept_value(target: Seq<char>)
    requires
        is_kept_value(target),
    ensures
        is_kept_value(default_name_of(target)),
{
    lemma_last_place_bound(target, '@');
    let start = last_place(target, '@') + 1;
    let rest = target.skip(start);
    lemma_host_len(rest);
    let name = default_name_of(target);
    assert forall|i: int| 0 <= i < name.len() implies !is_breaking(#[trigger] name[i]) by {
        if target_host(target).len() > 0 {
            assert(name[i] == target[start + i]);
        }
    }
}

proof fn lemma_nothing_after_last_place(s: Seq<char>, c: char)
    ensures
        forall|j: int| last_place(s, c) < j < s.len() ==> s[j] != c,
    decreases s.len(),
{
    if s.len() > 0 && s.last() != c {
        lemma_last_place_bound(s.drop_last(), c);
        lemma_nothing_after_last_place(s.drop_last(), c);
        assert forall|j: int| last_place(s, c) < j < s.len() implies s[j] != c by {
            if j < s.len() - 1 {
                assert(s.drop_last()[j] == s[j]);
            }
        }
    }
}

/// A default name is its own default name.
pub proof fn law_default_name_stays(target: Seq<char>)
    ensures
        default_name_of(default_name_of(target)) == default_name_of(target),
{
    let host = target_host(target);
    if host.len() > 0 {
        lemma_last_place_bound(target, '@');
        lemma_nothing_after_last_place(target, '@');
        let start = last_place(target, '@') + 1;
        let rest = target.skip(start);
        lemma_host_len(rest);
        assert forall|j: int| 0 <= j < host.len() implies #[trigger] host[j] != '@' && host[j]
            != ':' && host[j] != '/' by {
            assert(host[j] == rest[j]);
            assert(rest[j] == target[start + j]);
        }
        lemma_last_place(host, '@', -1);
        assert(host.skip(0) =~= host);
        lemma_host_len(host);
        assert(host_len(host) == host.len());
        assert(host.take(host.len() as int) =~= host);
    }
}

/// Whether a text holds no line break and no NUL.
pub open spec fn is_unbroken(s: Seq<char>) -> bool {
    forall|i: int| 0 <= i < s.len() ==> s[i] != '\n' && s[i] != '\r' && s[i] != '\0'
}

/// A value that is not empty and holds no line break or NUL is taken, without the
/// white space around it; a target must not start with a dash, either. Any other
/// is refused, with what is wrong with it.
pub proof fn law_good_values_are_taken(value: Seq<char>, field: Seq<char>)
    ensures
        ({
            let kept = trimmed(value);
            let good = kept.len() > 0 && is_unbroken(kept);
            &&& good && kept[0] != '-' ==> normalized_target(value) == Ok::<
                Seq<char>,
                RegistryErrorView,
            >(kept)
            &&& kept.len() == 0 ==> normalized_target(value) == Err::<
                Seq<char>,
                RegistryErrorView,
            >(RegistryErrorView::EmptyTarget)
            &&& kept.len() > 0 && !(good && kept[0] != '-') ==> normalized_target(value) == Err::<
                Seq<char>,
                RegistryErrorView,
            >(RegistryErrorView::InvalidTarget)
            &&& good ==> normalized_name(value) == Ok::<Seq<char>, RegistryErrorView>(kept)
            &&& !good ==> normalized_name(value) == Err::<Seq<char>, RegistryErrorView>(
                RegistryErrorView::InvalidName,
            )
            &&& good ==> normalized_optional(Some(value), field) == Ok::<
                Option<Seq<char>>,
                RegistryErrorView,
            >(Some(kept))
            &&& !good ==> normalized_optional(Some(value), field) == Err::<
                Option<Seq<char>>,
                RegistryErrorView,
            >(RegistryErrorView::InvalidValue { field })
            &&& normalized_optional(None, field) == Ok::<Option<Seq<char>>, RegistryErrorView>(
                None,
            )
        }),
{
    let kept = trimmed(value);
    if has_breaking(kept) {
        let i = choose|i: int| 0 <= i < kept.len() && is_breaking(#[trigger] kept[i]);
        assert(kept[i] == '\n' || kept[i] == '\r' || kept[i] == '\0');
        assert(!is_unbroken(kept));
    } else {
        assert forall|i: int| 0 <= i < kept.len() implies kept[i] != '\n' && kept[i] != '\r'
            && kept[i] != '\0' by {
            assert(!is_breaking(kept[i]));
        }
    }
}

/// What is wrong with a request is told by the kind of the error: bad values are
/// invalid input, what is configured already exists, an unknown id is not found,
/// and a registry of another version is invalid data.
pub proof fn law_errors_have_their_kinds(error: RegistryErrorView)
    ensures
        error_kind(error) is AlreadyExists <==> error is DuplicateTarget
            || error is DuplicateName,
        error_kind(error) is NotFound <==> error is NotFound,
        error_kind(error) is InvalidData <==> error is UnsupportedVersion,
        error_kind(error) is InvalidInput <==> error is EmptyTarget || error is InvalidTarget
            || error is InvalidName || error is InvalidValue,
{
}

/// An error says what it is about: the field, the name, the id, or the version that
/// was found and the one that is expected.
pub proof fn law_errors_are_told(text: Seq<char>, version: u32)
    ensures
        error_message(RegistryErrorView::EmptyTarget) == "remote target must not be empty"@,
        error_message(RegistryErrorView::InvalidTarget)
            == "remote target must be a single SSH destination and must not start with '-'"@,
        error_message(RegistryErrorView::InvalidName)
            == "remote name must not be empty or contain control characters"@,
        error_message(RegistryErrorView::InvalidValue { field: text }) == text
            + " must not be empty or contain control characters"@,
        error_message(RegistryErrorView::DuplicateTarget)
            == "that remote target and session are already configured"@,
        error_message(RegistryErrorView::DuplicateName { name: text }) == "a remote named "@
            + debug_text(text) + " already exists"@,
        error_message(RegistryErrorView::NotFound { id: text }) == "remote instance "@
            + debug_text(text) + " was not found"@,
        error_message(RegistryErrorView::UnsupportedVersion { version })
            == "unsupported remote registry version "@ + decimal_text(version as nat)
            + "; expected "@ + decimal_text(1),
{
}

/// Whether a text is the name of a host: not empty, and without what sets hosts
/// apart in a target.
pub open spec fn is_host(s: Seq<char>) -> bool {
    s.len() > 0 && forall|i: int| 0 <= i < s.len() ==> s[i] != '@' && s[i] != ':' && s[i] != '/'
}

/// A remote is named by default after the host of its target, with or without a
/// user before it, and a port or a path behind it.
pub proof fn law_remotes_are_named_after_their_host(
    user: Seq<char>,
    host: Seq<char>,
    tail: Seq<char>,
)
    requires
        is_host(host),
        tail.len() > 0 ==> tail[0] == ':' || tail[0] == '/',
        forall|i: int| 0 <= i < tail.len() ==> tail[i] != '@',
    ensures
        default_name_of(host + tail) == host,
        default_name_of(user + seq!['@'] + host + tail) == host,
{
    let short = host + tail;
    let long = user + seq!['@'] + host + tail;
    let place = user.len() as int;
    lemma_last_place(short, '@', -1);
    assert(long[place] == '@');
    assert forall|j: int| place < j < long.len() implies long[j] != '@' by {
        assert(long[j] == short[j - place - 1]);
    }
    lemma_last_place(long, '@', place);
    assert(short.skip(0) =~= short);
    assert(long.skip(place + 1) =~= short);
    lemma_host_len(short);
    let len = host_len(short) as int;
    if len < host.len() {
        assert(short[len] == host[len]);
    }
    if len > host.len() {
        assert(short[host.len() as int] == tail[0]);
    }
    assert(short.take(len) =~= host);
}

/// A target without a host in it is its own default name.
pub proof fn law_targets_without_host_are_named_whole(user: Seq<char>, tail: Seq<char>)
    requires
        tail.len() > 0 ==> tail[0] == ':' || tail[0] == '/',
        forall|i: int| 0 <= i < tail.len() ==> tail[i] != '@',
    ensures
        default_name_of(user + seq!['@'] + tail) == user + seq!['@'] + tail,
{
    let long = user + seq!['@'] + tail;
    let place = user.len() as int;
    assert(long[place] == '@');
    assert forall|j: int| place < j < long.len() implies long[j] != '@' by {
        assert(long[j] == tail[j - place - 1]);
    }
    lemma_last_place(long, '@', place);
    assert(long.skip(place + 1) =~= tail);
}

} // verus!
