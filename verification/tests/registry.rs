use herdr_fleet::ids::{draw_id, id_from_digest, IdDraw};
use herdr_fleet::names::{
    default_name, normalize_name, normalize_optional_value, normalize_target, remote_not_found,
    RegistryError, RegistryErrorKind,
};
use herdr_fleet::registry::{
    enabled_by_default, is_enabled, load_from_source, load_or_default, registry_lock_path,
    registry_path, AddOutcome, FleetPresentation, FleetRegistry, RegistrySource, RemoteInstance,
};

fn draw(nonce: u64) -> IdDraw {
    IdDraw { process: 7, nanos: 9, nonce }
}

fn add(registry: &mut FleetRegistry, target: &str, nonce: u64) -> RemoteInstance {
    match registry.add(target.to_string(), None, None, draw(nonce)) {
        Ok(AddOutcome::Added(remote)) => remote,
        other => panic!("expected a remote, got {other:?}"),
    }
}

fn refusal(
    registry: &mut FleetRegistry,
    target: &str,
    name: Option<&str>,
    session: Option<&str>,
) -> RegistryError {
    match registry.add(
        target.to_string(),
        name.map(|name| name.to_string()),
        session.map(|session| session.to_string()),
        draw(99),
    ) {
        Err(error) => error,
        other => panic!("expected a refusal, got {other:?}"),
    }
}

#[test]
fn targets_are_trimmed_and_checked() {
    assert_eq!(normalize_target("  alice@box \n").unwrap(), "alice@box");
    assert_eq!(normalize_target("\u{3000}box\u{a0}").unwrap(), "box");
    let empty = normalize_target(" \t ").unwrap_err();
    assert!(matches!(empty, RegistryError::EmptyTarget));
    assert_eq!(empty.kind(), RegistryErrorKind::InvalidInput);
    assert_eq!(empty.message(), "remote target must not be empty");
    for bad in ["-oProxy", "a\nb", "a\rb", "a\0b"] {
        let error = normalize_target(bad).unwrap_err();
        assert!(matches!(error, RegistryError::InvalidTarget));
        assert_eq!(
            error.message(),
            "remote target must be a single SSH destination and must not start with '-'"
        );
    }
}

#[test]
fn names_and_values_are_trimmed_and_checked() {
    assert_eq!(normalize_name(" box ").unwrap(), "box");
    let error = normalize_name("  ").unwrap_err();
    assert_eq!(
        error.message(),
        "remote name must not be empty or contain control characters"
    );
    assert_eq!(normalize_optional_value(None, "session").unwrap(), None);
    assert_eq!(
        normalize_optional_value(Some(" main ".to_string()), "session").unwrap(),
        Some("main".to_string())
    );
    let error = normalize_optional_value(Some("a\0b".to_string()), "session").unwrap_err();
    assert_eq!(error.kind(), RegistryErrorKind::InvalidInput);
    assert_eq!(error.message(), "session must not be empty or contain control characters");
}

#[test]
fn values_that_were_taken_are_taken_again() {
    let once = normalize_target("\t box ").unwrap();
    assert_eq!(normalize_target(&once).unwrap(), once);
}

#[test]
fn default_names_are_hosts() {
    assert_eq!(default_name("alice@box.example:22"), "box.example");
    assert_eq!(default_name("box/path"), "box");
    assert_eq!(default_name("a@b@host"), "host");
    assert_eq!(default_name("box"), "box");
    assert_eq!(default_name("alice@"), "alice@");
    assert_eq!(default_name(":22"), ":22");
    assert_eq!(default_name(&default_name("alice@box.example:22")), "box.example");
    assert_eq!(default_name(&default_name("alice@")), "alice@");
}

#[test]
fn ids_are_digests_of_what_was_drawn() {
    assert_eq!(draw_id("alice@box", None, draw(1)).as_str(), "remote-fdf51964d4ddff6d");
    assert_eq!(
        draw_id("alice@box", Some("work"), draw(1)).as_str(),
        "remote-6ca64ae24cadd76b"
    );
    assert_eq!(draw_id("alice@box", None, draw(2)).as_str(), "remote-4a6453df31b47494");
    assert_eq!(
        id_from_digest(&[0, 1, 0x2f, 0xff, 16, 160, 9, 10, 77]).as_str(),
        "remote-00012fff10a0090a"
    );
}

#[test]
fn adding_gives_a_remote_with_defaults() {
    let mut registry = FleetRegistry::default();
    let remote = add(&mut registry, " alice@box:22 ", 1);
    assert_eq!(remote.target, "alice@box:22");
    assert_eq!(remote.name, "box");
    assert_eq!(remote.session, None);
    assert!(remote.enabled);
    assert!(enabled_by_default());
    assert_eq!(registry.instances.len(), 1);
    assert_eq!(registry.instances[0].id, remote.id);
}

#[test]
fn adding_refuses_doubles() {
    let mut registry = FleetRegistry::default();
    add(&mut registry, "alice@box", 1);
    let error = refusal(&mut registry, "alice@box", Some("other"), None);
    assert!(matches!(error, RegistryError::DuplicateTarget));
    assert_eq!(error.kind(), RegistryErrorKind::AlreadyExists);
    assert_eq!(error.message(), "that remote target and session are already configured");
    let error = refusal(&mut registry, "bob@box", None, None);
    assert_eq!(error.kind(), RegistryErrorKind::AlreadyExists);
    assert_eq!(error.message(), "a remote named \"box\" already exists");
    let error = refusal(&mut registry, "bob@else", Some("a\tb\""), Some("\n"));
    assert_eq!(error.message(), "session must not be empty or contain control characters");
    assert_eq!(registry.instances.len(), 1);
}

#[test]
fn quoted_names_are_escaped() {
    let mut registry = FleetRegistry::default();
    registry
        .add("box".to_string(), Some("a\tb\"".to_string()), None, draw(1))
        .unwrap();
    let error = refusal(&mut registry, "else", Some("a\tb\""), None);
    assert_eq!(error.message(), "a remote named \"a\\tb\\\"\" already exists");
}

#[test]
fn one_target_may_have_several_sessions() {
    let mut registry = FleetRegistry::default();
    add(&mut registry, "alice@box", 1);
    let second = registry.add(
        "alice@box".to_string(),
        Some("box two".to_string()),
        Some("two".to_string()),
        draw(2),
    );
    assert!(matches!(second, Ok(AddOutcome::Added(_))));
    assert_eq!(registry.instances.len(), 2);
}

#[test]
fn an_id_that_is_taken_changes_nothing() {
    let mut registry = FleetRegistry::default();
    let first = add(&mut registry, "alice@box", 1);
    registry.instances[0].target = "moved".to_string();
    registry.instances[0].name = "moved".to_string();
    let again = registry.add("alice@box".to_string(), None, None, draw(1));
    assert!(matches!(again, Ok(AddOutcome::IdTaken)));
    assert_eq!(registry.instances.len(), 1);
    assert_eq!(registry.instances[0].id, first.id);
    assert!(registry.next_id("alice@box", None, draw(1)).is_none());
    assert!(registry.next_id("alice@box", None, draw(2)).is_some());
}

#[test]
fn removing_undoes_adding() {
    let mut registry = FleetRegistry::default();
    add(&mut registry, "one", 1);
    let added = add(&mut registry, "two", 2);
    let removed = registry.remove(added.id.as_str()).unwrap();
    assert_eq!(removed.id, added.id);
    assert_eq!(registry.instances.len(), 1);
    assert_eq!(registry.instances[0].name, "one");
    let error = registry.remove("nobody").unwrap_err();
    assert_eq!(error.kind(), RegistryErrorKind::NotFound);
    assert_eq!(error.message(), "remote instance \"nobody\" was not found");
    assert_eq!(remote_not_found("x").message(), "remote instance \"x\" was not found");
}

#[test]
fn switching_touches_one_remote() {
    let mut registry = FleetRegistry::default();
    let one = add(&mut registry, "one", 1);
    add(&mut registry, "two", 2);
    assert!(is_enabled(&registry));
    let switched = registry.set_enabled(one.id.as_str(), false).unwrap();
    assert!(!switched.enabled);
    let enabled: Vec<&str> = registry
        .enabled_instances()
        .iter()
        .map(|remote| remote.name.as_str())
        .collect();
    assert_eq!(enabled, vec!["two"]);
    assert!(registry.set_enabled("nobody", true).is_err());
    let two = registry.instances[1].id.clone();
    registry.set_enabled(two.as_str(), false).unwrap();
    assert!(!is_enabled(&registry));
}

#[test]
fn layouts_compare_as_numbers_and_sets() {
    let mut a = FleetPresentation::unset();
    assert!(a.is_default());
    a.sidebar_section_split = Some(0.0f32.to_bits());
    let mut b = FleetPresentation::unset();
    b.sidebar_section_split = Some((-0.0f32).to_bits());
    assert!(a.equals(&b));
    a.sidebar_section_split = Some(f32::NAN.to_bits());
    assert!(!a.equals(&a));
    assert!(!a.is_default());
    a.sidebar_section_split = None;
    b.sidebar_section_split = None;
    a.collapsed_space_keys = vec!["x".to_string(), "y".to_string(), "x".to_string()];
    b.collapsed_space_keys = vec!["y".to_string(), "x".to_string()];
    assert!(a.equals(&b));
    b.collapsed_space_keys.push("z".to_string());
    assert!(!a.equals(&b));
    b.sidebar_width = Some(20);
    assert!(!b.is_default());
    let mut registry = FleetRegistry::default();
    registry.set_presentation(b);
    assert_eq!(registry.presentation().sidebar_width, Some(20));
}

#[test]
fn files_of_another_version_are_refused() {
    assert!(load_from_source(RegistrySource::Missing).unwrap().instances.is_empty());
    let kept = load_from_source(RegistrySource::Parsed(FleetRegistry::default())).unwrap();
    assert_eq!(kept.version, 1);
    let mut newer = FleetRegistry::default();
    newer.version = 2;
    let error = load_from_source(RegistrySource::Parsed(newer)).unwrap_err();
    assert_eq!(error.kind(), RegistryErrorKind::InvalidData);
    assert_eq!(error.message(), "unsupported remote registry version 2; expected 1");
    assert_eq!(load_or_default(None).version, 1);
}

#[test]
fn registry_files_lie_in_the_config_directory() {
    let separator = std::path::MAIN_SEPARATOR;
    assert_eq!(registry_path("/etc/herdr"), format!("/etc/herdr{separator}remotes.toml"));
    assert_eq!(registry_lock_path("/etc/herdr"), format!("/etc/herdr{separator}.remotes.lock"));
    assert_eq!(registry_path("/etc/herdr/"), "/etc/herdr/remotes.toml");
    assert_eq!(registry_lock_path(""), ".remotes.lock");
    let verbatim = registry_path("\\\\?\\C:\\herdr");
    assert!(verbatim.ends_with(&format!("{separator}remotes.toml")));
}
