use herdr_fleet::ids::InstanceId;
use herdr_fleet::registry::RemoteInstance;
use herdr_fleet::remote_command::{
    added_message, enabled_message, list_remotes, print_help, removed_message, run_remote_command,
    RemoteCommand,
};

fn words(list: &[&str]) -> Vec<String> {
    list.iter().map(|word| word.to_string()).collect()
}

fn remote(session: Option<&str>, enabled: bool) -> RemoteInstance {
    RemoteInstance {
        id: InstanceId("remote-1".to_string()),
        name: "box".to_string(),
        target: "alice@box".to_string(),
        session: session.map(|session| session.to_string()),
        enabled,
    }
}

const ADD_USAGE: &str = "usage: herdr remote add <SSH_TARGET> [--name NAME] [--session NAME]";

fn usage_of(list: &[&str]) -> String {
    match run_remote_command(&words(list)) {
        RemoteCommand::Usage { text, code } => {
            assert_eq!(code, 2);
            text
        }
        other => panic!("expected a usage text, got {other:?}"),
    }
}

#[test]
fn list_takes_only_the_json_flag() {
    assert!(matches!(
        run_remote_command(&words(&["list"])),
        RemoteCommand::List { json: false }
    ));
    assert!(matches!(
        run_remote_command(&words(&["list", "--json"])),
        RemoteCommand::List { json: true }
    ));
    assert_eq!(usage_of(&["list", "--yaml"]), "usage: herdr remote list [--json]");
    assert_eq!(usage_of(&["list", "--json", "--json"]), "usage: herdr remote list [--json]");
}

#[test]
fn add_takes_its_flags_in_either_order() {
    for args in [
        ["add", "alice@box", "--name", "work", "--session", "main"],
        ["add", "alice@box", "--session", "main", "--name", "work"],
    ] {
        match run_remote_command(&words(&args)) {
            RemoteCommand::Add { target, name, session } => {
                assert_eq!(target, "alice@box");
                assert_eq!(name.as_deref(), Some("work"));
                assert_eq!(session.as_deref(), Some("main"));
            }
            other => panic!("expected an addition, got {other:?}"),
        }
    }
}

#[test]
fn add_without_flags_leaves_them_open() {
    match run_remote_command(&words(&["add", "box"])) {
        RemoteCommand::Add { target, name, session } => {
            assert_eq!(target, "box");
            assert_eq!(name, None);
            assert_eq!(session, None);
        }
        other => panic!("expected an addition, got {other:?}"),
    }
}

#[test]
fn add_refuses_what_it_does_not_understand() {
    assert_eq!(usage_of(&["add"]), ADD_USAGE);
    assert_eq!(usage_of(&["add", "-p22"]), ADD_USAGE);
    assert_eq!(usage_of(&["add", "box", "--name"]), ADD_USAGE);
    assert_eq!(usage_of(&["add", "box", "--name", "a", "--name", "b"]), ADD_USAGE);
    assert_eq!(usage_of(&["add", "box", "--port", "22"]), ADD_USAGE);
    assert_eq!(usage_of(&["add", "box", "extra"]), ADD_USAGE);
}

#[test]
fn an_empty_target_is_left_to_the_registry() {
    match run_remote_command(&words(&["add", ""])) {
        RemoteCommand::Add { target, .. } => assert_eq!(target, ""),
        other => panic!("expected an addition, got {other:?}"),
    }
}

#[test]
fn remove_enable_and_disable_take_one_id() {
    assert!(matches!(
        run_remote_command(&words(&["remove", "remote-1"])),
        RemoteCommand::Remove { id } if id == "remote-1"
    ));
    assert!(matches!(
        run_remote_command(&words(&["enable", "remote-1"])),
        RemoteCommand::SetEnabled { id, enabled: true } if id == "remote-1"
    ));
    assert!(matches!(
        run_remote_command(&words(&["disable", "remote-1"])),
        RemoteCommand::SetEnabled { id, enabled: false } if id == "remote-1"
    ));
    assert_eq!(usage_of(&["remove"]), "usage: herdr remote remove <REMOTE_ID>");
    assert_eq!(usage_of(&["enable"]), "usage: herdr remote enable <REMOTE_ID>");
    assert_eq!(usage_of(&["disable", "a", "b"]), "usage: herdr remote disable <REMOTE_ID>");
}

#[test]
fn help_is_asked_for_or_given() {
    for flag in ["help", "--help", "-h"] {
        assert!(matches!(
            run_remote_command(&words(&[flag])),
            RemoteCommand::Help { code: 0 }
        ));
    }
    assert!(matches!(run_remote_command(&[]), RemoteCommand::Help { code: 2 }));
    assert!(matches!(
        run_remote_command(&words(&["lst"])),
        RemoteCommand::Help { code: 2 }
    ));
    let lines = print_help();
    assert_eq!(lines.len(), 6);
    assert_eq!(lines[0], "herdr remote commands:");
    assert_eq!(lines[5], "  herdr remote disable <REMOTE_ID>");
}

#[test]
fn listings_show_every_remote() {
    assert_eq!(list_remotes(&vec![]), vec!["No remote instances configured."]);
    assert_eq!(
        list_remotes(&vec![remote(None, true), remote(Some("main"), false)]),
        vec![
            "remote-1\tenabled\tbox\talice@box\tdefault",
            "remote-1\tdisabled\tbox\talice@box\tmain",
        ]
    );
}

#[test]
fn messages_name_the_remote() {
    let remote = remote(None, true);
    assert_eq!(added_message(&remote), "Added box (alice@box) as remote-1.");
    assert_eq!(removed_message(&remote), "Removed box (remote-1).");
    assert_eq!(enabled_message(&remote, true), "Enabled box (remote-1).");
    assert_eq!(enabled_message(&remote, false), "Disabled box (remote-1).");
}
