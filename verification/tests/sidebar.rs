use herdr_fleet::instance::Instance;
use herdr_fleet::projection::{PaneId, Projection, TerminalId};
use herdr_fleet::routes::SidebarHit;
use herdr_fleet::sidebar_builder::build_sidebar_state;
use herdr_fleet::snapshot::{
    native_agent_state, AgentInfo, AgentState, AgentStatus, PaneInfo, SessionSnapshot, TabInfo,
    WorkspaceInfo,
};
use herdr_fleet::tokens::{patch_metadata_tokens, Tokens};

fn instance(id: &str) -> Instance {
    Instance {
        id: id.to_string(),
        name: id.to_uppercase(),
        remote_target: None,
        remote_session: None,
        bridge_connecting: false,
        connected: false,
        api_target: None,
        snapshot: None,
        frame: None,
        error: None,
        mouse_capture: false,
        keyboard_report_all: false,
        prefix_input_active: false,
        window_title: None,
        accepts_requests: false,
        client_socket: None,
    }
}

fn workspace(id: &str, focused: bool) -> WorkspaceInfo {
    let mut tokens = Tokens::new();
    tokens.insert("branch".to_string(), "main".to_string());
    WorkspaceInfo {
        workspace_id: id.to_string(),
        label: format!("label {id}"),
        active_tab_id: "none".to_string(),
        agent_status: AgentStatus::Done,
        focused,
        tokens,
    }
}

fn tab(id: &str, workspace: &str, number: usize) -> TabInfo {
    TabInfo {
        tab_id: id.to_string(),
        workspace_id: workspace.to_string(),
        label: format!("tab {id}"),
        number,
    }
}

fn pane(id: &str, tab: &str) -> PaneInfo {
    PaneInfo {
        pane_id: id.to_string(),
        tab_id: tab.to_string(),
        agent_status: AgentStatus::Idle,
        foreground_cwd: None,
        cwd: Some("/home".to_string()),
        agent: None,
        display_agent: Some("Aider".to_string()),
        title: Some("pane title".to_string()),
        state_labels: Tokens::new(),
        revision: 3,
        label: None,
        terminal_title: None,
        tokens: Tokens::new(),
        focused: false,
    }
}

fn snapshot(workspaces: Vec<WorkspaceInfo>) -> SessionSnapshot {
    SessionSnapshot {
        workspaces,
        tabs: vec![],
        panes: vec![],
        agents: vec![],
        focused_workspace_id: None,
        focused_tab_id: None,
        focused_pane_id: None,
        rest: String::new(),
    }
}

#[test]
fn an_agent_that_is_done_is_idle_and_unseen() {
    assert_eq!(native_agent_state(AgentStatus::Done), (AgentState::Idle, false));
    assert_eq!(native_agent_state(AgentStatus::Idle), (AgentState::Idle, true));
    assert_eq!(native_agent_state(AgentStatus::Working), (AgentState::Working, true));
    assert_eq!(native_agent_state(AgentStatus::Blocked), (AgentState::Blocked, true));
    assert_eq!(native_agent_state(AgentStatus::Unknown), (AgentState::Unknown, true));
}

#[test]
fn patched_tokens_prefer_the_patch() {
    let mut target = Tokens::new();
    target.insert("a".to_string(), "1".to_string());
    target.insert("b".to_string(), "2".to_string());
    let mut patch = Tokens::new();
    patch.insert("b".to_string(), "3".to_string());
    patch_metadata_tokens(&mut target, &patch);
    assert_eq!(target.get("a").unwrap(), "1");
    assert_eq!(target.get("b").unwrap(), "3");
    assert!(target.get("c").is_none());
}

#[test]
fn instances_without_workspaces_have_a_row_of_their_own() {
    let mut broken = instance("x");
    broken.error = Some("no route".to_string());
    let mut idle = instance("y");
    idle.connected = true;
    let model = build_sidebar_state(
        &vec![broken, idle, instance("z")],
        1,
        &mut Projection::new(),
    );
    let labels: Vec<&str> = model.rows.iter().map(|row| row.workspace.label.as_str()).collect();
    assert_eq!(labels, vec!["X · no route", "Y · no spaces", "Z · connecting"]);
    assert_eq!(model.rows[0].workspace.key, "fleet:x:empty");
    assert_eq!(model.active, Some(1));
    assert_eq!(model.selected, 1);
    assert!(matches!(model.rows[2].route, SidebarHit::Instance { index: 2 }));
    assert_eq!(model.rows[0].terminals.len(), 1);
    assert_eq!(model.rows[0].terminals[0].cwd, "/");
    assert!(model.rows[0].tab_routes[0].is_none());
}

#[test]
fn a_fleet_without_instances_has_no_rows() {
    let model = build_sidebar_state(&vec![], 0, &mut Projection::new());
    assert!(model.rows.is_empty());
    assert_eq!(model.active, None);
    assert_eq!(model.selected, 0);
}

#[test]
fn the_focused_workspace_is_active() {
    let mut local = instance("local");
    local.snapshot = Some(snapshot(vec![
        workspace("w1", true),
        workspace("w2", false),
        workspace("w3", true),
    ]));
    let mut other = instance("other");
    other.snapshot = Some(snapshot(vec![workspace("v1", true)]));
    let instances = vec![local, other];
    let mut projection = Projection::new();
    assert_eq!(build_sidebar_state(&instances, 0, &mut projection).active, Some(2));
    assert_eq!(build_sidebar_state(&instances, 1, &mut projection).active, Some(3));
    assert_eq!(build_sidebar_state(&instances, 9, &mut projection).active, Some(0));
}

#[test]
fn a_workspace_without_focus_gives_its_first_row() {
    let mut local = instance("local");
    let mut report = snapshot(vec![workspace("w1", false), workspace("w2", false)]);
    local.snapshot = Some(report);
    let model = build_sidebar_state(&vec![local], 0, &mut Projection::new());
    assert_eq!(model.active, Some(0));
    let mut local = instance("local");
    report = snapshot(vec![workspace("w1", false), workspace("w2", false)]);
    report.focused_workspace_id = Some("w2".to_string());
    local.snapshot = Some(report);
    let model = build_sidebar_state(&vec![local], 0, &mut Projection::new());
    assert_eq!(model.active, Some(1));
}

#[test]
fn workspaces_without_tabs_get_a_stand_in() {
    let mut local = instance("local");
    local.snapshot = Some(snapshot(vec![workspace("w1", false)]));
    let mut projection = Projection::new();
    let model = build_sidebar_state(&vec![local], 0, &mut projection);
    let row = &model.rows[0];
    assert_eq!(row.workspace.key, "fleet:local:w1");
    assert_eq!(row.workspace.label, "LOCAL · label w1");
    assert_eq!(row.workspace.branch.as_deref(), Some("main"));
    assert_eq!(row.workspace.tokens.get("host").unwrap(), "LOCAL");
    assert_eq!(row.workspace.tabs.len(), 1);
    assert_eq!(row.workspace.tabs[0].label, None);
    assert!(!row.workspace.tabs[0].panes[0].seen);
    assert_eq!(row.terminals[0].state, Some(AgentState::Idle));
    assert_eq!(projection.keys, vec!["local\0w1\0empty"]);
}

#[test]
fn tabs_and_panes_are_listed_and_routed() {
    let mut report = snapshot(vec![workspace("w1", false)]);
    report.tabs = vec![tab("t1", "w1", 4), tab("u1", "w9", 4), tab("t2", "w1", 5)];
    report.focused_tab_id = Some("t2".to_string());
    report.panes = vec![pane("p1", "t1"), pane("p2", "t2"), pane("p3", "t2")];
    report.panes[1].agent = Some("goose".to_string());
    report.panes[1].foreground_cwd = Some("/src".to_string());
    report.focused_pane_id = Some("p3".to_string());
    report.agents = vec![AgentInfo {
        pane_id: "p2".to_string(),
        agent_status: AgentStatus::Done,
        state_change_seq: 11,
        name: Some("worker".to_string()),
        title: None,
        display_agent: Some("Goose".to_string()),
        state_labels: Tokens::new(),
        revision: 8,
    }];
    let mut local = instance("local");
    local.snapshot = Some(report);
    let mut projection = Projection::new();
    let model = build_sidebar_state(&vec![local], 0, &mut projection);
    let row = &model.rows[0];
    assert_eq!(row.workspace.active_tab, 1);
    assert_eq!(row.workspace.tabs.len(), 2);
    assert_eq!(row.workspace.tabs[1].number, 5);
    assert_eq!(row.workspace.tabs[1].focused_pane, Some(1));
    assert_eq!(row.workspace.tabs[0].focused_pane, None);
    assert_eq!(projection.keys, vec!["local\0p1", "local\0p2", "local\0p3"]);
    assert_eq!(row.workspace.tabs[1].panes[0].pane_id, PaneId { number: 1 });
    assert_eq!(row.workspace.tabs[1].panes[0].terminal_id, TerminalId { number: 1 });
    assert!(!row.workspace.tabs[1].panes[0].seen);
    assert!(matches!(
        &row.tab_routes[1],
        Some(SidebarHit::Tab { index: 0, tab_id }) if tab_id == "t2"
    ));
    assert!(matches!(
        &row.pane_routes[2].target,
        SidebarHit::Pane { index: 0, pane_id } if pane_id == "p3"
    ));
    assert_eq!(row.terminals.len(), 3);
    let terminal = &row.terminals[1];
    assert_eq!(terminal.cwd, "/src");
    assert_eq!(terminal.state, Some(AgentState::Idle));
    let said = terminal.report.as_ref().unwrap();
    assert_eq!(said.detect_from.as_deref(), Some("goose"));
    assert_eq!(said.state_change_seq, Some(11));
    assert_eq!(said.agent_name.as_deref(), Some("worker"));
    assert_eq!(said.title.as_deref(), Some("pane title"));
    assert_eq!(said.display_agent.as_deref(), Some("Goose"));
    assert_eq!(said.seq, 8);
    let plain = row.terminals[0].report.as_ref().unwrap();
    assert_eq!(plain.detect_from.as_deref(), Some("Aider"));
    assert_eq!(plain.seq, 3);
    assert_eq!(row.terminals[0].cwd, "/home");
}

#[test]
fn panes_keep_their_identity() {
    let mut report = snapshot(vec![workspace("w1", false)]);
    report.tabs = vec![tab("t1", "w1", 1)];
    report.panes = vec![pane("p1", "t1"), pane("p2", "t1")];
    let mut local = instance("local");
    local.snapshot = Some(report);
    let mut projection = Projection::new();
    build_sidebar_state(&vec![local], 0, &mut projection);
    let kept = projection.number_of("local\0p2");
    let mut report = snapshot(vec![workspace("w1", false)]);
    report.tabs = vec![tab("t1", "w1", 1)];
    report.panes = vec![pane("p3", "t1"), pane("p2", "t1")];
    let mut local = instance("local");
    local.snapshot = Some(report);
    let instances = vec![local];
    let model = build_sidebar_state(&instances, 0, &mut projection);
    assert_eq!(projection.number_of("local\0p2"), kept);
    let keys = projection.keys.clone();
    build_sidebar_state(&instances, 0, &mut projection);
    assert_eq!(projection.keys, keys);
    assert_eq!(model.rows[0].workspace.tabs[0].panes[1].pane_id.number, kept);
    assert_eq!(model.rows[0].workspace.tabs[0].panes[0].pane_id.number, 2);
}
