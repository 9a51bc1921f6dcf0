use herdr_fleet::app_state::{
    AgentPanelSort, AppState, IntegrationRecommendation, KeyChord, Mode, ShellSettings, ShellView,
    SidebarWidthSource,
};
use herdr_fleet::fleet_state::{content_size, FleetState, HostMode, RECONNECT_INTERVAL};
use herdr_fleet::frame::{CellData, FrameData, Rect};
use herdr_fleet::ids::{IdDraw, InstanceId};
use herdr_fleet::instance::{ApiTarget, Instance};
use herdr_fleet::messages::{
    mouse_kind, BridgeSockets, ClientMouseButton, ClientMouseKind, ClientSidebarAction,
    FleetEvent, Method, MouseButton, MouseEvent, MouseEventKind, ServerMessage, ToastDelivery,
};
use herdr_fleet::projection::PaneId;
use herdr_fleet::raw_input::{
    ImageSource, MouseInputRoute, RawInputFacts, RawRoute, RoutedEvent,
};
use herdr_fleet::reconnect::{connect_app, AppSurface, ContentSize, RenderEncoding};
use herdr_fleet::registry::{FleetPresentation, FleetRegistry, RemoteInstance};
use herdr_fleet::run_loop::LoopEvent;
use herdr_fleet::sidebar_actions::InstallOutcome;
use herdr_fleet::snapshot::{AgentStatus, PaneInfo, SessionSnapshot, TabInfo, WorkspaceInfo};
use herdr_fleet::startup::{initial_instances, restore_presentation, Screen};
use herdr_fleet::terminal_theme::{
    DefaultColorKind, HostAppearance, RgbColor, TerminalTheme, Theme, ThemeRuntime,
};
use herdr_fleet::tokens::Tokens;
use herdr_fleet::visual::{clamp_width, fleet_visual_config, ConfigValues, FleetVisualConfig};
use herdr_fleet::watch::{
    after_read, after_snapshot, after_watch, events_request, reader_event, snapshot_event,
    snapshot_pane_ids, snapshot_request, ReadOutcome, WatchStep, WatcherNext,
};

fn theme(name: &str) -> Theme {
    Theme { name: name.to_string(), palette: vec![] }
}

fn themes() -> ThemeRuntime {
    ThemeRuntime { unknown: theme("plain"), light: theme("day"), dark: theme("night") }
}

fn settings() -> ShellSettings {
    ShellSettings {
        sidebar_collapsed_mode: "compact".to_string(),
        status_indicators: "dots".to_string(),
        agent_panel_sort: AgentPanelSort::Spaces,
        sidebar_agents: String::new(),
        sidebar_spaces: String::new(),
        mouse_capture: true,
        confirm_close: true,
        show_agent_labels_on_pane_borders: false,
        sound: "chime".to_string(),
        toast: "off".to_string(),
        keybinds: String::new(),
        prefix_key: KeyChord { code: "b".to_string(), modifiers: 2 },
    }
}

fn config(bounds: Option<(u16, u16)>, width: u16) -> ConfigValues {
    ConfigValues {
        sidebar_bounds: bounds,
        sidebar_width: width,
        theme_runtime: themes(),
        settings: settings(),
        mouse_scroll_lines: 3,
        redraw_on_focus_gained: true,
        draw_host_cursor: false,
        kitty_graphics_enabled: true,
        remote_image_paste_key: Err("no such key".to_string()),
    }
}

fn visual() -> FleetVisualConfig {
    fleet_visual_config(config(None, 20))
}

fn rect(x: u16, y: u16, width: u16, height: u16) -> Rect {
    Rect { x, y, width, height }
}

fn view(sidebar: u16) -> ShellView {
    ShellView {
        sidebar_rect: rect(0, 0, sidebar, 24),
        terminal_area: rect(sidebar, 1, 80 - sidebar, 23),
    }
}

fn shell() -> AppState {
    AppState {
        host_terminal_appearance: None,
        host_terminal_appearance_explicit: false,
        host_terminal_theme: TerminalTheme::unknown(),
        theme_runtime: themes(),
        theme: theme("plain"),
        mode: Mode::Terminal,
        dragging: false,
        view: view(20),
        default_sidebar_width: 20,
        sidebar_width: 20,
        sidebar_min_width: 18,
        sidebar_max_width: 36,
        sidebar_width_source: SidebarWidthSource::Config,
        sidebar_section_split: 0.5f32.to_bits(),
        collapsed_space_keys: vec!["k".to_string()],
        rows: vec![],
        active: None,
        selected: 0,
        name_input: String::new(),
        config_diagnostic: None,
        session_dirty: true,
        integration_recommendations: vec![],
        integration_install_messages: vec!["old".to_string()],
        settings: settings(),
    }
}

fn remote(name: &str, enabled: bool) -> RemoteInstance {
    RemoteInstance {
        id: InstanceId(format!("remote-{name}")),
        name: name.to_string(),
        target: format!("alice@{name}"),
        session: Some("main".to_string()),
        enabled,
    }
}

fn registry() -> FleetRegistry {
    let mut registry = FleetRegistry::default();
    registry.instances = vec![remote("one", true), remote("off", false), remote("two", true)];
    registry
}

fn screen() -> Screen {
    Screen { cols: 80, rows: 24, cell_width_px: 8, cell_height_px: 16 }
}

fn fleet() -> FleetState {
    let instances =
        initial_instances("main".to_string(), "/run/herdr.sock".to_string(), &registry(), true);
    FleetState::start(instances, shell(), screen(), visual(), 0)
}

/// A fleet whose instances are all connected and take requests, and whose
/// sidebar is up to date.
fn connected() -> FleetState {
    let mut state = fleet();
    for instance in &mut state.instances {
        instance.connected = true;
        instance.accepts_requests = true;
        instance.prefix_input_active = false;
    }
    let mut report = SessionSnapshot {
        workspaces: vec![WorkspaceInfo {
            workspace_id: "w1".to_string(),
            label: "api".to_string(),
            active_tab_id: "t1".to_string(),
            agent_status: AgentStatus::Idle,
            focused: true,
            tokens: Tokens::new(),
        }],
        tabs: vec![TabInfo {
            tab_id: "t1".to_string(),
            workspace_id: "w1".to_string(),
            label: "tab".to_string(),
            number: 1,
        }],
        panes: vec![pane("p1")],
        agents: vec![],
        focused_workspace_id: None,
        focused_tab_id: None,
        focused_pane_id: None,
        rest: String::new(),
    };
    report.focused_pane_id = Some("p1".to_string());
    state.instances[1].snapshot = Some(report);
    state.sync_sidebar_model(view(20));
    state
}

fn pane(id: &str) -> PaneInfo {
    PaneInfo {
        pane_id: id.to_string(),
        tab_id: "t1".to_string(),
        agent_status: AgentStatus::Idle,
        foreground_cwd: None,
        cwd: None,
        agent: None,
        display_agent: None,
        title: None,
        state_labels: Tokens::new(),
        revision: 1,
        label: None,
        terminal_title: None,
        tokens: Tokens::new(),
        focused: false,
    }
}

fn snapshot_of(panes: &[&str]) -> SessionSnapshot {
    SessionSnapshot {
        workspaces: vec![],
        tabs: vec![],
        panes: panes.iter().map(|id| pane(id)).collect(),
        agents: vec![],
        focused_workspace_id: None,
        focused_tab_id: None,
        focused_pane_id: None,
        rest: String::new(),
    }
}

fn drained(state: &mut FleetState) -> Vec<String> {
    let mut effects = vec![];
    while let Some(effect) = state.next_effect() {
        effects.push(format!("{effect:?}"));
    }
    effects
}

fn sent(index: usize, data: &[u8]) -> String {
    format!("Send {{ index: {index}, message: Input {{ data: {data:?} }} }}")
}

fn event(message: ServerMessage) -> FleetEvent {
    FleetEvent::ServerMessage { instance_id: "local".to_string(), message }
}

fn remote_event(message: ServerMessage) -> FleetEvent {
    FleetEvent::ServerMessage { instance_id: "remote-one".to_string(), message }
}

const NO_FACTS: RawInputFacts = RawInputFacts { redraw: false, query_theme: false, cell_size: None };

fn route(state: &mut FleetState, data: &[u8]) -> RawRoute {
    state.begin_raw_input(data.to_vec(), NO_FACTS, None, true).unwrap()
}

#[test]
fn a_fleet_has_this_machine_and_its_enabled_remotes() {
    let state = fleet();
    let ids: Vec<&str> = state.instances.iter().map(|instance| instance.id.as_str()).collect();
    assert_eq!(ids, vec!["local", "remote-one", "remote-two"]);
    assert_eq!(state.instances[0].client_socket.as_deref(), Some("/run/herdr.sock"));
    assert!(matches!(
        &state.instances[0].api_target,
        Some(ApiTarget::LocalSession(name)) if name == "main"
    ));
    assert_eq!(state.instances[2].remote_target.as_deref(), Some("alice@two"));
    assert_eq!(state.instances[2].remote_session.as_deref(), Some("main"));
    assert!(state.instances[1].mouse_capture);
    assert_eq!(state.active, 0);
    assert!(state.host.repaint_pending);
    assert_eq!(state.host.sound, "chime");
    assert_eq!(state.host.mouse_scroll_lines, 3);
}

#[test]
fn the_content_of_this_machine_is_reached_or_nothing_starts() {
    let mut state = fleet();
    let local = &mut state.instances[0];
    assert_eq!(local.take_local_content(Err("gone".to_string())), Err("gone".to_string()));
    assert!(!local.connected);
    assert_eq!(local.take_local_content(Ok(())), Ok(()));
    assert!(local.connected);
    assert_eq!(local.error, None);
}

#[test]
fn first_bridges_are_taken_or_refused() {
    let mut state = fleet();
    let sockets = BridgeSockets { client_socket: "/c".to_string(), api_socket: "/a".to_string() };
    state.instances[1].take_first_bridge(Ok(sockets), false);
    assert_eq!(state.instances[1].error.as_deref(), Some("app connection failed"));
    assert_eq!(state.instances[1].client_socket.as_deref(), Some("/c"));
    state.instances[2].take_first_bridge(Err("no ssh".to_string()), true);
    assert_eq!(state.instances[2].error.as_deref(), Some("no ssh"));
    assert!(!state.instances[2].connected);
}

#[test]
fn the_loop_begins_with_its_threads_and_a_frame() {
    let mut state = fleet();
    state.instances[0].connected = true;
    state.begin(view(20));
    let effects = drained(&mut state);
    assert_eq!(effects[0], "StartServerReader { index: 0 }");
    assert_eq!(effects[1], "StartApiWorker { index: 0, target: LocalSession(\"main\") }");
    assert_eq!(
        effects[2],
        "StartSnapshotWatcher { instance_id: \"local\", target: LocalSession(\"main\") }"
    );
    assert_eq!(effects[3], "Render");
    assert_eq!(effects.len(), 4);
    assert!(state.instances[0].accepts_requests);
    assert!(!state.instances[1].accepts_requests);
    assert_eq!(state.sidebar.rows.len(), 3);
}

#[test]
fn layouts_are_restored_within_bounds() {
    let mut app = shell();
    let mut kept = FleetPresentation::unset();
    kept.sidebar_width = Some(99);
    kept.sidebar_section_split = Some(0.25f32.to_bits());
    restore_presentation(&mut app, &kept);
    assert_eq!(app.sidebar_width, 36);
    assert_eq!(app.sidebar_width_source, SidebarWidthSource::Persisted);
    assert_eq!(app.sidebar_section_split, 0.25f32.to_bits());
    assert!(app.collapsed_space_keys.is_empty());
    let mut app = shell();
    restore_presentation(&mut app, &FleetPresentation::unset());
    assert_eq!(app.sidebar_width, 20);
    assert_eq!(app.sidebar_width_source, SidebarWidthSource::Config);
}

#[test]
fn only_changed_layouts_are_saved() {
    let mut state = fleet();
    let saved = state.persist_fleet_presentation(&FleetPresentation::unset()).unwrap();
    assert_eq!(saved.sidebar_width, Some(20));
    assert_eq!(saved.sidebar_section_split, Some(0.5f32.to_bits()));
    assert_eq!(saved.collapsed_space_keys, vec!["k"]);
    assert!(!state.sidebar.session_dirty);
    assert!(state.persist_fleet_presentation(&saved).is_none());
}

#[test]
fn events_of_unknown_instances_are_ignored() {
    let mut state = connected();
    let unknown = FleetEvent::Disconnected { instance_id: "nobody".to_string() };
    assert!(!state.handle_fleet_event(unknown));
    assert!(state.instances.iter().all(|instance| instance.connected));
}

#[test]
fn a_bridge_that_is_ready_starts_its_workers() {
    let mut state = fleet();
    state.instances[1].bridge_connecting = true;
    state.host.repaint_pending = false;
    let ready = FleetEvent::BridgeReady {
        instance_id: "remote-one".to_string(),
        result: Ok(BridgeSockets {
            client_socket: "/c".to_string(),
            api_socket: "/a".to_string(),
        }),
    };
    assert!(state.handle_fleet_event(ready));
    assert!(!state.instances[1].bridge_connecting);
    assert!(state.instances[1].accepts_requests);
    assert_eq!(state.instances[1].client_socket.as_deref(), Some("/c"));
    assert!(state.host.repaint_pending);
    assert_eq!(
        drained(&mut state),
        vec![
            "StartApiWorker { index: 1, target: SocketPath(\"/a\") }",
            "StartSnapshotWatcher { instance_id: \"remote-one\", target: SocketPath(\"/a\") }",
            "KeepBridge",
        ]
    );
    let failed = FleetEvent::BridgeReady {
        instance_id: "remote-two".to_string(),
        result: Err("timed out".to_string()),
    };
    assert!(state.handle_fleet_event(failed));
    assert_eq!(state.instances[2].error.as_deref(), Some("timed out"));
}

#[test]
fn only_the_active_instance_moves_the_host() {
    let mut state = connected();
    let title = || ServerMessage::WindowTitle { title: Some("vim".to_string()) };
    assert!(!state.handle_fleet_event(remote_event(title())));
    let clipboard = ServerMessage::Clipboard { data: vec![1] };
    assert!(!state.handle_fleet_event(remote_event(clipboard)));
    let capture = ServerMessage::MouseCapture { enabled: false };
    assert!(!state.handle_fleet_event(remote_event(capture)));
    assert!(drained(&mut state).is_empty());
    assert_eq!(state.instances[1].window_title.as_deref(), Some("vim"));
    assert!(!state.instances[1].mouse_capture);
    assert!(!state.handle_fleet_event(event(title())));
    assert!(!state.handle_fleet_event(event(ServerMessage::Clipboard { data: vec![1] })));
    assert!(!state.handle_fleet_event(event(ServerMessage::MouseCapture { enabled: false })));
    let report = ServerMessage::KittyKeyboardReportAll { enabled: true };
    assert!(!state.handle_fleet_event(event(report)));
    let prefix = ServerMessage::PrefixInputSource { active: true };
    assert!(!state.handle_fleet_event(event(prefix)));
    assert_eq!(
        drained(&mut state),
        vec![
            "WriteWindowTitle { title: Some(\"vim\") }",
            "ForwardClipboard { data: [1] }",
            "ApplyHostModes",
            "ApplyHostModes",
            "SwitchPrefixInput",
        ]
    );
}

#[test]
fn host_modes_are_taken_one_by_one() {
    let mut state = connected();
    state.instances[0].mouse_capture = false;
    state.instances[0].keyboard_report_all = true;
    let first = state.next_host_mode().unwrap();
    assert_eq!(first, HostMode::MouseCapture(false));
    state.host_mode_applied(first);
    let second = state.next_host_mode().unwrap();
    assert_eq!(second, HostMode::KeyboardReportAll(true));
    state.host_mode_applied(second);
    assert_eq!(state.next_host_mode(), None);
}

#[test]
fn notifications_and_reloads_are_passed_on() {
    let mut state = connected();
    let notify = ServerMessage::Notify {
        kind: "done".to_string(),
        message: "ready".to_string(),
        body: None,
    };
    assert!(!state.handle_fleet_event(remote_event(notify)));
    assert!(state.handle_fleet_event(remote_event(ServerMessage::ReloadSoundConfig)));
    assert!(!state.handle_fleet_event(event(ServerMessage::Terminal)));
    assert!(!state.handle_fleet_event(event(ServerMessage::Graphics)));
    assert!(!state.handle_fleet_event(event(ServerMessage::Other)));
    assert_eq!(
        drained(&mut state),
        vec![
            "Notify { kind: \"done\", message: \"ready\", body: None }",
            "ReloadLocalConfig",
            "ReloadVisualConfig",
        ]
    );
}

#[test]
fn lost_instances_show_nothing() {
    let mut state = connected();
    let shutdown = ServerMessage::ServerShutdown { reason: None };
    assert!(state.handle_fleet_event(event(shutdown)));
    assert_eq!(state.instances[0].error.as_deref(), Some("server shut down"));
    assert!(!state.instances[0].connected);
    let shutdown = ServerMessage::ServerShutdown { reason: Some("update".to_string()) };
    assert!(state.handle_fleet_event(remote_event(shutdown)));
    assert_eq!(state.instances[1].error.as_deref(), Some("update"));
    let gone = FleetEvent::Disconnected { instance_id: "remote-two".to_string() };
    assert!(state.handle_fleet_event(gone));
    assert_eq!(state.instances[2].error.as_deref(), Some("disconnected"));
    assert!(state.instances[2].frame.is_none());
}

#[test]
fn a_snapshot_is_news_once() {
    let mut state = fleet();
    let report = || FleetEvent::Snapshot {
        instance_id: "local".to_string(),
        result: Ok(snapshot_of(&["p1"])),
    };
    state.instances[0].error = Some("was wrong".to_string());
    assert!(state.handle_fleet_event(report()));
    assert_eq!(state.instances[0].error, None);
    assert!(!state.handle_fleet_event(report()));
    let failure = || FleetEvent::Snapshot {
        instance_id: "local".to_string(),
        result: Err("no answer".to_string()),
    };
    assert!(state.handle_fleet_event(failure()));
    assert!(!state.handle_fleet_event(failure()));
    assert!(state.instances[0].snapshot.is_some());
}

#[test]
fn writes_to_lost_streams_are_dropped() {
    let mut state = connected();
    state.host.repaint_pending = false;
    state.broadcast_input(vec![7]);
    let first = state.next_effect().unwrap();
    assert_eq!(format!("{first:?}"), sent(0, &[7]));
    state.mark_content_stream_disconnected(1);
    assert!(state.host.repaint_pending);
    assert_eq!(state.instances[1].error.as_deref(), Some("disconnected"));
    assert_eq!(drained(&mut state), vec![sent(2, &[7])]);
    state.mark_content_stream_disconnected(9);
}

#[test]
fn resizing_tells_every_stream() {
    let mut state = connected();
    state.instances[2].connected = false;
    let resize = LoopEvent::Resize { cols: 100, rows: 40, cell_width_px: 9, cell_height_px: 18 };
    let narrow = ShellView {
        sidebar_rect: rect(0, 0, 99, 40),
        terminal_area: rect(99, 0, 1, 0),
    };
    state.step(resize, narrow);
    assert_eq!((state.host.reported_cols, state.host.reported_rows), (100, 40));
    assert_eq!(content_size(narrow), (2, 1));
    let told = "message: Resize { cols: 2, rows: 1, cell_width_px: 9, cell_height_px: 18 } }";
    assert_eq!(
        drained(&mut state),
        vec![
            format!("Send {{ index: 0, {told}"),
            format!("Send {{ index: 1, {told}"),
            "Render".to_string(),
        ]
    );
}

#[test]
fn fleet_events_bring_the_sidebar_up_to_date() {
    let mut state = connected();
    let report = FleetEvent::Snapshot {
        instance_id: "remote-one".to_string(),
        result: Ok(snapshot_of(&[])),
    };
    state.step(LoopEvent::Fleet(report), view(24));
    assert_eq!(state.sidebar.rows[1].workspace.label, "one · no spaces");
    assert_eq!(state.sidebar.view.sidebar_rect.width, 24);
    assert_eq!(drained(&mut state), vec!["Render"]);
}

#[test]
fn selections_stay_while_the_shell_is_in_use() {
    let mut state = connected();
    state.sidebar.mode = Mode::Navigate;
    state.sidebar.selected = 2;
    state.sync_sidebar_model(view(30));
    assert_eq!(state.sidebar.selected, 2);
    assert_eq!(state.sidebar.view.sidebar_rect.width, 30);
    assert_eq!(state.sidebar.view.terminal_area.x, 30);
    state.sidebar.mode = Mode::Terminal;
    state.sync_sidebar_model(view(20));
    assert_eq!(state.sidebar.selected, 0);
}

#[test]
fn lost_streams_are_connected_again_in_time() {
    let mut state = fleet();
    state.instances[2].client_socket = Some("/two".to_string());
    state.step(LoopEvent::Tick { now: RECONNECT_INTERVAL - 1 }, view(20));
    assert!(drained(&mut state).is_empty());
    state.step(LoopEvent::Tick { now: RECONNECT_INTERVAL }, view(20));
    assert_eq!(
        drained(&mut state),
        vec![
            "ConnectContent { index: 0, socket: \"/run/herdr.sock\", cols: 60, rows: 23, \
             cell_width_px: 8, cell_height_px: 16 }",
            "StartBridge { instance_id: \"remote-one\", target: \"alice@one\", \
             session: Some(\"main\") }",
            "ConnectContent { index: 2, socket: \"/two\", cols: 60, rows: 23, \
             cell_width_px: 8, cell_height_px: 16 }",
        ]
    );
    assert!(state.instances[1].bridge_connecting);
    state.content_connected(0);
    state.content_failed(2, "refused".to_string());
    assert!(state.instances[0].connected);
    assert_eq!(state.instances[2].error.as_deref(), Some("refused"));
    state.instances[2].connected = true;
    state.step(LoopEvent::Tick { now: 2 * RECONNECT_INTERVAL }, view(20));
    assert!(drained(&mut state).is_empty());
    state.content_connected(9);
    state.content_failed(9, String::new());
}

#[test]
fn content_streams_ask_for_the_content_alone() {
    let size = ContentSize { cols: 60, rows: 23, cell_width_px: 8, cell_height_px: 16 };
    let handshake = connect_app(size);
    assert_eq!(handshake.size, size);
    assert_eq!(handshake.encoding, RenderEncoding::SemanticFrame);
    assert_eq!(handshake.surface, AppSurface::Content);
    assert!(!handshake.direct_attach);
}

#[test]
fn following_a_workspace_activates_its_instance() {
    let mut state = connected();
    state.instances[1].window_title = Some("one".to_string());
    state.instances[1].prefix_input_active = true;
    state.dispatch_sidebar_action(ClientSidebarAction::FocusWorkspace { ws_idx: 1 });
    assert_eq!(state.active, 1);
    assert!(state.active_is_remote());
    assert_eq!(state.sidebar.active, Some(1));
    assert_eq!(state.sidebar.selected, 1);
    assert_eq!(
        drained(&mut state),
        vec![
            "Request { index: 1, id: \"fleet-focus\", \
             method: WorkspaceFocus { workspace_id: \"w1\" } }",
            "ApplyHostModes",
            "SwitchPrefixInput",
            "WriteWindowTitle { title: Some(\"one\") }",
        ]
    );
}

#[test]
fn following_tabs_panes_and_instances() {
    let mut state = connected();
    state.dispatch_sidebar_action(ClientSidebarAction::FocusTab { ws_idx: 1, tab_idx: 0 });
    assert!(drained(&mut state)[0].contains("TabFocus { tab_id: \"t1\" }"));
    let listed = state.sidebar.rows[1].pane_routes[0].pane;
    state.dispatch_sidebar_action(ClientSidebarAction::FocusPane { ws_idx: 1, pane_id: listed });
    assert!(drained(&mut state)[0].contains("PaneFocus { pane_id: \"p1\" }"));
    let unknown = PaneId { number: 999 };
    state.dispatch_sidebar_action(ClientSidebarAction::FocusPane { ws_idx: 1, pane_id: unknown });
    assert!(drained(&mut state)[0].contains("WorkspaceFocus"));
    state.dispatch_sidebar_action(ClientSidebarAction::FocusWorkspace { ws_idx: 2 });
    assert_eq!(state.active, 2);
    assert_eq!(drained(&mut state)[0], "ApplyHostModes");
    state.dispatch_sidebar_action(ClientSidebarAction::FocusTab { ws_idx: 1, tab_idx: 9 });
    state.dispatch_sidebar_action(ClientSidebarAction::FocusWorkspace { ws_idx: 9 });
    assert!(drained(&mut state).is_empty());
    assert_eq!(state.active, 2);
}

#[test]
fn workspaces_are_made_renamed_and_closed() {
    let mut state = connected();
    state.dispatch_sidebar_action(ClientSidebarAction::NewWorkspace);
    state.dispatch_sidebar_action(ClientSidebarAction::RenameStarted { ws_idx: 1 });
    assert_eq!(state.sidebar.name_input, "api");
    state.dispatch_sidebar_action(ClientSidebarAction::RenameStarted { ws_idx: 0 });
    assert_eq!(state.sidebar.name_input, "api");
    state.dispatch_sidebar_action(ClientSidebarAction::RenameWorkspace {
        ws_idx: 1,
        label: "web".to_string(),
    });
    state.dispatch_sidebar_action(ClientSidebarAction::RenameWorkspace {
        ws_idx: 0,
        label: "web".to_string(),
    });
    state.dispatch_sidebar_action(ClientSidebarAction::CloseWorkspace { ws_idx: 1 });
    state.instances[1].accepts_requests = false;
    state.dispatch_sidebar_action(ClientSidebarAction::CloseWorkspace { ws_idx: 1 });
    let effects = drained(&mut state);
    assert_eq!(effects.len(), 3);
    assert!(effects[0].starts_with(
        "Request { index: 0, id: \"fleet-workspace-create\", \
         method: WorkspaceCreate { cwd: None, focus: true, label: None"
    ));
    assert_eq!(
        effects[1],
        "Request { index: 1, id: \"fleet-workspace-rename\", \
         method: WorkspaceRename { workspace_id: \"w1\", label: \"web\" } }"
    );
    assert_eq!(
        effects[2],
        "Request { index: 1, id: \"fleet-workspace-close\", \
         method: WorkspaceClose { workspace_id: \"w1\" } }"
    );
}

#[test]
fn settings_become_changes_to_the_file() {
    let mut state = connected();
    let actions = vec![
        ClientSidebarAction::SaveTheme { name: "nord".to_string() },
        ClientSidebarAction::SaveStatusIndicators { style: "bars".to_string() },
        ClientSidebarAction::SaveSound { enabled: true },
        ClientSidebarAction::SaveToastDelivery { delivery: ToastDelivery::Herdr },
        ClientSidebarAction::SaveAgentBorderLabels { enabled: false },
        ClientSidebarAction::SaveAgentPanelSort { sort: "priority".to_string() },
        ClientSidebarAction::Redraw,
    ];
    for action in actions {
        state.dispatch_sidebar_action(action);
    }
    assert_eq!(
        drained(&mut state),
        vec![
            "UpdateConfigFile { context: \"theme\", edits: [\
             SetValue { section: \"theme\", key: \"name\", value: \"\\\"nord\\\"\" }, \
             SetBool { section: \"theme\", key: \"auto_switch\", value: false }] }",
            "UpdateConfigFile { context: \"status indicators\", edits: [\
             SetValue { section: \"ui\", key: \"status_indicators\", value: \"\\\"bars\\\"\" }] }",
            "UpdateConfigFile { context: \"sound setting\", edits: [\
             SetBool { section: \"ui.sound\", key: \"enabled\", value: true }] }",
            "UpdateConfigFile { context: \"toast setting\", edits: [\
             SetValue { section: \"ui.toast\", key: \"delivery\", value: \"\\\"herdr\\\"\" }, \
             RemoveKey { section: \"ui.toast\", key: \"enabled\" }] }",
            "UpdateConfigFile { context: \"agent border labels\", edits: [\
             SetBool { section: \"ui\", key: \"show_agent_labels_on_pane_borders\", \
             value: false }] }",
            "UpdateConfigFile { context: \"agent panel sort\", edits: [\
             SetValue { section: \"ui\", key: \"agent_panel_sort\", \
             value: \"\\\"priority\\\"\" }] }",
        ]
    );
    state.config_write_failed("theme", "disk full");
    assert_eq!(
        state.sidebar.config_diagnostic.as_deref(),
        Some("failed to save theme: disk full")
    );
}

#[test]
fn every_delivery_has_its_word() {
    for (delivery, word) in [
        (ToastDelivery::Off, "\\\"off\\\""),
        (ToastDelivery::Herdr, "\\\"herdr\\\""),
        (ToastDelivery::Terminal, "\\\"terminal\\\""),
        (ToastDelivery::System, "\\\"system\\\""),
    ] {
        let mut state = connected();
        state.dispatch_sidebar_action(ClientSidebarAction::SaveToastDelivery { delivery });
        assert!(drained(&mut state)[0].contains(word));
    }
}

#[test]
fn reloading_reaches_all_instances() {
    let mut state = connected();
    state.instances[1].accepts_requests = false;
    state.dispatch_sidebar_action(ClientSidebarAction::ReloadConfig);
    let request = "id: \"fleet-reload-config\", method: ServerReloadConfig }";
    assert_eq!(
        drained(&mut state),
        vec![
            "ReloadVisualConfig".to_string(),
            format!("Request {{ index: 0, {request}"),
            format!("Request {{ index: 2, {request}"),
        ]
    );
}

#[test]
fn detaching_quits_and_takes_leave() {
    let mut state = connected();
    assert!(state.goes_on(false));
    assert!(!state.goes_on(true));
    state.dispatch_sidebar_action(ClientSidebarAction::Detach);
    assert!(!state.goes_on(false));
    state.instances[0].connected = false;
    state.detach_all();
    assert_eq!(
        drained(&mut state),
        vec!["Send { index: 1, message: Detach }", "Send { index: 2, message: Detach }"]
    );
}

#[test]
fn integrations_are_installed_where_they_are_needed() {
    let mut state = connected();
    state.dispatch_sidebar_action(ClientSidebarAction::InstallRecommendedIntegrations);
    assert_eq!(
        state.sidebar.integration_install_messages,
        vec!["all detected integrations are current"]
    );
    state.sidebar.integration_recommendations = vec![
        IntegrationRecommendation { label: "aider".to_string(), needs_install: true },
        IntegrationRecommendation { label: "goose".to_string(), needs_install: false },
        IntegrationRecommendation { label: "amp".to_string(), needs_install: true },
    ];
    state.dispatch_sidebar_action(ClientSidebarAction::InstallRecommendedIntegrations);
    assert!(state.sidebar.integration_install_messages.is_empty());
    assert_eq!(
        drained(&mut state),
        vec!["InstallIntegrations { labels: [\"aider\", \"amp\"] }"]
    );
    state.integrations_installed(
        vec![
            InstallOutcome {
                label: "aider".to_string(),
                result: Ok(vec!["note".to_string(), "warning: old".to_string()]),
            },
            InstallOutcome { label: "amp".to_string(), result: Err("denied".to_string()) },
        ],
        "warning: ",
        vec![],
    );
    assert_eq!(
        state.sidebar.integration_install_messages,
        vec!["installed aider", "warning: old", "amp: denied"]
    );
    assert!(state.sidebar.integration_recommendations.is_empty());
}

#[test]
fn input_without_events_is_forwarded() {
    let mut state = connected();
    let facts = RawInputFacts { redraw: true, query_theme: true, cell_size: Some((10, 20)) };
    state.host.repaint_pending = false;
    assert!(state.begin_raw_input(vec![1, 2], facts, None, false).is_none());
    assert!(state.host.repaint_pending);
    assert_eq!((state.cell_width_px, state.cell_height_px), (10, 20));
    assert_eq!(drained(&mut state), vec!["QueryHostTheme".to_string(), sent(0, &[1, 2])]);
}

#[test]
fn images_go_to_the_active_instance() {
    let mut state = connected();
    let paste = Some(ImageSource::ClipboardPaste);
    assert!(state.begin_raw_input(vec![1], NO_FACTS, paste, true).is_none());
    let drop = Some(ImageSource::FileDrop);
    assert!(state.begin_raw_input(vec![1], NO_FACTS, drop, true).is_none());
    assert_eq!(
        drained(&mut state),
        vec![
            "SendImage { index: 0, source: \"clipboard paste\" }",
            "SendImage { index: 0, source: \"file drop\" }",
        ]
    );
    state.instances[0].connected = false;
    assert!(state.begin_raw_input(vec![1], NO_FACTS, paste, true).is_none());
    assert!(drained(&mut state).is_empty());
}

#[test]
fn untouched_input_is_forwarded_whole() {
    let mut state = connected();
    let mut input = route(&mut state, b"abcdefgh");
    state.route_raw_input(&mut input, 1, 2, RoutedEvent::Forward);
    let key = RoutedEvent::ForwardedKey { previous_mode: Mode::Terminal };
    state.route_raw_input(&mut input, 4, 1, key);
    state.route_raw_input(&mut input, 5, 100, RoutedEvent::Forward);
    state.finish_raw_input(input, view(20));
    assert_eq!(drained(&mut state), vec![sent(0, b"abcdefgh")]);
}

#[test]
fn what_the_shell_takes_is_not_forwarded() {
    let mut state = connected();
    let mut input = route(&mut state, b"abcdef");
    state.route_raw_input(&mut input, 1, 1, RoutedEvent::TakenText);
    state.route_raw_input(&mut input, 2, 2, RoutedEvent::TakenKey { action: None });
    state.finish_raw_input(input, view(20));
    assert_eq!(
        drained(&mut state),
        vec![sent(0, b"aef"), "PersistPresentation".to_string(), "Render".to_string()]
    );
}

#[test]
fn a_prefix_is_kept_replayed_and_cancelled() {
    let mut state = connected();
    let mut input = route(&mut state, b"\x02xyz");
    state.sidebar.mode = Mode::Prefix;
    let key = RoutedEvent::ForwardedKey { previous_mode: Mode::Terminal };
    state.route_raw_input(&mut input, 0, 1, key);
    assert_eq!(state.pending_prefix_bytes, b"\x02");
    state.route_raw_input(&mut input, 1, 1, RoutedEvent::KeyWithPrefix);
    let action = Some(ClientSidebarAction::Detach);
    state.route_raw_input(&mut input, 3, 1, RoutedEvent::KeyCancellingPrefix { action });
    state.finish_raw_input(input, view(20));
    assert!(state.quit_requested);
    assert_eq!(
        drained(&mut state),
        vec![
            sent(0, b"\x02"),
            sent(0, b"\x02x"),
            sent(0, b"y"),
            sent(0, b"\x1b"),
            "PersistPresentation".to_string(),
            "Render".to_string(),
        ]
    );
}

#[test]
fn reports_of_the_host_go_to_all_instances() {
    let mut state = connected();
    let mut input = route(&mut state, b"aRRb");
    let black = RgbColor { r: 0, g: 0, b: 0 };
    let report = RoutedEvent::HostDefaultColor {
        kind: DefaultColorKind::Background,
        color: black,
        inferred: HostAppearance::Dark,
    };
    state.route_raw_input(&mut input, 1, 2, report);
    assert_eq!(state.sidebar.theme.name, "night");
    assert!(input.shell_changed);
    assert_eq!(
        drained(&mut state),
        vec![sent(0, b"a"), sent(0, b"RR"), sent(1, b"RR"), sent(2, b"RR")]
    );
    let mut again = route(&mut state, b"RR");
    let report = RoutedEvent::HostColorSchemeChanged { appearance: HostAppearance::Dark };
    state.route_raw_input(&mut again, 0, 1, report);
    assert!(!again.shell_changed);
    let report = RoutedEvent::HostPaletteColors { colors: vec![(1, black)] };
    state.route_raw_input(&mut again, 1, 1, report);
    assert!(again.shell_changed);
    assert_eq!(state.sidebar.host_terminal_theme.palette[1], Some(black));
    let size = RoutedEvent::HostCellSizeReport { width_px: 5, height_px: 6 };
    state.route_raw_input(&mut again, 2, 0, size);
    assert_eq!((state.cell_width_px, state.cell_height_px), (5, 6));
}

#[test]
fn a_wider_sidebar_resizes_the_content() {
    let mut state = connected();
    let mut input = route(&mut state, b"k");
    assert_eq!(input.previous_width, 20);
    state.route_raw_input(&mut input, 0, 1, RoutedEvent::TakenKey { action: None });
    state.finish_raw_input(input, view(30));
    let effects = drained(&mut state);
    assert_eq!(effects.len(), 5);
    assert!(effects[0].contains("Resize { cols: 50, rows: 23"));
    assert_eq!(state.sidebar.view, view(30));
    assert_eq!(state.current_sidebar_width(80), 30);
    assert_eq!(state.current_sidebar_width(25), 23);
    assert_eq!(state.current_sidebar_width(1), 0);
}

#[test]
fn the_mouse_is_told_where_the_content_is() {
    let mut state = connected();
    let mouse = MouseEvent {
        kind: MouseEventKind::Down(MouseButton::Right),
        column: 25,
        row: 4,
        modifiers: 3,
    };
    assert_eq!(state.handle_mouse_input(mouse, view(20)), MouseInputRoute::Content);
    assert_eq!(
        drained(&mut state),
        vec![
            "Send { index: 0, message: InputEvents { events: [\
             Mouse { kind: Down(Right), column: 5, row: 3, modifiers: 3 }] } }",
        ]
    );
    let outside = MouseEvent { column: 19, ..mouse };
    let sidebar = MouseInputRoute::Sidebar { width: 20 };
    assert_eq!(state.handle_mouse_input(outside, view(20)), sidebar);
    let above = MouseEvent { row: 0, ..mouse };
    assert_eq!(state.handle_mouse_input(above, view(20)), sidebar);
    state.sidebar.dragging = true;
    assert_eq!(state.handle_mouse_input(mouse, view(20)), sidebar);
    assert!(drained(&mut state).is_empty());
    let mut input = route(&mut state, b"m");
    state.route_raw_input(&mut input, 0, 1, RoutedEvent::Mouse);
    state.finish_mouse_input(&mut input, 20, view(25));
    assert!(input.shell_changed);
    assert_eq!(drained(&mut state).len(), 3);
}

#[test]
fn the_mouse_cancels_a_prefix() {
    let mut state = connected();
    state.sidebar.mode = Mode::Prefix;
    let mouse = MouseEvent { kind: MouseEventKind::Moved, column: 25, row: 4, modifiers: 0 };
    assert_eq!(state.handle_mouse_input(mouse, view(20)), MouseInputRoute::Content);
    assert_eq!(state.sidebar.mode, Mode::Terminal);
    assert_eq!(drained(&mut state)[0], sent(0, b"\x1b"));
}

#[test]
fn mouse_kinds_are_told_apart() {
    assert_eq!(
        mouse_kind(MouseEventKind::Drag(MouseButton::Middle)),
        Some(ClientMouseKind::Drag(ClientMouseButton::Middle))
    );
    assert_eq!(
        mouse_kind(MouseEventKind::Up(MouseButton::Left)),
        Some(ClientMouseKind::Up(ClientMouseButton::Left))
    );
    assert_eq!(mouse_kind(MouseEventKind::ScrollLeft), Some(ClientMouseKind::ScrollLeft));
    assert_eq!(mouse_kind(MouseEventKind::ScrollDown), Some(ClientMouseKind::ScrollDown));
}

#[test]
fn frames_go_under_the_shell() {
    let mut state = connected();
    assert!(state.render_base(0, 24, view(20)).is_none());
    state.instances[0].frame = Some(FrameData {
        cells: vec![CellData {
            symbol: "x".to_string(),
            fg: 0,
            bg: 0,
            modifier: 0,
            skip: false,
            hyperlink: None,
        }],
        width: 1,
        height: 1,
        cursor: None,
        hyperlinks: vec![],
        graphics: vec![9],
    });
    assert!(state.content_fits(80, 24, view(20)));
    assert!(!state.content_fits(20, 1, view(20)));
    let base = state.render_base(80, 24, view(20)).unwrap();
    assert_eq!(base.cells[80 + 20].symbol, "x");
    assert!(state.cursor_in_content());
    state.sidebar.mode = Mode::Navigate;
    assert!(!state.cursor_in_content());
    let plan = state.render_plan(&base);
    assert!(plan.full_repaint);
    assert!(!plan.draw_cursor);
    assert_eq!(plan.graphics, vec![9]);
    state.frame_shown();
    state.host.kitty_graphics_enabled = false;
    let plan = state.render_plan(&base);
    assert!(!plan.full_repaint);
    assert!(plan.graphics.is_empty());
}

#[test]
fn configurations_are_taken_on() {
    let narrow = fleet_visual_config(config(Some((10, 12)), 20));
    assert_eq!(narrow.sidebar_width, 12);
    assert_eq!(narrow.theme.name, "plain");
    assert!(narrow.remote_image_paste_key.is_none());
    let usual = fleet_visual_config(config(None, 5));
    assert_eq!((usual.sidebar_min_width, usual.sidebar_max_width), (18, 36));
    assert_eq!(usual.sidebar_width, 18);
    assert_eq!(clamp_width(40, 18, 36), 36);
    let mut state = connected();
    state.reload_fleet_visual_config(
        config(Some((10, 12)), 11),
        Some("unknown key".to_string()),
    );
    assert_eq!(state.sidebar.sidebar_width, 12);
    assert_eq!(state.sidebar.default_sidebar_width, 11);
    assert_eq!(state.sidebar.config_diagnostic.as_deref(), Some("unknown key"));
    assert!(state.host.redraw_on_focus_gained);
    let key = KeyChord { code: "v".to_string(), modifiers: 2 };
    state.reload_local_client_config("bell".to_string(), false, true, Some(key));
    assert_eq!(state.host.sound, "bell");
    assert!(state.host.draw_host_cursor);
}

#[test]
fn pane_ids_are_sorted() {
    let ids = snapshot_pane_ids(&Ok(snapshot_of(&["p2", "p10", "é", "p1", "p2", ""])));
    assert_eq!(ids, vec!["", "p1", "p10", "p2", "p2", "é"]);
    assert!(snapshot_pane_ids(&Err("down".to_string())).is_empty());
    let other = snapshot_pane_ids(&Ok(snapshot_of(&["p2", "", "p1", "é", "p2", "p10"])));
    assert_eq!(ids, other);
}

#[test]
fn requests_carry_the_instance() {
    let request = snapshot_request("local");
    assert_eq!(request.id, "fleet-snapshot:local");
    assert!(matches!(request.method, Method::SessionSnapshot));
    let request = events_request("local", &vec!["p1".to_string(), "p2".to_string()]);
    assert_eq!(request.id, "fleet-events:local");
    match request.method {
        Method::EventsSubscribe { subscriptions } => {
            assert_eq!(subscriptions.len(), 26);
            assert_eq!(format!("{:?}", subscriptions[0]), "WorkspaceCreated");
            assert_eq!(format!("{:?}", subscriptions[23]), "LayoutUpdated");
            assert_eq!(
                format!("{:?}", subscriptions[25]),
                "PaneAgentStatusChanged { pane_id: \"p2\", agent_status: None }"
            );
        }
        other => panic!("expected subscriptions, got {other:?}"),
    }
}

#[test]
fn watches_end_when_the_panes_change() {
    assert!(matches!(after_read(ReadOutcome::Line), WatchStep::TakeSnapshot));
    assert!(matches!(after_read(ReadOutcome::Interrupted), WatchStep::ReadOn));
    assert!(matches!(
        after_read(ReadOutcome::Closed),
        WatchStep::Fail(error) if error == "event stream disconnected"
    ));
    assert!(matches!(
        after_read(ReadOutcome::Failed("reset".to_string())),
        WatchStep::Fail(error) if error == "reset"
    ));
    let watched = vec!["p1".to_string()];
    assert_eq!(after_snapshot(&None, &watched), Some(false));
    assert_eq!(after_snapshot(&Some(watched.clone()), &watched), None);
    assert_eq!(after_snapshot(&Some(vec![]), &watched), Some(true));
}

#[test]
fn watchers_go_on_stop_or_report() {
    assert!(matches!(after_watch(true, Ok(true)), WatcherNext::Stop));
    assert!(matches!(after_watch(false, Ok(true)), WatcherNext::WatchAgain));
    assert!(matches!(after_watch(false, Ok(false)), WatcherNext::Stop));
    assert!(matches!(
        after_watch(false, Err("gone".to_string())),
        WatcherNext::ReportAndWait(error) if error == "gone"
    ));
}

#[test]
fn readers_report_messages_and_their_end() {
    assert!(matches!(
        reader_event("local", None),
        FleetEvent::Disconnected { instance_id } if instance_id == "local"
    ));
    assert!(matches!(
        reader_event("local", Some(ServerMessage::Other)),
        FleetEvent::ServerMessage { message: ServerMessage::Other, .. }
    ));
    assert!(matches!(
        snapshot_event("local", Err("x".to_string())),
        FleetEvent::Snapshot { result: Err(error), .. } if error == "x"
    ));
}

#[test]
fn added_remotes_join_the_next_fleet() {
    let mut registry = FleetRegistry::default();
    let draw = IdDraw { process: 1, nanos: 2, nonce: 3 };
    registry.add("alice@box".to_string(), None, None, draw).unwrap();
    let instances: Vec<Instance> =
        initial_instances("main".to_string(), "/s".to_string(), &registry, false);
    assert_eq!(instances.len(), 2);
    assert_eq!(instances[1].name, "box");
    assert_eq!(instances[1].id, registry.instances[0].id.as_str());
}

#[test]
fn a_report_that_differs_only_in_its_rest_is_news() {
    let mut state = connected();
    let report = |rest: &str| FleetEvent::Snapshot {
        instance_id: "remote-one".to_string(),
        result: Ok(SessionSnapshot { rest: rest.to_string(), ..snapshot_of(&["p1"]) }),
    };
    assert!(state.handle_fleet_event(report("a")));
    assert!(!state.handle_fleet_event(report("a")));
    assert!(state.handle_fleet_event(report("b")));
    assert!(!state.handle_fleet_event(report("b")));
}
