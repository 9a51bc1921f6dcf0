use herdr_fleet::app_state::{
    App, AgentPanelSort, AppState, KeyChord, Mode, ShellSettings, ShellView, SidebarWidthSource,
    TerminalRuntime,
};
use herdr_fleet::frame::Rect;
use herdr_fleet::terminal_theme::{
    DefaultColorKind, HostAppearance, RgbColor, TerminalTheme, Theme, ThemeRuntime,
};

fn theme(name: &str, color: u32) -> Theme {
    Theme { name: name.to_string(), palette: vec![color] }
}

fn runtime() -> ThemeRuntime {
    ThemeRuntime { unknown: theme("plain", 0), light: theme("day", 1), dark: theme("night", 2) }
}

fn shell() -> AppState {
    let rect = Rect { x: 0, y: 0, width: 0, height: 0 };
    AppState {
        host_terminal_appearance: None,
        host_terminal_appearance_explicit: false,
        host_terminal_theme: TerminalTheme::unknown(),
        theme_runtime: runtime(),
        theme: theme("plain", 0),
        mode: Mode::Terminal,
        dragging: false,
        view: ShellView { sidebar_rect: rect, terminal_area: rect },
        default_sidebar_width: 20,
        sidebar_width: 20,
        sidebar_min_width: 18,
        sidebar_max_width: 36,
        sidebar_width_source: SidebarWidthSource::Config,
        sidebar_section_split: 0,
        collapsed_space_keys: vec![],
        rows: vec![],
        active: None,
        selected: 0,
        name_input: String::new(),
        config_diagnostic: None,
        session_dirty: false,
        integration_recommendations: vec![],
        integration_install_messages: vec![],
        settings: ShellSettings {
            sidebar_collapsed_mode: "compact".to_string(),
            status_indicators: "dots".to_string(),
            agent_panel_sort: AgentPanelSort::Spaces,
            sidebar_agents: String::new(),
            sidebar_spaces: String::new(),
            mouse_capture: true,
            confirm_close: true,
            show_agent_labels_on_pane_borders: false,
            sound: "on".to_string(),
            toast: "off".to_string(),
            keybinds: String::new(),
            prefix_key: KeyChord { code: "b".to_string(), modifiers: 2 },
        },
    }
}

fn app() -> App {
    App {
        state: shell(),
        terminal_runtimes: vec![
            TerminalRuntime {
                host_terminal_appearance: None,
                host_terminal_theme: TerminalTheme::unknown(),
            },
            TerminalRuntime {
                host_terminal_appearance: None,
                host_terminal_theme: TerminalTheme::unknown(),
            },
        ],
        render_requested: false,
    }
}

const RED: RgbColor = RgbColor { r: 255, g: 0, b: 0 };
const BLACK: RgbColor = RgbColor { r: 0, g: 0, b: 0 };

#[test]
fn a_background_tells_the_appearance() {
    let mut shell = shell();
    assert!(shell.update_host_terminal_theme_state(
        DefaultColorKind::Background,
        BLACK,
        HostAppearance::Dark
    ));
    assert_eq!(shell.theme.name, "night");
    assert_eq!(shell.host_terminal_appearance, Some(HostAppearance::Dark));
    assert!(!shell.host_terminal_appearance_explicit);
    assert_eq!(shell.host_terminal_theme.background, Some(BLACK));
    assert!(!shell.update_host_terminal_theme_state(
        DefaultColorKind::Background,
        BLACK,
        HostAppearance::Dark
    ));
}

#[test]
fn a_foreground_tells_nothing_of_the_appearance() {
    let mut shell = shell();
    assert!(shell.update_host_terminal_theme_state(
        DefaultColorKind::Foreground,
        RED,
        HostAppearance::Light
    ));
    assert_eq!(shell.host_terminal_appearance, None);
    assert_eq!(shell.theme.name, "plain");
    assert_eq!(shell.host_terminal_theme.foreground, Some(RED));
}

#[test]
fn what_the_host_says_goes_before_what_it_shows() {
    let mut shell = shell();
    assert!(shell
        .set_host_terminal_appearance_for_presentation(Some(HostAppearance::Light), true));
    assert_eq!(shell.theme.name, "day");
    assert!(shell.update_host_terminal_theme_state(
        DefaultColorKind::Background,
        BLACK,
        HostAppearance::Dark
    ));
    assert_eq!(shell.theme.name, "day");
    assert_eq!(shell.host_terminal_appearance, Some(HostAppearance::Light));
}

#[test]
fn an_appearance_without_a_theme_of_its_own_changes_nothing() {
    let mut shell = shell();
    shell.theme_runtime.light = theme("plain", 0);
    assert!(!shell
        .set_host_terminal_appearance_for_presentation(Some(HostAppearance::Light), false));
    assert_eq!(shell.host_terminal_appearance, Some(HostAppearance::Light));
    shell.theme_runtime.light = theme("plain", 7);
    assert!(shell.refresh_effective_theme_for_presentation());
    assert_eq!(shell.theme.palette, vec![7]);
    assert!(!shell.refresh_effective_theme_for_presentation());
}

#[test]
fn the_last_palette_report_wins() {
    let mut shell = shell();
    assert!(shell.update_host_terminal_palette_state(&vec![(3, BLACK), (255, BLACK), (3, RED)]));
    assert_eq!(shell.host_terminal_theme.palette[3], Some(RED));
    assert_eq!(shell.host_terminal_theme.palette[255], Some(BLACK));
    assert_eq!(shell.host_terminal_theme.palette[4], None);
    assert!(!shell.update_host_terminal_palette_state(&vec![(3, RED)]));
    assert!(!shell.update_host_terminal_palette_state(&vec![]));
}

#[test]
fn terminals_are_told_what_changed() {
    let mut app = app();
    assert!(app.update_host_terminal_theme(
        DefaultColorKind::Background,
        BLACK,
        HostAppearance::Dark
    ));
    for terminal in &app.terminal_runtimes {
        assert_eq!(terminal.host_terminal_appearance, Some(HostAppearance::Dark));
        assert_eq!(terminal.host_terminal_theme.background, Some(BLACK));
    }
    assert!(app.render_requested);
}

#[test]
fn terminals_are_not_told_what_did_not_change() {
    let mut app = app();
    assert!(!app.update_host_terminal_palette_colors(&vec![]));
    assert!(!app.set_host_terminal_theme(TerminalTheme::unknown()));
    assert!(!app.refresh_effective_app_theme());
    assert!(!app.set_host_terminal_appearance_state(None, false));
    assert!(!app.render_requested);
    assert!(app.update_host_terminal_palette_colors(&vec![(1, RED)]));
    assert_eq!(app.terminal_runtimes[1].host_terminal_theme.palette[1], Some(RED));
    assert!(app.render_requested);
}

#[test]
fn a_guess_does_not_overrule_the_host() {
    let mut app = app();
    assert!(app.set_host_terminal_appearance(HostAppearance::Light, true));
    assert!(app.render_requested);
    assert_eq!(app.terminal_runtimes[0].host_terminal_appearance, Some(HostAppearance::Light));
    assert!(!app.set_host_terminal_appearance(HostAppearance::Dark, false));
    assert_eq!(app.state.theme.name, "day");
    assert!(app.set_host_terminal_appearance(HostAppearance::Dark, true));
    assert_eq!(app.state.theme.name, "night");
}
