//! The state of the shell around the terminals: its sidebar, its settings, and
//! the theme that it takes from the host terminal.

use vstd::prelude::*;
use vstd::string::*;

use crate::compare::{opt_text, views};
use crate::frame::{texts, Rect};
use crate::sidebar::{RowView, SidebarRow};
use crate::terminal_theme::{
    effective_theme, with_default_color, with_palette_entries, DefaultColorKind, HostAppearance,
    RgbColor, TerminalTheme, TerminalThemeView, Theme, ThemeRuntime, ThemeRuntimeView, ThemeView,
};

verus! {

/// What the keyboard is used for.
#[derive(Debug, Clone, Copy, PartialEq, Eq, Structural)]
pub enum Mode {
    Terminal,
    Prefix,
    Navigate,
    RenameWorkspace,
    ContextMenu,
    ConfirmClose,
    Other,
}

/// Where the width of the sidebar comes from.
#[derive(Debug, Clone, Copy, PartialEq, Eq, Structural)]
pub enum SidebarWidthSource {
    Config,
    Persisted,
}

/// The order of the agents in their panel.
#[derive(Debug, Clone, Copy, PartialEq, Eq, Structural)]
pub enum AgentPanelSort {
    Spaces,
    Priority,
}

/// Where the sidebar and the content are on the screen.
#[derive(Debug, Clone, Copy, PartialEq, Eq, Structural)]
pub struct ShellView {
    pub sidebar_rect: Rect,
    pub terminal_area: Rect,
}

/// A key with its modifiers, as bits.
#[derive(Debug)]
pub struct KeyChord {
    pub code: String,
    pub modifiers: u8,
}

/// The mathematical model of a key with its modifiers.
pub struct KeyChordView {
    pub code: Seq<char>,
    pub modifiers: u8,
}

impl View for KeyChord {
    type V = KeyChordView;

    open spec fn view(&self) -> KeyChordView {
        KeyChordView { code: self.code@, modifiers: self.modifiers }
    }
}

impl Clone for KeyChord {
    fn clone(&self) -> (r: Self)
        ensures
            r == *self,
    {
        KeyChord { code: self.code.clone(), modifiers: self.modifiers }
    }
}

/// What the user has configured of the shell. Choices and sections that the
/// shell only hands on are kept as the configuration words them.
#[derive(Debug)]
pub struct ShellSettings {
    pub sidebar_collapsed_mode: String,
    pub status_indicators: String,
    pub agent_panel_sort: AgentPanelSort,
    pub sidebar_agents: String,
    pub sidebar_spaces: String,
    pub mouse_capture: bool,
    pub confirm_close: bool,
    pub show_agent_labels_on_pane_borders: bool,
    pub sound: String,
    pub toast: String,
    pub keybinds: String,
    pub prefix_key: KeyChord,
}

/// The mathematical model of what the user has configured.
pub struct ShellSettingsView {
    pub sidebar_collapsed_mode: Seq<char>,
    pub status_indicators: Seq<char>,
    pub agent_panel_sort: AgentPanelSort,
    pub sidebar_agents: Seq<char>,
    pub sidebar_spaces: Seq<char>,
    pub mouse_capture: bool,
    pub confirm_close: bool,
    pub show_agent_labels_on_pane_borders: bool,
    pub sound: Seq<char>,
    pub toast: Seq<char>,
    pub keybinds: Seq<char>,
    pub prefix_key: KeyChordView,
}

impl View for ShellSettings {
    type V = ShellSettingsView;

    open spec fn view(&self) -> ShellSettingsView {
        ShellSettingsView {
            sidebar_collapsed_mode: self.sidebar_collapsed_mode@,
            status_indicators: self.status_indicators@,
            agent_panel_sort: self.agent_panel_sort,
            sidebar_agents: self.sidebar_agents@,
            sidebar_spaces: self.sidebar_spaces@,
            mouse_capture: self.mouse_capture,
            confirm_close: self.confirm_close,
            show_agent_labels_on_pane_borders: self.show_agent_labels_on_pane_borders,
            sound: self.sound@,
            toast: self.toast@,
            keybinds: self.keybinds@,
            prefix_key: self.prefix_key@,
        }
    }
}

impl Clone for ShellSettings {
    fn clone(&self) -> (r: Self)
        ensures
            r == *self,
    {
        ShellSettings {
            sidebar_collapsed_mode: self.sidebar_collapsed_mode.clone(),
            status_indicators: self.status_indicators.clone(),
            agent_panel_sort: self.agent_panel_sort,
            sidebar_agents: self.sidebar_agents.clone(),
            sidebar_spaces: self.sidebar_spaces.clone(),
            mouse_capture: self.mouse_capture,
            confirm_close: self.confirm_close,
            show_agent_labels_on_pane_borders: self.show_agent_labels_on_pane_borders,
            sound: self.sound.clone(),
            toast: self.toast.clone(),
            keybinds: self.keybinds.clone(),
            prefix_key: self.prefix_key.clone(),
        }
    }
}

/// An integration that would be of use here, and whether it has to be
/// installed.
#[derive(Debug)]
pub struct IntegrationRecommendation {
    pub label: String,
    pub needs_install: bool,
}

/// The mathematical model of a recommended integration.
pub struct IntegrationRecommendationView {
    pub label: Seq<char>,
    pub needs_install: bool,
}

impl View for IntegrationRecommendation {
    type V = IntegrationRecommendationView;

    open spec fn view(&self) -> IntegrationRecommendationView {
        IntegrationRecommendationView {
            label: self.label@,
            needs_install: self.needs_install,
        }
    }
}

/// The state of the shell. `dragging` tells whether the mouse is dragging a part
/// of the sidebar, and `sidebar_section_split` holds the bits of a
/// single-precision number.
#[derive(Debug)]
pub struct AppState {
    pub host_terminal_appearance: Option<HostAppearance>,
    pub host_terminal_appearance_explicit: bool,
    pub host_terminal_theme: TerminalTheme,
    pub theme_runtime: ThemeRuntime,
    pub theme: Theme,
    pub mode: Mode,
    pub dragging: bool,
    pub view: ShellView,
    pub default_sidebar_width: u16,
    pub sidebar_width: u16,
    pub sidebar_min_width: u16,
    pub sidebar_max_width: u16,
    pub sidebar_width_source: SidebarWidthSource,
    pub sidebar_section_split: u32,
    pub collapsed_space_keys: Vec<String>,
    pub rows: Vec<SidebarRow>,
    pub active: Option<usize>,
    pub selected: usize,
    pub name_input: String,
    pub config_diagnostic: Option<String>,
    pub session_dirty: bool,
    pub integration_recommendations: Vec<IntegrationRecommendation>,
    pub integration_install_messages: Vec<String>,
    pub settings: ShellSettings,
}

/// The mathematical model of the shell.
pub struct AppStateView {
    pub host_terminal_appearance: Option<HostAppearance>,
    pub host_terminal_appearance_explicit: bool,
    pub host_terminal_theme: TerminalThemeView,
    pub theme_runtime: ThemeRuntimeView,
    pub theme: ThemeView,
    pub mode: Mode,
    pub dragging: bool,
    pub view: ShellView,
    pub default_sidebar_width: u16,
    pub sidebar_width: u16,
    pub sidebar_min_width: u16,
    pub sidebar_max_width: u16,
    pub sidebar_width_source: SidebarWidthSource,
    pub sidebar_section_split: u32,
    pub collapsed_space_keys: Set<Seq<char>>,
    pub rows: Seq<RowView>,
    pub active: Option<usize>,
    pub selected: usize,
    pub name_input: Seq<char>,
    pub config_diagnostic: Option<Seq<char>>,
    pub session_dirty: bool,
    pub integration_recommendations: Seq<IntegrationRecommendationView>,
    pub integration_install_messages: Seq<Seq<char>>,
    pub settings: ShellSettingsView,
}

/// The model of the shell.
#[verifier::opaque]
pub open spec fn shell_model(value: AppState) -> AppStateView {
    AppStateView {
        host_terminal_appearance: value.host_terminal_appearance,
        host_terminal_appearance_explicit: value.host_terminal_appearance_explicit,
        host_terminal_theme: value.host_terminal_theme@,
        theme_runtime: value.theme_runtime@,
        theme: value.theme@,
        mode: value.mode,
        dragging: value.dragging,
        view: value.view,
        default_sidebar_width: value.default_sidebar_width,
        sidebar_width: value.sidebar_width,
        sidebar_min_width: value.sidebar_min_width,
        sidebar_max_width: value.sidebar_max_width,
        sidebar_width_source: value.sidebar_width_source,
        sidebar_section_split: value.sidebar_section_split,
        collapsed_space_keys: texts(value.collapsed_space_keys@).to_set(),
        rows: views(value.rows@),
        active: value.active,
        selected: value.selected,
        name_input: value.name_input@,
        config_diagnostic: opt_text(value.config_diagnostic),
        session_dirty: value.session_dirty,
        integration_recommendations: views(value.integration_recommendations@),
        integration_install_messages: texts(value.integration_install_messages@),
        settings: value.settings@,
    }
}

impl View for AppState {
    type V = AppStateView;

    open spec fn view(&self) -> AppStateView {
        shell_model(*self)
    }
}

/// The shell with the theme that its host's appearance calls for.
pub open spec fn with_effective_theme(app: AppStateView) -> AppStateView {
    AppStateView {
        theme: effective_theme(app.theme_runtime, app.host_terminal_appearance),
        ..app
    }
}

/// The shell once its host's appearance is known.
pub open spec fn with_appearance(
    app: AppStateView,
    appearance: Option<HostAppearance>,
    explicit: bool,
) -> AppStateView {
    if app.host_terminal_appearance == appearance && app.host_terminal_appearance_explicit
        == explicit {
        app
    } else {
        with_effective_theme(
            AppStateView {
                host_terminal_appearance: appearance,
                host_terminal_appearance_explicit: explicit,
                ..app
            },
        )
    }
}

/// The shell once its host's colours are known.
pub open spec fn with_host_theme(app: AppStateView, theme: TerminalThemeView) -> AppStateView {
    AppStateView { host_terminal_theme: theme, ..app }
}

/// The shell once its host has reported a default colour. A background tells
/// the appearance, unless the host has told it in so many words.
pub open spec fn with_reported_color(
    app: AppStateView,
    kind: DefaultColorKind,
    color: RgbColor,
    inferred: HostAppearance,
) -> AppStateView {
    let seen = if kind == DefaultColorKind::Background && !app.host_terminal_appearance_explicit {
        with_appearance(app, Some(inferred), false)
    } else {
        app
    };
    with_host_theme(seen, with_default_color(app.host_terminal_theme, kind, color))
}

/// Whether two shells differ in the theme they show or in their host's colours.
pub open spec fn presents_differently(a: AppStateView, b: AppStateView) -> bool {
    a.theme != b.theme || a.host_terminal_theme != b.host_terminal_theme
}

impl AppState {
    /// Takes in a default colour that the host terminal reports. `inferred` is
    /// the appearance that the colour suggests. Tells whether what is shown
    /// changed.
    pub fn update_host_terminal_theme_state(
        &mut self,
        kind: DefaultColorKind,
        color: RgbColor,
        inferred: HostAppearance,
    ) -> (changed: bool)
        ensures
            final(self)@ == with_reported_color(old(self)@, kind, color, inferred),
            changed == presents_differently(old(self)@, final(self)@),
    {
        proof {
            reveal(shell_model);
        }
        let mut changed: bool = false;
        if matches!(kind, DefaultColorKind::Background) && !self.host_terminal_appearance_explicit {
            changed = self.set_host_terminal_appearance_for_presentation(Some(inferred), false);
        }
        let theme = self.host_terminal_theme.with_color(kind, color);
        let recolored: bool = self.set_host_terminal_theme_for_presentation(theme);
        changed || recolored
    }

    /// Takes in palette colours that the host terminal reports. Tells whether
    /// its colours changed.
    pub fn update_host_terminal_palette_state(&mut self, colors: &Vec<(u8, RgbColor)>) -> (changed:
        bool)
        ensures
            final(self)@ == with_host_theme(
                old(self)@,
                with_palette_entries(old(self)@.host_terminal_theme, colors@),
            ),
            changed == presents_differently(old(self)@, final(self)@),
    {
        proof {
            reveal(shell_model);
        }
        let mut next_theme = self.host_terminal_theme;
        let mut i: usize = 0;
        assert(colors@.take(0) =~= seq![]);
        while i < colors.len()
            invariant
                i <= colors@.len(),
                *self == *old(self),
                next_theme@ == with_palette_entries(
                    old(self)@.host_terminal_theme,
                    colors@.take(i as int),
                ),
            decreases colors@.len() - i,
        {
            proof {
                reveal(shell_model);
            }
            let (index, color) = colors[i];
            next_theme = next_theme.with_palette_color(index, color);
            assert(colors@.take(i + 1).drop_last() =~= colors@.take(i as int));
            i += 1;
        }
        assert(colors@.take(i as int) =~= colors@);
        self.set_host_terminal_theme_for_presentation(next_theme)
    }

    /// Takes in the appearance of the host terminal, and whether the host has
    /// told it in so many words. Tells whether the theme changed.
    pub fn set_host_terminal_appearance_for_presentation(
        &mut self,
        appearance: Option<HostAppearance>,
        explicit: bool,
    ) -> (changed: bool)
        ensures
            final(self)@ == with_appearance(old(self)@, appearance, explicit),
            changed == (final(self)@.theme != old(self)@.theme),
    {
        proof {
            reveal(shell_model);
        }
        if same_appearance(self.host_terminal_appearance, appearance)
            && self.host_terminal_appearance_explicit == explicit {
            return false;
        }
        self.host_terminal_appearance = appearance;
        self.host_terminal_appearance_explicit = explicit;
        self.refresh_effective_theme_for_presentation()
    }

    /// Takes in the colours of the host terminal. Tells whether they changed.
    pub fn set_host_terminal_theme_for_presentation(&mut self, theme: TerminalTheme) -> (changed:
        bool)
        ensures
            final(self)@ == with_host_theme(old(self)@, theme@),
            changed == (theme@ != old(self)@.host_terminal_theme),
    {
        proof {
            reveal(shell_model);
        }
        if theme.equals(&self.host_terminal_theme) {
            return false;
        }
        self.host_terminal_theme = theme;
        true
    }

    /// Takes on the theme that the host's appearance calls for. Tells whether
    /// the theme changed.
    pub fn refresh_effective_theme_for_presentation(&mut self) -> (changed: bool)
        ensures
            final(self)@ == with_effective_theme(old(self)@),
            changed == (final(self)@.theme != old(self)@.theme),
    {
        proof {
            reveal(shell_model);
        }
        let theme = self.theme_runtime.effective(self.host_terminal_appearance).copy();
        if self.theme.equals(&theme) {
            return false;
        }
        self.theme = theme;
        true
    }
}

/// Whether two appearances that may be unknown are the same.
pub fn same_appearance(a: Option<HostAppearance>, b: Option<HostAppearance>) -> (r: bool)
    ensures
        r == (a == b),
{
    match (a, b) {
        (Some(x), Some(y)) => x == y,
        (None, None) => true,
        _ => false,
    }
}

/// What a terminal has been told of the host.
#[derive(Debug)]
pub struct TerminalRuntime {
    pub host_terminal_appearance: Option<HostAppearance>,
    pub host_terminal_theme: TerminalTheme,
}

/// The mathematical model of what a terminal has been told of the host.
pub struct TerminalRuntimeView {
    pub host_terminal_appearance: Option<HostAppearance>,
    pub host_terminal_theme: TerminalThemeView,
}

impl View for TerminalRuntime {
    type V = TerminalRuntimeView;

    open spec fn view(&self) -> TerminalRuntimeView {
        TerminalRuntimeView {
            host_terminal_appearance: self.host_terminal_appearance,
            host_terminal_theme: self.host_terminal_theme@,
        }
    }
}

/// The application: its shell, the terminals that it runs, and whether it has
/// been asked to render.
#[derive(Debug)]
pub struct App {
    pub state: AppState,
    pub terminal_runtimes: Vec<TerminalRuntime>,
    pub render_requested: bool,
}

/// The mathematical model of the application.
pub struct AppView {
    pub state: AppStateView,
    pub terminal_runtimes: Seq<TerminalRuntimeView>,
    pub render_requested: bool,
}

impl View for App {
    type V = AppView;

    open spec fn view(&self) -> AppView {
        AppView {
            state: self.state@,
            terminal_runtimes: views(self.terminal_runtimes@),
            render_requested: self.render_requested,
        }
    }
}

/// The application with another shell.
pub open spec fn with_state(app: AppView, state: AppStateView) -> AppView {
    AppView { state, ..app }
}

/// The application once it has been asked to render.
pub open spec fn with_render_request(app: AppView) -> AppView {
    AppView { render_requested: true, ..app }
}

/// The application once its terminals have been told the host's appearance.
pub open spec fn with_appearance_told(app: AppView) -> AppView {
    AppView {
        terminal_runtimes: app.terminal_runtimes.map_values(
            |runtime: TerminalRuntimeView|
                TerminalRuntimeView {
                    host_terminal_appearance: app.state.host_terminal_appearance,
                    ..runtime
                },
        ),
        ..app
    }
}

/// The application once its terminals have been told the host's colours, which
/// asks for a render.
pub open spec fn with_theme_told(app: AppView) -> AppView {
    AppView {
        terminal_runtimes: app.terminal_runtimes.map_values(
            |runtime: TerminalRuntimeView|
                TerminalRuntimeView {
                    host_terminal_theme: app.state.host_terminal_theme,
                    ..runtime
                },
        ),
        render_requested: true,
        ..app
    }
}

/// The application once its host has reported a default colour, and whether what
/// is shown changed. The terminals are told where it did.
pub open spec fn color_reported(
    app: AppView,
    kind: DefaultColorKind,
    color: RgbColor,
    inferred: HostAppearance,
) -> (AppView, bool) {
    let state = with_reported_color(app.state, kind, color, inferred);
    let seen = with_state(app, state);
    if presents_differently(app.state, state) {
        (with_theme_told(with_appearance_told(seen)), true)
    } else {
        (seen, false)
    }
}

/// The application once its host's colours are known, and whether they changed.
/// The terminals are told where they did.
pub open spec fn colors_known(app: AppView, theme: TerminalThemeView) -> (AppView, bool) {
    let seen = with_state(app, with_host_theme(app.state, theme));
    if theme != app.state.host_terminal_theme {
        (with_theme_told(seen), true)
    } else {
        (seen, false)
    }
}

/// The application once its host's appearance is known, and whether the theme
/// changed. The terminals are told where it did.
pub open spec fn appearance_known(
    app: AppView,
    appearance: Option<HostAppearance>,
    explicit: bool,
) -> (AppView, bool) {
    let state = with_appearance(app.state, appearance, explicit);
    let seen = with_state(app, state);
    if state.theme != app.state.theme {
        (with_render_request(with_appearance_told(seen)), true)
    } else {
        (seen, false)
    }
}

/// The application once an appearance of its host is offered, and whether the
/// theme changed. A guess is not taken where the host has told its appearance in
/// so many words.
pub open spec fn appearance_offered(
    app: AppView,
    appearance: HostAppearance,
    explicit: bool,
) -> (AppView, bool) {
    if app.state.host_terminal_appearance_explicit && !explicit {
        (app, false)
    } else {
        appearance_known(app, Some(appearance), explicit)
    }
}

/// The application with the theme that its host's appearance calls for, and
/// whether the theme changed.
pub open spec fn theme_refreshed(app: AppView) -> (AppView, bool) {
    let state = with_effective_theme(app.state);
    let seen = with_state(app, state);
    if state.theme != app.state.theme {
        (with_render_request(seen), true)
    } else {
        (seen, false)
    }
}

impl App {
    /// Takes in a default colour that the host terminal reports, and tells the
    /// terminals where what is shown changed.
    pub fn update_host_terminal_theme(
        &mut self,
        kind: DefaultColorKind,
        color: RgbColor,
        inferred: HostAppearance,
    ) -> (changed: bool)
        ensures
            (final(self)@, changed) == color_reported(old(self)@, kind, color, inferred),
    {
        let changed: bool = self.state.update_host_terminal_theme_state(kind, color, inferred);
        if changed {
            self.apply_host_terminal_appearance_to_panes();
            self.apply_host_terminal_theme_to_panes();
        }
        changed
    }

    /// Takes in palette colours that the host terminal reports, and tells the
    /// terminals where they changed.
    pub fn update_host_terminal_palette_colors(
        &mut self,
        colors: &Vec<(u8, RgbColor)>,
    ) -> (changed: bool)
        ensures
            (final(self)@, changed) == colors_known(
                old(self)@,
                with_palette_entries(old(self)@.state.host_terminal_theme, colors@),
            ),
    {
        let changed: bool = self.state.update_host_terminal_palette_state(colors);
        if changed {
            self.apply_host_terminal_theme_to_panes();
        }
        changed
    }

    /// Takes in an appearance of the host terminal, unless it is a guess and the
    /// host has told another in so many words.
    pub fn set_host_terminal_appearance(
        &mut self,
        appearance: HostAppearance,
        explicit: bool,
    ) -> (changed: bool)
        ensures
            (final(self)@, changed) == appearance_offered(old(self)@, appearance, explicit),
    {
        proof {
            reveal(shell_model);
        }
        if self.state.host_terminal_appearance_explicit && !explicit {
            return false;
        }
        self.set_host_terminal_appearance_state(Some(appearance), explicit)
    }

    /// Takes in what is known of the host terminal's appearance, and tells the
    /// terminals where the theme changed.
    pub fn set_host_terminal_appearance_state(
        &mut self,
        appearance: Option<HostAppearance>,
        explicit: bool,
    ) -> (changed: bool)
        ensures
            (final(self)@, changed) == appearance_known(old(self)@, appearance, explicit),
    {
        let changed: bool = self.state.set_host_terminal_appearance_for_presentation(
            appearance,
            explicit,
        );
        if changed {
            self.apply_host_terminal_appearance_to_panes();
            self.render_requested = true;
        }
        changed
    }

    /// Takes in the colours of the host terminal, and tells the terminals where
    /// they changed.
    pub fn set_host_terminal_theme(&mut self, theme: TerminalTheme) -> (changed: bool)
        ensures
            (final(self)@, changed) == colors_known(old(self)@, theme@),
    {
        let changed: bool = self.state.set_host_terminal_theme_for_presentation(theme);
        if changed {
            self.apply_host_terminal_theme_to_panes();
        }
        changed
    }

    /// Takes on the theme that the host's appearance calls for, and asks for a
    /// render where that changed the theme.
    pub fn refresh_effective_app_theme(&mut self) -> (changed: bool)
        ensures
            (final(self)@, changed) == theme_refreshed(old(self)@),
    {
        let changed: bool = self.state.refresh_effective_theme_for_presentation();
        if changed {
            self.render_requested = true;
        }
        changed
    }

    /// Tells every terminal the host's appearance.
    pub fn apply_host_terminal_appearance_to_panes(&mut self)
        ensures
            final(self)@ == with_appearance_told(old(self)@),
    {
        proof {
            reveal(shell_model);
        }
        let mut i: usize = 0;
        while i < self.terminal_runtimes.len()
            invariant
                i <= self.terminal_runtimes@.len(),
                self.terminal_runtimes@.len() == old(self).terminal_runtimes@.len(),
                self.state == old(self).state,
                self.render_requested == old(self).render_requested,
                forall|j: int|
                    0 <= j < i ==> (#[trigger] self.terminal_runtimes@[j])@
                        == with_appearance_told(old(self)@).terminal_runtimes[j],
                forall|j: int|
                    i <= j < self.terminal_runtimes@.len() ==> (#[trigger] self.terminal_runtimes@[j])
                        == old(self).terminal_runtimes@[j],
            decreases self.terminal_runtimes@.len() - i,
        {
            proof {
                reveal(shell_model);
            }
            self.terminal_runtimes[i].host_terminal_appearance = self.state.host_terminal_appearance;
            i += 1;
        }
        assert(self@.terminal_runtimes =~= with_appearance_told(old(self)@).terminal_runtimes);
    }

    /// Tells every terminal the host's colours, and asks for a render.
    pub fn apply_host_terminal_theme_to_panes(&mut self)
        ensures
            final(self)@ == with_theme_told(old(self)@),
    {
        proof {
            reveal(shell_model);
        }
        let mut i: usize = 0;
        while i < self.terminal_runtimes.len()
            invariant
                i <= self.terminal_runtimes@.len(),
                self.terminal_runtimes@.len() == old(self).terminal_runtimes@.len(),
                self.state == old(self).state,
                self.render_requested == old(self).render_requested,
                forall|j: int|
                    0 <= j < i ==> (#[trigger] self.terminal_runtimes@[j])@
                        == with_theme_told(old(self)@).terminal_runtimes[j],
                forall|j: int|
                    i <= j < self.terminal_runtimes@.len() ==> (#[trigger] self.terminal_runtimes@[j])
                        == old(self).terminal_runtimes@[j],
            decreases self.terminal_runtimes@.len() - i,
        {
            proof {
                reveal(shell_model);
            }
            self.terminal_runtimes[i].host_terminal_theme = self.state.host_terminal_theme;
            i += 1;
        }
        assert(self@.terminal_runtimes =~= with_theme_told(old(self)@).terminal_runtimes);
        self.render_requested = true;
    }
}

/// Whether a shell shows the theme that its host's appearance calls for.
pub open spec fn is_in_step(app: AppStateView) -> bool {
    app.theme == effective_theme(app.theme_runtime, app.host_terminal_appearance)
}

/// A shell that shows the theme its host calls for goes on doing so, whatever
/// the host reports.
pub proof fn law_theme_follows_the_host(
    app: AppStateView,
    appearance: Option<HostAppearance>,
    explicit: bool,
    kind: DefaultColorKind,
    color: RgbColor,
    inferred: HostAppearance,
    theme: TerminalThemeView,
)
    requires
        is_in_step(app),
    ensures
        is_in_step(with_appearance(app, appearance, explicit)),
        is_in_step(with_reported_color(app, kind, color, inferred)),
        is_in_step(with_host_theme(app, theme)),
{
}

/// Refreshing the theme brings a shell in step with its host, and refreshing it
/// again changes nothing.
pub proof fn law_refresh_brings_in_step(app: AppStateView)
    ensures
        is_in_step(with_effective_theme(app)),
        with_effective_theme(with_effective_theme(app)) == with_effective_theme(app),
{
}

/// An appearance that the host has told in so many words is not overruled by
/// one that is inferred from its background.
pub proof fn law_explicit_appearance_stays(
    app: AppStateView,
    kind: DefaultColorKind,
    color: RgbColor,
    inferred: HostAppearance,
)
    requires
        app.host_terminal_appearance_explicit,
    ensures
        ({
            let after = with_reported_color(app, kind, color, inferred);
            &&& after.host_terminal_appearance == app.host_terminal_appearance
            &&& after.host_terminal_appearance_explicit
            &&& after.theme == app.theme
        }),
{
}

/// A report that is repeated changes nothing the second time.
pub proof fn law_repeated_reports_change_nothing(
    app: AppStateView,
    appearance: Option<HostAppearance>,
    explicit: bool,
    kind: DefaultColorKind,
    color: RgbColor,
    inferred: HostAppearance,
)
    ensures
        with_appearance(with_appearance(app, appearance, explicit), appearance, explicit)
            == with_appearance(app, appearance, explicit),
        with_reported_color(
            with_reported_color(app, kind, color, inferred),
            kind,
            color,
            inferred,
        ) == with_reported_color(app, kind, color, inferred),
{
}

/// Whether every terminal has been told what the shell knows of its host.
pub open spec fn terminals_are_told(app: AppView) -> bool {
    forall|i: int|
        0 <= i < app.terminal_runtimes.len() ==> (#[trigger] app.terminal_runtimes[i])
            == (TerminalRuntimeView {
            host_terminal_appearance: app.state.host_terminal_appearance,
            host_terminal_theme: app.state.host_terminal_theme,
        })
}

/// Once the terminals have been told both the appearance and the colours, each
/// knows what the shell knows, and a render has been asked for.
pub proof fn law_told_terminals_know_the_host(app: AppView)
    ensures
        terminals_are_told(with_theme_told(with_appearance_told(app))),
        with_theme_told(with_appearance_told(app)).render_requested,
        with_theme_told(with_appearance_told(app)).state == app.state,
{
}

/// Whether two shells are the same but for what they know of their host and the
/// theme that they take from it.
pub open spec fn differ_in_presentation(a: AppStateView, b: AppStateView) -> bool {
    b == (AppStateView {
        host_terminal_appearance: b.host_terminal_appearance,
        host_terminal_appearance_explicit: b.host_terminal_appearance_explicit,
        host_terminal_theme: b.host_terminal_theme,
        theme: b.theme,
        ..a
    })
}

/// Whether a theme is the one of a set that goes with an appearance.
pub open spec fn goes_with(
    theme: ThemeView,
    runtime: ThemeRuntimeView,
    appearance: Option<HostAppearance>,
) -> bool {
    &&& appearance is None ==> theme == runtime.unknown
    &&& appearance == Some(HostAppearance::Light) ==> theme == runtime.light
    &&& appearance == Some(HostAppearance::Dark) ==> theme == runtime.dark
}

/// An appearance that is told is the one that is known, with how it was told,
/// and news of it bring the theme that goes with it. Nothing else changes.
pub proof fn law_told_appearance_is_known(
    app: AppStateView,
    appearance: Option<HostAppearance>,
    explicit: bool,
)
    ensures
        ({
            let after = with_appearance(app, appearance, explicit);
            let news = app.host_terminal_appearance != appearance
                || app.host_terminal_appearance_explicit != explicit;
            &&& after.host_terminal_appearance == appearance
            &&& after.host_terminal_appearance_explicit == explicit
            &&& after.host_terminal_theme == app.host_terminal_theme
            &&& differ_in_presentation(app, after)
            &&& news ==> goes_with(after.theme, app.theme_runtime, appearance)
            &&& !news ==> after.theme == app.theme
        }),
{
}

/// Refreshing the theme brings the one that goes with the appearance that is
/// known, and changes nothing else.
pub proof fn law_refreshed_theme_goes_with_the_host(app: AppStateView)
    ensures
        ({
            let after = with_effective_theme(app);
            &&& goes_with(after.theme, app.theme_runtime, app.host_terminal_appearance)
            &&& after == (AppStateView { theme: after.theme, ..app })
        }),
{
}

/// A colour that the host reports is known afterwards. A background also tells
/// the appearance, where the host has not told it in so many words, and with it
/// the theme; a foreground never does.
pub proof fn law_reported_color_is_known(
    app: AppStateView,
    kind: DefaultColorKind,
    color: RgbColor,
    inferred: HostAppearance,
)
    ensures
        ({
            let after = with_reported_color(app, kind, color, inferred);
            &&& kind is Foreground ==> after.host_terminal_theme.foreground == Some(color)
                && after.host_terminal_theme.background == app.host_terminal_theme.background
            &&& kind is Background ==> after.host_terminal_theme.background == Some(color)
                && after.host_terminal_theme.foreground == app.host_terminal_theme.foreground
            &&& after.host_terminal_theme.palette == app.host_terminal_theme.palette
            &&& differ_in_presentation(app, after)
            &&& kind is Foreground ==> after.host_terminal_appearance
                == app.host_terminal_appearance && after.theme == app.theme
            &&& kind is Background && !app.host_terminal_appearance_explicit ==> {
                &&& after.host_terminal_appearance == Some(inferred)
                &&& app.host_terminal_appearance != Some(inferred) ==> goes_with(
                    after.theme,
                    app.theme_runtime,
                    Some(inferred),
                )
                &&& app.host_terminal_appearance == Some(inferred) ==> after.theme == app.theme
            }
            &&& after.host_terminal_appearance_explicit == app.host_terminal_appearance_explicit
        }),
{
}

/// The colours that are told are those that are known, and nothing else
/// changes.
pub proof fn law_told_colors_are_known(app: AppStateView, theme: TerminalThemeView)
    ensures
        with_host_theme(app, theme).host_terminal_theme == theme,
        with_host_theme(app, theme) == (AppStateView { host_terminal_theme: theme, ..app }),
{
}

/// What is shown counts as changed where the theme or the host's colours did,
/// and nowhere else.
pub proof fn law_changes_of_presentation(a: AppStateView, b: AppStateView)
    ensures
        !presents_differently(a, b) <==> a.theme == b.theme && a.host_terminal_theme
            == b.host_terminal_theme,
{
}

/// Whether each terminal of an application was told an appearance and colours.
pub open spec fn all_told(
    app: AppView,
    appearance: Option<HostAppearance>,
    theme: TerminalThemeView,
) -> bool {
    forall|i: int|
        0 <= i < app.terminal_runtimes.len() ==> (#[trigger] app.terminal_runtimes[
            i
        ]).host_terminal_appearance == appearance && app.terminal_runtimes[i].host_terminal_theme
            == theme
}

/// Telling the terminals the appearance leaves the colours they know, and telling
/// them the colours leaves the appearance; no terminal comes or goes.
pub proof fn law_terminals_are_told_one_thing_at_a_time(app: AppView, i: int)
    requires
        0 <= i < app.terminal_runtimes.len(),
    ensures
        ({
            let seen = with_appearance_told(app);
            let colored = with_theme_told(app);
            &&& seen.terminal_runtimes.len() == app.terminal_runtimes.len()
            &&& colored.terminal_runtimes.len() == app.terminal_runtimes.len()
            &&& seen.terminal_runtimes[i].host_terminal_appearance
                == app.state.host_terminal_appearance
            &&& seen.terminal_runtimes[i].host_terminal_theme
                == app.terminal_runtimes[i].host_terminal_theme
            &&& colored.terminal_runtimes[i].host_terminal_theme == app.state.host_terminal_theme
            &&& colored.terminal_runtimes[i].host_terminal_appearance
                == app.terminal_runtimes[i].host_terminal_appearance
            &&& seen.state == app.state && colored.state == app.state
            &&& seen.render_requested == app.render_requested
            &&& colored.render_requested
        }),
{
}

/// A default colour that changes what is shown is passed on to every terminal,
/// with the appearance, and asks for a render. One that changes nothing reaches
/// none.
pub proof fn law_color_reports_reach_the_terminals(
    app: AppView,
    kind: DefaultColorKind,
    color: RgbColor,
    inferred: HostAppearance,
)
    ensures
        ({
            let (after, changed) = color_reported(app, kind, color, inferred);
            &&& after.state == with_reported_color(app.state, kind, color, inferred)
            &&& changed <==> after.state.theme != app.state.theme
                || after.state.host_terminal_theme != app.state.host_terminal_theme
            &&& changed ==> after.render_requested && all_told(
                after,
                after.state.host_terminal_appearance,
                after.state.host_terminal_theme,
            )
            &&& !changed ==> after.render_requested == app.render_requested
                && after.terminal_runtimes == app.terminal_runtimes
            &&& after.terminal_runtimes.len() == app.terminal_runtimes.len()
        }),
{
}

/// Colours of the host that are news are passed on to every terminal, and ask
/// for a render. The appearance that a terminal knows stays.
pub proof fn law_known_colors_reach_the_terminals(app: AppView, theme: TerminalThemeView, i: int)
    requires
        0 <= i < app.terminal_runtimes.len(),
    ensures
        ({
            let (after, changed) = colors_known(app, theme);
            &&& after.state == (AppStateView { host_terminal_theme: theme, ..app.state })
            &&& changed <==> app.state.host_terminal_theme != theme
            &&& changed ==> after.render_requested
                && after.terminal_runtimes[i].host_terminal_theme == theme
            &&& !changed ==> after.render_requested == app.render_requested
                && after.terminal_runtimes == app.terminal_runtimes
            &&& after.terminal_runtimes[i].host_terminal_appearance
                == app.terminal_runtimes[i].host_terminal_appearance
        }),
{
}

/// An appearance that changes the theme is passed on to every terminal, and asks
/// for a render. A guess against what the host has told changes nothing at all.
pub proof fn law_known_appearance_reaches_the_terminals(
    app: AppView,
    appearance: HostAppearance,
    explicit: bool,
    i: int,
)
    requires
        0 <= i < app.terminal_runtimes.len(),
    ensures
        ({
            let (after, changed) = appearance_offered(app, appearance, explicit);
            let is_taken = explicit || !app.state.host_terminal_appearance_explicit;
            &&& !is_taken ==> after == app && !changed
            &&& is_taken ==> (after, changed) == appearance_known(app, Some(appearance), explicit)
        }),
        ({
            let (after, changed) = appearance_known(app, Some(appearance), explicit);
            &&& after.state == with_appearance(app.state, Some(appearance), explicit)
            &&& changed <==> after.state.theme != app.state.theme
            &&& changed ==> after.render_requested
                && after.terminal_runtimes[i].host_terminal_appearance == Some(appearance)
            &&& !changed ==> after.render_requested == app.render_requested
                && after.terminal_runtimes == app.terminal_runtimes
            &&& after.terminal_runtimes[i].host_terminal_theme
                == app.terminal_runtimes[i].host_terminal_theme
        }),
{
}

/// Refreshing the theme of an application asks for a render where the theme
/// changed, and tells the terminals nothing.
pub proof fn law_refreshing_asks_for_a_render(app: AppView)
    ensures
        ({
            let (after, changed) = theme_refreshed(app);
            &&& goes_with(
                after.state.theme,
                app.state.theme_runtime,
                app.state.host_terminal_appearance,
            )
            &&& after.state == (AppStateView { theme: after.state.theme, ..app.state })
            &&& changed <==> after.state.theme != app.state.theme
            &&& after.render_requested <==> app.render_requested || changed
            &&& after.terminal_runtimes == app.terminal_runtimes
        }),
{
}

} // verus!
