//! How the configuration shapes the fleet client.

use vstd::prelude::*;
use vstd::string::*;

use crate::app_state::{
    shell_model, AppStateView, KeyChord, KeyChordView, ShellSettings, ShellSettingsView,
};
use crate::compare::{opt_text, opt_view};
use crate::fleet_state::{FleetState, FleetView, HostStateView};
use crate::terminal_theme::{effective_theme, Theme, ThemeRuntime, ThemeRuntimeView, ThemeView};

verus! {

/// What the configuration says that concerns the fleet client.
/// `sidebar_bounds` is the least and greatest width of the sidebar, where the
/// configuration gives valid ones, and `remote_image_paste_key` is an error
/// where the configured key is not one.
#[derive(Debug)]
pub struct ConfigValues {
    pub sidebar_bounds: Option<(u16, u16)>,
    pub sidebar_width: u16,
    pub theme_runtime: ThemeRuntime,
    pub settings: ShellSettings,
    pub mouse_scroll_lines: usize,
    pub redraw_on_focus_gained: bool,
    pub draw_host_cursor: bool,
    pub kitty_graphics_enabled: bool,
    pub remote_image_paste_key: Result<Option<KeyChord>, String>,
}

/// The mathematical model of the configuration.
pub struct ConfigValuesView {
    pub sidebar_bounds: Option<(u16, u16)>,
    pub sidebar_width: u16,
    pub theme_runtime: ThemeRuntimeView,
    pub settings: ShellSettingsView,
    pub mouse_scroll_lines: usize,
    pub redraw_on_focus_gained: bool,
    pub draw_host_cursor: bool,
    pub kitty_graphics_enabled: bool,
    pub remote_image_paste_key: Option<KeyChordView>,
}

impl View for ConfigValues {
    type V = ConfigValuesView;

    open spec fn view(&self) -> ConfigValuesView {
        ConfigValuesView {
            sidebar_bounds: self.sidebar_bounds,
            sidebar_width: self.sidebar_width,
            theme_runtime: self.theme_runtime@,
            settings: self.settings@,
            mouse_scroll_lines: self.mouse_scroll_lines,
            redraw_on_focus_gained: self.redraw_on_focus_gained,
            draw_host_cursor: self.draw_host_cursor,
            kitty_graphics_enabled: self.kitty_graphics_enabled,
            remote_image_paste_key: configured_key(self.remote_image_paste_key),
        }
    }
}

/// The key that is configured, where there is one and it is valid.
pub open spec fn configured_key(key: Result<Option<KeyChord>, String>) -> Option<KeyChordView> {
    match key {
        Ok(key) => opt_view(key),
        Err(_) => None,
    }
}

/// How the fleet client looks and behaves.
#[derive(Debug)]
pub struct FleetVisualConfig {
    pub sidebar_width: u16,
    pub sidebar_min_width: u16,
    pub sidebar_max_width: u16,
    pub theme: Theme,
    pub theme_runtime: ThemeRuntime,
    pub settings: ShellSettings,
    pub mouse_scroll_lines: usize,
    pub redraw_on_focus_gained: bool,
    pub draw_host_cursor: bool,
    pub kitty_graphics_enabled: bool,
    pub remote_image_paste_key: Option<KeyChord>,
}

/// The mathematical model of how the fleet client looks and behaves.
pub struct FleetVisualConfigView {
    pub sidebar_width: u16,
    pub sidebar_min_width: u16,
    pub sidebar_max_width: u16,
    pub theme: ThemeView,
    pub theme_runtime: ThemeRuntimeView,
    pub settings: ShellSettingsView,
    pub mouse_scroll_lines: usize,
    pub redraw_on_focus_gained: bool,
    pub draw_host_cursor: bool,
    pub kitty_graphics_enabled: bool,
    pub remote_image_paste_key: Option<KeyChordView>,
}

impl View for FleetVisualConfig {
    type V = FleetVisualConfigView;

    open spec fn view(&self) -> FleetVisualConfigView {
        FleetVisualConfigView {
            sidebar_width: self.sidebar_width,
            sidebar_min_width: self.sidebar_min_width,
            sidebar_max_width: self.sidebar_max_width,
            theme: self.theme@,
            theme_runtime: self.theme_runtime@,
            settings: self.settings@,
            mouse_scroll_lines: self.mouse_scroll_lines,
            redraw_on_focus_gained: self.redraw_on_focus_gained,
            draw_host_cursor: self.draw_host_cursor,
            kitty_graphics_enabled: self.kitty_graphics_enabled,
            remote_image_paste_key: opt_view(self.remote_image_paste_key),
        }
    }
}

/// The widths that a sidebar may have where the configuration gives none.
pub open spec fn default_bounds() -> (u16, u16) {
    (18, 36)
}

/// A width brought between two bounds.
pub open spec fn clamped(width: u16, min: u16, max: u16) -> u16 {
    if width < min {
        min
    } else if width > max {
        max
    } else {
        width
    }
}

/// A width brought between two bounds.
pub fn clamp_width(width: u16, min: u16, max: u16) -> (r: u16)
    requires
        min <= max,
    ensures
        r == clamped(width, min, max),
        min <= r <= max,
{
    if width < min {
        min
    } else if width > max {
        max
    } else {
        width
    }
}

/// How a configuration has the fleet client look and behave.
pub open spec fn visual_config(config: ConfigValuesView) -> FleetVisualConfigView {
    let (min, max) = match config.sidebar_bounds {
        Some(bounds) => bounds,
        None => default_bounds(),
    };
    FleetVisualConfigView {
        sidebar_width: clamped(config.sidebar_width, min, max),
        sidebar_min_width: min,
        sidebar_max_width: max,
        theme: effective_theme(config.theme_runtime, None),
        theme_runtime: config.theme_runtime,
        settings: config.settings,
        mouse_scroll_lines: config.mouse_scroll_lines,
        redraw_on_focus_gained: config.redraw_on_focus_gained,
        draw_host_cursor: config.draw_host_cursor,
        kitty_graphics_enabled: config.kitty_graphics_enabled,
        remote_image_paste_key: config.remote_image_paste_key,
    }
}

/// How a configuration has the fleet client look and behave.
pub fn fleet_visual_config(config: ConfigValues) -> (r: FleetVisualConfig)
    requires
        config.sidebar_bounds matches Some(bounds) ==> bounds.0 <= bounds.1,
    ensures
        r@ == visual_config(config@),
        r.sidebar_min_width <= r.sidebar_width <= r.sidebar_max_width,
{
    let theme = config.theme_runtime.effective(None).copy();
    let (min, max): (u16, u16) = match config.sidebar_bounds {
        Some(bounds) => bounds,
        None => (18, 36),
    };
    FleetVisualConfig {
        sidebar_width: clamp_width(config.sidebar_width, min, max),
        sidebar_min_width: min,
        sidebar_max_width: max,
        theme,
        theme_runtime: config.theme_runtime,
        settings: config.settings,
        mouse_scroll_lines: config.mouse_scroll_lines,
        redraw_on_focus_gained: config.redraw_on_focus_gained,
        draw_host_cursor: config.draw_host_cursor,
        kitty_graphics_enabled: config.kitty_graphics_enabled,
        remote_image_paste_key: match config.remote_image_paste_key {
            Ok(key) => key,
            Err(_) => None,
        },
    }
}

/// The host as a configuration has it treated.
pub open spec fn configured_host(
    host: HostStateView,
    visual: FleetVisualConfigView,
) -> HostStateView {
    HostStateView {
        sound: visual.settings.sound,
        mouse_scroll_lines: visual.mouse_scroll_lines,
        redraw_on_focus_gained: visual.redraw_on_focus_gained,
        remote_image_paste_key: visual.remote_image_paste_key,
        draw_host_cursor: visual.draw_host_cursor,
        ..host
    }
}

/// The shell as a configuration has it. The sidebar keeps its width as far as
/// the bounds let it.
pub open spec fn configured_shell(
    app: AppStateView,
    visual: FleetVisualConfigView,
) -> AppStateView {
    AppStateView {
        default_sidebar_width: visual.sidebar_width,
        sidebar_min_width: visual.sidebar_min_width,
        sidebar_max_width: visual.sidebar_max_width,
        sidebar_width: clamped(
            app.sidebar_width,
            visual.sidebar_min_width,
            visual.sidebar_max_width,
        ),
        settings: visual.settings,
        theme: visual.theme,
        theme_runtime: visual.theme_runtime,
        ..app
    }
}

/// The fleet client as a configuration has it.
pub open spec fn configured(state: FleetView, visual: FleetVisualConfigView) -> FleetView {
    FleetView {
        host: configured_host(state.host, visual),
        sidebar: configured_shell(state.sidebar, visual),
        visual,
        ..state
    }
}

/// The fleet client once a configuration was read again, with what is to be said
/// of it.
pub open spec fn reloaded(
    state: FleetView,
    config: ConfigValuesView,
    diagnostic: Option<Seq<char>>,
) -> FleetView {
    configured(
        FleetView {
            sidebar: AppStateView { config_diagnostic: diagnostic, ..state.sidebar },
            ..state
        },
        visual_config(config),
    )
}

/// The fleet client with the part of a configuration that concerns the host.
pub open spec fn locally_configured(
    state: FleetView,
    sound: Seq<char>,
    redraw_on_focus_gained: bool,
    draw_host_cursor: bool,
    remote_image_paste_key: Option<KeyChordView>,
) -> FleetView {
    FleetView {
        host: HostStateView {
            sound,
            redraw_on_focus_gained,
            draw_host_cursor,
            remote_image_paste_key,
            ..state.host
        },
        ..state
    }
}

/// The fleet client once the configuration file could not be written.
pub open spec fn write_failed(state: FleetView, context: Seq<char>, error: Seq<char>) -> FleetView {
    FleetView {
        sidebar: AppStateView {
            config_diagnostic: Some("failed to save "@ + context + ": "@ + error),
            ..state.sidebar
        },
        ..state
    }
}

/// A copy of a key that may be absent.
pub fn copy_key(key: &Option<KeyChord>) -> (r: Option<KeyChord>)
    ensures
        r == *key,
{
    match key {
        Some(key) => Some(key.clone()),
        None => None,
    }
}

impl FleetState {
    /// Takes on a configuration.
    pub fn apply_fleet_visual_config(&mut self, visual: FleetVisualConfig)
        requires
            visual.sidebar_min_width <= visual.sidebar_max_width,
        ensures
            final(self)@ == configured(old(self)@, visual@),
    {
        proof {
            reveal(shell_model);
        }
        self.host.sound = visual.settings.sound.clone();
        self.host.mouse_scroll_lines = visual.mouse_scroll_lines;
        self.host.redraw_on_focus_gained = visual.redraw_on_focus_gained;
        self.host.remote_image_paste_key = copy_key(&visual.remote_image_paste_key);
        self.host.draw_host_cursor = visual.draw_host_cursor;
        self.sidebar.default_sidebar_width = visual.sidebar_width;
        self.sidebar.sidebar_min_width = visual.sidebar_min_width;
        self.sidebar.sidebar_max_width = visual.sidebar_max_width;
        self.sidebar.sidebar_width = clamp_width(
            self.sidebar.sidebar_width,
            visual.sidebar_min_width,
            visual.sidebar_max_width,
        );
        self.sidebar.settings = visual.settings.clone();
        self.sidebar.theme = visual.theme.copy();
        self.sidebar.theme_runtime = visual.theme_runtime.copy();
        self.visual = visual;
    }

    /// Takes on a configuration that was read again, and what is to be said of
    /// it.
    pub fn reload_fleet_visual_config(&mut self, config: ConfigValues, diagnostic: Option<String>)
        requires
            config.sidebar_bounds matches Some(bounds) ==> bounds.0 <= bounds.1,
        ensures
            final(self)@ == reloaded(old(self)@, config@, opt_text(diagnostic)),
    {
        proof {
            reveal(shell_model);
        }
        self.sidebar.config_diagnostic = diagnostic;
        self.apply_fleet_visual_config(fleet_visual_config(config));
    }

    /// Takes on the part of a configuration that concerns the host terminal.
    pub fn reload_local_client_config(
        &mut self,
        sound: String,
        redraw_on_focus_gained: bool,
        draw_host_cursor: bool,
        remote_image_paste_key: Option<KeyChord>,
    )
        ensures
            final(self)@ == locally_configured(
                old(self)@,
                sound@,
                redraw_on_focus_gained,
                draw_host_cursor,
                opt_view(remote_image_paste_key),
            ),
    {
        self.host.sound = sound;
        self.host.redraw_on_focus_gained = redraw_on_focus_gained;
        self.host.draw_host_cursor = draw_host_cursor;
        self.host.remote_image_paste_key = remote_image_paste_key;
    }

    /// Says that the configuration file could not be written.
    pub fn config_write_failed(&mut self, context: &str, error: &str)
        ensures
            final(self)@ == write_failed(old(self)@, context@, error@),
    {
        proof {
            reveal(shell_model);
        }
        self.sidebar.config_diagnostic = Some(
            "failed to save ".to_string().concat(context).concat(": ").concat(error),
        );
    }
}

/// A configured sidebar is as wide as its bounds let it be, both as it is and
/// by default.
pub proof fn law_configured_widths_are_in_bounds(state: FleetView, config: ConfigValuesView)
    requires
        config.sidebar_bounds matches Some(bounds) ==> bounds.0 <= bounds.1,
    ensures
        ({
            let shell = configured(state, visual_config(config)).sidebar;
            &&& shell.sidebar_min_width <= shell.sidebar_width <= shell.sidebar_max_width
            &&& shell.sidebar_min_width <= shell.default_sidebar_width <= shell.sidebar_max_width
        }),
{
}

/// Taking on the same configuration again changes nothing.
pub proof fn law_configuring_twice(state: FleetView, visual: FleetVisualConfigView)
    requires
        visual.sidebar_min_width <= visual.sidebar_max_width,
    ensures
        configured(configured(state, visual), visual) == configured(state, visual),
{
}

/// A configuration touches neither the instances nor the rows of the sidebar
/// nor what is wanted done.
pub proof fn law_configuring_keeps_the_fleet(state: FleetView, visual: FleetVisualConfigView)
    ensures
        ({
            let after = configured(state, visual);
            &&& after.instances == state.instances
            &&& after.active == state.active
            &&& after.sidebar.rows == state.sidebar.rows
            &&& after.sidebar.mode == state.sidebar.mode
            &&& after.effects == state.effects
        }),
{
}

/// A width brought between two bounds is the one between them that is nearest.
pub proof fn law_clamped_width_is_nearest(width: u16, min: u16, max: u16, other: u16)
    requires
        min <= other <= max,
    ensures
        min <= clamped(width, min, max) <= max,
        width <= clamped(width, min, max) ==> clamped(width, min, max) - width <= if other < width {
            width - other
        } else {
            other - width
        },
        clamped(width, min, max) <= width ==> width - clamped(width, min, max) <= if other < width {
            width - other
        } else {
            other - width
        },
{
}

/// What a configuration says is what the fleet client goes by: its themes and
/// settings as they are, the theme for a host that is not known yet, and the
/// bounds of the sidebar where it gives some.
pub proof fn law_configuration_is_followed(config: ConfigValuesView)
    ensures
        ({
            let visual = visual_config(config);
            &&& visual.theme_runtime == config.theme_runtime
            &&& visual.theme == config.theme_runtime.unknown
            &&& visual.settings == config.settings
            &&& visual.mouse_scroll_lines == config.mouse_scroll_lines
            &&& visual.redraw_on_focus_gained == config.redraw_on_focus_gained
            &&& visual.draw_host_cursor == config.draw_host_cursor
            &&& visual.kitty_graphics_enabled == config.kitty_graphics_enabled
            &&& visual.remote_image_paste_key == config.remote_image_paste_key
            &&& config.sidebar_bounds matches Some((min, max)) ==> visual.sidebar_min_width == min
                && visual.sidebar_max_width == max
            &&& config.sidebar_bounds is None ==> visual.sidebar_min_width == 18
                && visual.sidebar_max_width == 36
            &&& visual.sidebar_min_width <= config.sidebar_width <= visual.sidebar_max_width
                ==> visual.sidebar_width == config.sidebar_width
            &&& visual.sidebar_min_width <= visual.sidebar_max_width ==> visual.sidebar_min_width
                <= visual.sidebar_width <= visual.sidebar_max_width
            &&& config.sidebar_width < visual.sidebar_min_width ==> visual.sidebar_width
                == visual.sidebar_min_width
        }),
{
}

/// Whatever a shell showed before, it shows the theme of the configuration that
/// it takes on, goes by its settings and themes, and treats the host as it says.
pub proof fn law_configured_shell_shows_its_theme(
    state: FleetView,
    other: FleetView,
    config: ConfigValuesView,
)
    ensures
        ({
            let after = configured(state, visual_config(config));
            &&& after.sidebar.theme == config.theme_runtime.unknown
            &&& after.sidebar.theme == configured(other, visual_config(config)).sidebar.theme
            &&& after.sidebar.theme_runtime == config.theme_runtime
            &&& after.sidebar.settings == config.settings
            &&& after.host.sound == config.settings.sound
            &&& after.host.mouse_scroll_lines == config.mouse_scroll_lines
            &&& after.host.redraw_on_focus_gained == config.redraw_on_focus_gained
            &&& after.host.draw_host_cursor == config.draw_host_cursor
            &&& after.host.remote_image_paste_key == config.remote_image_paste_key
            &&& after.visual == visual_config(config)
        }),
{
}

/// A shell takes on what is configured of its sidebar, and keeps the width that
/// it has where the bounds allow it.
pub proof fn law_configured_sidebar(state: FleetView, visual: FleetVisualConfigView)
    requires
        visual.sidebar_min_width <= visual.sidebar_max_width,
    ensures
        ({
            let after = configured(state, visual).sidebar;
            &&& after.theme == visual.theme
            &&& after.theme_runtime == visual.theme_runtime
            &&& after.settings == visual.settings
            &&& after.default_sidebar_width == visual.sidebar_width
            &&& after.sidebar_min_width == visual.sidebar_min_width
            &&& after.sidebar_max_width == visual.sidebar_max_width
            &&& visual.sidebar_min_width <= state.sidebar.sidebar_width
                <= visual.sidebar_max_width ==> after.sidebar_width == state.sidebar.sidebar_width
            &&& state.sidebar.sidebar_width < visual.sidebar_min_width ==> after.sidebar_width
                == visual.sidebar_min_width
            &&& state.sidebar.sidebar_width > visual.sidebar_max_width ==> after.sidebar_width
                == visual.sidebar_max_width
        }),
{
}

/// A configuration leaves alone what it says nothing of: what is known of the
/// host terminal, what the user is doing, and what the fleet does.
pub proof fn law_configuring_leaves_the_rest(state: FleetView, visual: FleetVisualConfigView)
    ensures
        ({
            let after = configured(state, visual);
            &&& after == (FleetView {
                host: after.host,
                sidebar: after.sidebar,
                visual: after.visual,
                ..state
            })
            &&& after.host == (HostStateView {
                sound: after.host.sound,
                mouse_scroll_lines: after.host.mouse_scroll_lines,
                redraw_on_focus_gained: after.host.redraw_on_focus_gained,
                remote_image_paste_key: after.host.remote_image_paste_key,
                draw_host_cursor: after.host.draw_host_cursor,
                ..state.host
            })
            &&& after.sidebar == (AppStateView {
                default_sidebar_width: after.sidebar.default_sidebar_width,
                sidebar_min_width: after.sidebar.sidebar_min_width,
                sidebar_max_width: after.sidebar.sidebar_max_width,
                sidebar_width: after.sidebar.sidebar_width,
                settings: after.sidebar.settings,
                theme: after.sidebar.theme,
                theme_runtime: after.sidebar.theme_runtime,
                ..state.sidebar
            })
        }),
{
}

/// A configuration that was read again is taken on, and what is to be said of it
/// replaces what was said before.
pub proof fn law_reloading_takes_on_the_configuration(
    state: FleetView,
    config: ConfigValuesView,
    diagnostic: Option<Seq<char>>,
)
    ensures
        ({
            let after = reloaded(state, config, diagnostic);
            &&& after.sidebar.config_diagnostic == diagnostic
            &&& after.sidebar.theme == config.theme_runtime.unknown
            &&& after.sidebar.settings == config.settings
            &&& after.instances == state.instances
            &&& after.effects == state.effects
            &&& (AppStateView {
                config_diagnostic: state.sidebar.config_diagnostic,
                ..after.sidebar
            }) == configured(state, visual_config(config)).sidebar
            &&& after.host == configured(state, visual_config(config)).host
            &&& after.visual == visual_config(config)
        }),
{
}

/// What concerns the host is taken on as it is given, and nothing else changes.
pub proof fn law_local_configuration_concerns_the_host(
    state: FleetView,
    sound: Seq<char>,
    redraw_on_focus_gained: bool,
    draw_host_cursor: bool,
    key: Option<KeyChordView>,
)
    ensures
        ({
            let after = locally_configured(
                state,
                sound,
                redraw_on_focus_gained,
                draw_host_cursor,
                key,
            );
            &&& after.host.sound == sound
            &&& after.host.redraw_on_focus_gained == redraw_on_focus_gained
            &&& after.host.draw_host_cursor == draw_host_cursor
            &&& after.host.remote_image_paste_key == key
            &&& after.host.mouse_scroll_lines == state.host.mouse_scroll_lines
            &&& after.host.kitty_graphics_enabled == state.host.kitty_graphics_enabled
            &&& after.host.repaint_pending == state.host.repaint_pending
            &&& after.host.mouse_capture_active == state.host.mouse_capture_active
            &&& after.host.keyboard_report_all_active == state.host.keyboard_report_all_active
            &&& after.host.reported_cols == state.host.reported_cols
            &&& after.host.reported_rows == state.host.reported_rows
            &&& after == (FleetView { host: after.host, ..state })
        }),
{
}

/// Where the configuration file could not be written, the user is told what was
/// to be saved and why it was not, and all else stays.
pub proof fn law_failed_writes_are_told(state: FleetView, context: Seq<char>, error: Seq<char>)
    ensures
        ({
            let after = write_failed(state, context, error);
            &&& after.sidebar.config_diagnostic matches Some(told) && told == "failed to save "@
                + context + ": "@ + error
            &&& after == (FleetView {
                sidebar: AppStateView {
                    config_diagnostic: after.sidebar.config_diagnostic,
                    ..state.sidebar
                },
                ..state
            })
        }),
{
}

} // verus!
