//! The colours of the host terminal, and the themes of the application.

use vstd::prelude::*;
use vstd::string::*;

use crate::text::same_text;

verus! {

/// A colour.
#[derive(Debug, Clone, Copy, PartialEq, Eq, Structural)]
pub struct RgbColor {
    pub r: u8,
    pub g: u8,
    pub b: u8,
}

/// Which of the terminal's default colours a report is about.
#[derive(Debug, Clone, Copy, PartialEq, Eq, Structural)]
pub enum DefaultColorKind {
    Foreground,
    Background,
}

/// Whether the host terminal is light or dark.
#[derive(Debug, Clone, Copy, PartialEq, Eq, Structural)]
pub enum HostAppearance {
    Light,
    Dark,
}

/// The colours that the host terminal has reported.
#[derive(Debug, Clone, Copy)]
pub struct TerminalTheme {
    pub foreground: Option<RgbColor>,
    pub background: Option<RgbColor>,
    pub palette: [Option<RgbColor>; 256],
}

/// The mathematical model of the reported colours.
pub struct TerminalThemeView {
    pub foreground: Option<RgbColor>,
    pub background: Option<RgbColor>,
    pub palette: Seq<Option<RgbColor>>,
}

impl View for TerminalTheme {
    type V = TerminalThemeView;

    open spec fn view(&self) -> TerminalThemeView {
        TerminalThemeView {
            foreground: self.foreground,
            background: self.background,
            palette: self.palette@,
        }
    }
}

/// The reported colours with one of the defaults replaced.
pub open spec fn with_default_color(
    theme: TerminalThemeView,
    kind: DefaultColorKind,
    color: RgbColor,
) -> TerminalThemeView {
    match kind {
        DefaultColorKind::Foreground => TerminalThemeView { foreground: Some(color), ..theme },
        DefaultColorKind::Background => TerminalThemeView { background: Some(color), ..theme },
    }
}

/// The reported colours with one of the palette replaced.
pub open spec fn with_palette_entry(
    theme: TerminalThemeView,
    index: u8,
    color: RgbColor,
) -> TerminalThemeView {
    TerminalThemeView { palette: theme.palette.update(index as int, Some(color)), ..theme }
}

/// The reported colours with a list of palette colours put in, in order.
pub open spec fn with_palette_entries(
    theme: TerminalThemeView,
    colors: Seq<(u8, RgbColor)>,
) -> TerminalThemeView
    decreases colors.len(),
{
    if colors.len() == 0 {
        theme
    } else {
        with_palette_entry(
            with_palette_entries(theme, colors.drop_last()),
            colors.last().0,
            colors.last().1,
        )
    }
}

/// Whether two colours that may be absent are the same.
fn same_color(a: Option<RgbColor>, b: Option<RgbColor>) -> (r: bool)
    ensures
        r == (a == b),
{
    match (a, b) {
        (Some(x), Some(y)) => x == y,
        (None, None) => true,
        _ => false,
    }
}

/// The theme of a terminal that has reported nothing.
pub open spec fn unknown_theme() -> TerminalThemeView {
    TerminalThemeView {
        foreground: None,
        background: None,
        palette: Seq::new(256, |i: int| None),
    }
}

impl TerminalTheme {
    /// The theme of a terminal that has reported nothing.
    pub fn unknown() -> (r: Self)
        ensures
            r@ == unknown_theme(),
    {
        let r = TerminalTheme { foreground: None, background: None, palette: [None;256] };
        assert(r@.palette =~= Seq::new(256, |i: int| None));
        r
    }

    /// Replaces one of the default colours.
    pub fn with_color(self, kind: DefaultColorKind, color: RgbColor) -> (r: Self)
        ensures
            r@ == with_default_color(self@, kind, color),
    {
        let mut next = self;
        match kind {
            DefaultColorKind::Foreground => {
                next.foreground = Some(color);
            },
            DefaultColorKind::Background => {
                next.background = Some(color);
            },
        }
        next
    }

    /// Replaces a colour of the palette.
    pub fn with_palette_color(self, index: u8, color: RgbColor) -> (r: Self)
        ensures
            r@ == with_palette_entry(self@, index, color),
    {
        let mut next = self;
        next.palette[index as usize] = Some(color);
        next
    }

    /// Whether two terminals have reported the same colours.
    pub fn equals(&self, other: &Self) -> (r: bool)
        ensures
            r == (self@ == other@),
    {
        let mut i: usize = 0;
        while i < 256
            invariant
                i <= 256,
                forall|j: int| 0 <= j < i ==> self.palette@[j] == other.palette@[j],
            decreases 256 - i,
        {
            if !same_color(self.palette[i], other.palette[i]) {
                assert(self@.palette[i as int] != other@.palette[i as int]);
                return false;
            }
            i += 1;
        }
        assert(self@.palette =~= other@.palette);
        same_color(self.foreground, other.foreground) && same_color(
            self.background,
            other.background,
        )
    }
}

/// A theme of the application: its name, and its colours as cells hold them.
#[derive(Debug)]
pub struct Theme {
    pub name: String,
    pub palette: Vec<u32>,
}

/// The mathematical model of a theme.
pub struct ThemeView {
    pub name: Seq<char>,
    pub palette: Seq<u32>,
}

impl View for Theme {
    type V = ThemeView;

    open spec fn view(&self) -> ThemeView {
        ThemeView { name: self.name@, palette: self.palette@ }
    }
}

impl Theme {
    /// Whether two themes have the same name and colours.
    pub fn equals(&self, other: &Self) -> (r: bool)
        ensures
            r == (self@ == other@),
    {
        if self.palette.len() != other.palette.len() {
            assert(self@.palette.len() != other@.palette.len());
            return false;
        }
        let mut i: usize = 0;
        while i < self.palette.len()
            invariant
                self.palette@.len() == other.palette@.len(),
                i <= self.palette@.len(),
                forall|j: int| 0 <= j < i ==> self.palette@[j] == other.palette@[j],
            decreases self.palette@.len() - i,
        {
            if self.palette[i] != other.palette[i] {
                assert(self@.palette[i as int] != other@.palette[i as int]);
                return false;
            }
            i += 1;
        }
        assert(self@.palette =~= other@.palette);
        same_text(self.name.as_str(), other.name.as_str())
    }

    /// A copy of the theme.
    pub fn copy(&self) -> (r: Self)
        ensures
            r@ == self@,
    {
        let mut palette: Vec<u32> = Vec::new();
        let mut i: usize = 0;
        while i < self.palette.len()
            invariant
                i <= self.palette@.len(),
                palette@ == self.palette@.take(i as int),
            decreases self.palette@.len() - i,
        {
            palette.push(self.palette[i]);
            assert(palette@ =~= self.palette@.take(i + 1));
            i += 1;
        }
        assert(self.palette@.take(i as int) =~= self.palette@);
        Theme { name: self.name.clone(), palette }
    }
}

/// The themes that the configuration chooses from: for a host terminal whose
/// appearance is not known, for a light one, and for a dark one.
#[derive(Debug)]
pub struct ThemeRuntime {
    pub unknown: Theme,
    pub light: Theme,
    pub dark: Theme,
}

/// The mathematical model of the themes to choose from.
pub struct ThemeRuntimeView {
    pub unknown: ThemeView,
    pub light: ThemeView,
    pub dark: ThemeView,
}

impl View for ThemeRuntime {
    type V = ThemeRuntimeView;

    open spec fn view(&self) -> ThemeRuntimeView {
        ThemeRuntimeView { unknown: self.unknown@, light: self.light@, dark: self.dark@ }
    }
}

/// The theme for an appearance.
pub open spec fn effective_theme(
    runtime: ThemeRuntimeView,
    appearance: Option<HostAppearance>,
) -> ThemeView {
    match appearance {
        None => runtime.unknown,
        Some(HostAppearance::Light) => runtime.light,
        Some(HostAppearance::Dark) => runtime.dark,
    }
}

impl ThemeRuntime {
    /// The theme for an appearance.
    pub fn effective(&self, appearance: Option<HostAppearance>) -> (r: &Theme)
        ensures
            r@ == effective_theme(self@, appearance),
    {
        match appearance {
            None => &self.unknown,
            Some(HostAppearance::Light) => &self.light,
            Some(HostAppearance::Dark) => &self.dark,
        }
    }

    /// A copy of the themes.
    pub fn copy(&self) -> (r: Self)
        ensures
            r@ == self@,
    {
        ThemeRuntime {
            unknown: self.unknown.copy(),
            light: self.light.copy(),
            dark: self.dark.copy(),
        }
    }
}

/// The colour that a list gives an index is the last one it names for it;
/// the others stay.
pub proof fn law_last_palette_report_wins(
    theme: TerminalThemeView,
    colors: Seq<(u8, RgbColor)>,
    index: u8,
)
    requires
        theme.palette.len() == 256,
    ensures
        with_palette_entries(theme, colors).palette.len() == 256,
        with_palette_entries(theme, colors).foreground == theme.foreground,
        with_palette_entries(theme, colors).background == theme.background,
        forall|i: int|
            0 <= i < colors.len() && (#[trigger] colors[i]).0 == index && (forall|j: int|
                i < j < colors.len() ==> (#[trigger] colors[j]).0 != index)
                ==> with_palette_entries(theme, colors).palette[index as int] == Some(colors[i].1),
        (forall|i: int| 0 <= i < colors.len() ==> (#[trigger] colors[i]).0 != index)
            ==> with_palette_entries(theme, colors).palette[index as int]
            == theme.palette[index as int],
    decreases colors.len(),
{
    if colors.len() > 0 {
        let front = colors.drop_last();
        law_last_palette_report_wins(theme, front, index);
        assert forall|i: int|
            0 <= i < colors.len() && (#[trigger] colors[i]).0 == index && (forall|j: int|
                i < j < colors.len() ==> (#[trigger] colors[j]).0
                    != index) implies with_palette_entries(theme, colors).palette[index as int]
            == Some(colors[i].1) by {
            if i < front.len() {
                assert(colors[colors.len() - 1].0 != index);
                assert(front[i] == colors[i]);
                assert forall|j: int| i < j < front.len() implies (#[trigger] front[j]).0
                    != index by {
                    assert(front[j] == colors[j]);
                }
            }
        }
        if forall|i: int| 0 <= i < colors.len() ==> (#[trigger] colors[i]).0 != index {
            assert(colors[colors.len() - 1].0 != index);
            assert forall|i: int| 0 <= i < front.len() implies (#[trigger] front[i]).0
                != index by {
                assert(front[i] == colors[i]);
            }
        }
    }
}

/// A report of a default colour sets that colour, and leaves the other one and
/// the palette as they were.
pub proof fn law_reported_default_is_kept(
    theme: TerminalThemeView,
    kind: DefaultColorKind,
    color: RgbColor,
)
    ensures
        ({
            let after = with_default_color(theme, kind, color);
            &&& after.palette == theme.palette
            &&& after.foreground == if kind is Foreground {
                Some(color)
            } else {
                theme.foreground
            }
            &&& after.background == if kind is Background {
                Some(color)
            } else {
                theme.background
            }
        }),
{
}

/// A light terminal gets the light theme, a dark one the dark theme, and one
/// that is not known to be either gets the theme for that.
pub proof fn law_themes_match_the_appearance(runtime: ThemeRuntimeView)
    ensures
        effective_theme(runtime, Some(HostAppearance::Light)) == runtime.light,
        effective_theme(runtime, Some(HostAppearance::Dark)) == runtime.dark,
        effective_theme(runtime, None) == runtime.unknown,
{
}

/// Of a terminal that has reported nothing no colour is known.
pub proof fn law_unreported_colors_are_unknown(i: int)
    requires
        0 <= i < 256,
    ensures
        unknown_theme().foreground is None,
        unknown_theme().background is None,
        unknown_theme().palette.len() == 256,
        unknown_theme().palette[i] is None,
{
}

} // verus!
