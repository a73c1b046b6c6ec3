//! Colors, text effects and the theme that picks among them.

use vstd::prelude::*;

verus! {

/// One of the eight base colors of a terminal.
#[derive(Clone, Copy, Debug, PartialEq, Eq, Structural, Hash)]
pub enum BaseColor {
    Black,
    Red,
    Green,
    Yellow,
    Blue,
    Magenta,
    Cyan,
    White,
}

/// A color that a backend can show.
#[derive(Clone, Copy, Debug, PartialEq, Eq, Structural, Hash)]
pub enum Color {
    /// The terminal's own default.
    TerminalDefault,
    /// A base color, dark.
    Dark(BaseColor),
    /// A base color, bright.
    Light(BaseColor),
    /// Red, green and blue, each from 0 to 255.
    Rgb(u8, u8, u8),
}

/// A foreground and a background color.
#[derive(Clone, Copy, Debug, PartialEq, Eq, Structural, Hash)]
pub struct ColorPair {
    pub front: Color,
    pub back: Color,
}

/// A text effect.
#[derive(Clone, Copy, Debug, PartialEq, Eq, Structural, Hash)]
pub enum Effect {
    Simple,
    Reverse,
    Bold,
    Italic,
    Underline,
}

/// How borders are drawn.
#[derive(Clone, Copy, Debug, PartialEq, Eq, Structural, Hash)]
pub enum BorderStyle {
    /// No border at all.
    Hidden,
    /// A plain frame.
    Simple,
    /// A frame that looks raised.
    Outset,
}

/// The roles that a theme gives a color to.
#[derive(Clone, Copy, Debug, PartialEq, Eq, Structural, Hash)]
pub enum PaletteColor {
    /// Behind every view.
    Background,
    /// The shadow under a layer.
    Shadow,
    /// The inside of a view.
    View,
    /// Ordinary text.
    Primary,
    /// Less important text.
    Secondary,
    /// Least important text.
    Tertiary,
    /// The title of a focused view.
    TitlePrimary,
    /// The title of another view.
    TitleSecondary,
    /// What is selected and focused.
    Highlight,
    /// What is selected and not focused.
    HighlightInactive,
}

/// One color for each role.
#[derive(Clone, Copy, Debug, PartialEq, Eq, Structural, Hash)]
pub struct Palette {
    pub background: Color,
    pub shadow: Color,
    pub view: Color,
    pub primary: Color,
    pub secondary: Color,
    pub tertiary: Color,
    pub title_primary: Color,
    pub title_secondary: Color,
    pub highlight: Color,
    pub highlight_inactive: Color,
}

/// How the application looks.
#[derive(Clone, Copy, Debug, PartialEq, Eq, Structural, Hash)]
pub struct Theme {
    /// Whether layers cast a shadow.
    pub shadow: bool,
    /// How borders are drawn.
    pub borders: BorderStyle,
    /// The colors.
    pub palette: Palette,
}

/// Why a theme could not be loaded.
#[derive(Clone, Copy, Debug, PartialEq, Eq, Structural, Hash)]
pub enum Error {
    /// The source could not be read.
    Io,
    /// The source is not a valid theme description.
    Parse,
}

impl Palette {
    /// The color of `role`.
    pub open spec fn spec_color(self, role: PaletteColor) -> Color {
        match role {
            PaletteColor::Background => self.background,
            PaletteColor::Shadow => self.shadow,
            PaletteColor::View => self.view,
            PaletteColor::Primary => self.primary,
            PaletteColor::Secondary => self.secondary,
            PaletteColor::Tertiary => self.tertiary,
            PaletteColor::TitlePrimary => self.title_primary,
            PaletteColor::TitleSecondary => self.title_secondary,
            PaletteColor::Highlight => self.highlight,
            PaletteColor::HighlightInactive => self.highlight_inactive,
        }
    }

    /// Looks up the color that the palette gives to `role`.
    #[verifier::when_used_as_spec(spec_color)]
    pub fn color(self, role: PaletteColor) -> (c: Color)
        ensures
            c == self.spec_color(role),
    {
        match role {
            PaletteColor::Background => self.background,
            PaletteColor::Shadow => self.shadow,
            PaletteColor::View => self.view,
            PaletteColor::Primary => self.primary,
            PaletteColor::Secondary => self.secondary,
            PaletteColor::Tertiary => self.tertiary,
            PaletteColor::TitlePrimary => self.title_primary,
            PaletteColor::TitleSecondary => self.title_secondary,
            PaletteColor::Highlight => self.highlight,
            PaletteColor::HighlightInactive => self.highlight_inactive,
        }
    }
}

/// The built-in theme.
pub open spec fn default_theme() -> Theme {
    Theme {
        shadow: true,
        borders: BorderStyle::Simple,
        palette: Palette {
            background: Color::Dark(BaseColor::Blue),
            shadow: Color::Dark(BaseColor::Black),
            view: Color::Dark(BaseColor::White),
            primary: Color::Dark(BaseColor::Black),
            secondary: Color::Dark(BaseColor::Blue),
            tertiary: Color::Light(BaseColor::White),
            title_primary: Color::Dark(BaseColor::Red),
            title_secondary: Color::Dark(BaseColor::Yellow),
            highlight: Color::Dark(BaseColor::Red),
            highlight_inactive: Color::Dark(BaseColor::Blue),
        },
    }
}

/// Returns the built-in theme: shadows on, simple borders, a blue
/// background.
pub fn load_default() -> (t: Theme)
    ensures
        t == default_theme(),
{
    Theme {
        shadow: true,
        borders: BorderStyle::Simple,
        palette: Palette {
            background: Color::Dark(BaseColor::Blue),
            shadow: Color::Dark(BaseColor::Black),
            view: Color::Dark(BaseColor::White),
            primary: Color::Dark(BaseColor::Black),
            secondary: Color::Dark(BaseColor::Blue),
            tertiary: Color::Light(BaseColor::White),
            title_primary: Color::Dark(BaseColor::Red),
            title_secondary: Color::Dark(BaseColor::Yellow),
            highlight: Color::Dark(BaseColor::Red),
            highlight_inactive: Color::Dark(BaseColor::Blue),
        },
    }
}

} // verus!
