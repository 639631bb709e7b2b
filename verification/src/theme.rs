//! The application's UI theme: the palette the widget styling draws from,
//! and the plain style-variant selectors the widgets are tagged with. The
//! widget toolkit's appearance structs are built from these colours by the
//! UI layer.

use vstd::prelude::*;

verus! {

/// An sRGB colour with 8-bit channels.
#[derive(Clone, Copy, PartialEq, Eq, Structural, Debug)]
pub struct Rgb {
    pub r: u8,
    pub g: u8,
    pub b: u8,
}

/// The palette a theme provides: base tones, background, text, and accent
/// and error colours.
#[derive(Clone, Copy, PartialEq, Eq, Structural, Debug)]
pub struct Palette {
    pub base: Rgb,
    pub base_darker: Rgb,
    pub base_darkest: Rgb,
    pub base_lighter: Rgb,
    pub base_lightest: Rgb,
    pub background: Rgb,
    pub text: Rgb,
    pub disabled: Rgb,
    pub accent: Rgb,
    pub accent_secondary: Rgb,
    pub error: Rgb,
}

/// The one palette shipped so far: medium blues for the base tones, a near
/// black background, salmon and gold accents.
pub open spec fn default_palette() -> Palette {
    Palette {
        base: Rgb { r: 84, g: 111, b: 149 },
        base_darker: Rgb { r: 38, g: 62, b: 99 },
        base_darkest: Rgb { r: 22, g: 30, b: 59 },
        base_lighter: Rgb { r: 113, g: 134, b: 162 },
        base_lightest: Rgb { r: 158, g: 175, b: 195 },
        background: Rgb { r: 12, g: 12, b: 30 },
        text: Rgb { r: 226, g: 226, b: 226 },
        disabled: Rgb { r: 153, g: 158, b: 162 },
        accent: Rgb { r: 235, g: 94, b: 85 },
        accent_secondary: Rgb { r: 255, g: 159, b: 28 },
        error: Rgb { r: 255, g: 77, b: 77 },
    }
}

impl Default for Palette {
    /// The default palette.
    fn default() -> (r: Palette)
        ensures
            r == default_palette(),
    {
        Palette {
            base: Rgb { r: 84, g: 111, b: 149 },
            base_darker: Rgb { r: 38, g: 62, b: 99 },
            base_darkest: Rgb { r: 22, g: 30, b: 59 },
            base_lighter: Rgb { r: 113, g: 134, b: 162 },
            base_lightest: Rgb { r: 158, g: 175, b: 195 },
            background: Rgb { r: 12, g: 12, b: 30 },
            text: Rgb { r: 226, g: 226, b: 226 },
            disabled: Rgb { r: 153, g: 158, b: 162 },
            accent: Rgb { r: 235, g: 94, b: 85 },
            accent_secondary: Rgb { r: 255, g: 159, b: 28 },
            error: Rgb { r: 255, g: 77, b: 77 },
        }
    }
}

/// Reduces a colour's intensity to 70% per channel.
pub fn dim(color: Rgb) -> (r: Rgb)
    ensures
        r.r as int == color.r as int * 70 / 100,
        r.g as int == color.g as int * 70 / 100,
        r.b as int == color.b as int * 70 / 100,
{
    let red = (color.r as u32) * 70 / 100;
    let green = (color.g as u32) * 70 / 100;
    let blue = (color.b as u32) * 70 / 100;
    proof {
        assert(red < 256);
        assert(green < 256);
        assert(blue < 256);
    }
    Rgb { r: red as u8, g: green as u8, b: blue as u8 }
}

/// The UI theme: dark by default; the light palette is still to come, so
/// both variants share the default palette for now.
#[derive(Clone, Copy, PartialEq, Eq, Structural, Debug)]
pub enum Theme {
    Light,
    Dark,
}

impl Default for Theme {
    /// The default theme is dark.
    fn default() -> (r: Theme)
        ensures
            r is Dark,
    {
        Theme::Dark
    }
}

/// The colour choices of a container style: text, fill and border, each
/// optional.
#[derive(Clone, Copy, PartialEq, Eq, Structural, Debug)]
pub struct ContainerStyle {
    pub text_color: Option<Rgb>,
    pub background: Option<Rgb>,
    pub border_color: Option<Rgb>,
}

/// The container style variants the widgets select.
#[derive(Clone, Copy, PartialEq, Eq, Structural, Debug, Default)]
pub enum Container {
    Tooltip,
    Controls,
    Error,
    #[default]
    Plain,
}

/// The text style variants.
#[derive(Clone, Copy, PartialEq, Eq, Structural, Debug, Default)]
pub enum Text {
    #[default]
    Primary,
    Error,
}

/// The button style variants.
#[derive(Clone, Copy, PartialEq, Eq, Structural, Debug, Default)]
pub enum Button {
    #[default]
    Control,
}

/// Marker for the application-wide style.
#[derive(Clone, Copy, PartialEq, Eq, Structural, Debug, Default)]
pub struct Application;

/// Marker for the checkbox style.
#[derive(Clone, Copy, PartialEq, Eq, Structural, Debug, Default)]
pub struct Checkbox;

/// Marker for the scrollbar style.
#[derive(Clone, Copy, PartialEq, Eq, Structural, Debug, Default)]
pub struct Scrollable;

/// Marker for the text-editor pane style.
#[derive(Clone, Copy, PartialEq, Eq, Structural, Debug, Default)]
pub struct Editor;

/// Marker for the pane-grid style.
#[derive(Clone, Copy, PartialEq, Eq, Structural, Debug, Default)]
pub struct PaneGrid;

impl Theme {
    /// The theme's palette. Both variants share the default palette until a
    /// light palette exists.
    pub fn palette(&self) -> (p: Palette)
        ensures
            p == default_palette(),
    {
        match self {
            Theme::Light => Palette::default(),
            Theme::Dark => Palette::default(),
        }
    }

    /// The colours of a container style: tooltips sit on the darker base
    /// with a darkest border, control bars on the darkest base, error panes
    /// carry the error colour for text and border, and the plain style sets
    /// nothing.
    pub fn appearance(&self, style: &Container) -> (r: ContainerStyle)
        ensures
            r == match style {
                Container::Tooltip => ContainerStyle {
                    text_color: Some(default_palette().text),
                    background: Some(default_palette().base_darker),
                    border_color: Some(default_palette().base_darkest),
                },
                Container::Controls => ContainerStyle {
                    text_color: Some(default_palette().text),
                    background: Some(default_palette().base_darkest),
                    border_color: Option::<Rgb>::None,
                },
                Container::Error => ContainerStyle {
                    text_color: Some(default_palette().error),
                    background: Some(default_palette().base_darkest),
                    border_color: Some(default_palette().error),
                },
                Container::Plain => ContainerStyle {
                    text_color: Option::<Rgb>::None,
                    background: Option::<Rgb>::None,
                    border_color: Option::<Rgb>::None,
                },
            },
    {
        let palette = self.palette();
        match style {
            Container::Tooltip => ContainerStyle {
                text_color: Some(palette.text),
                background: Some(palette.base_darker),
                border_color: Some(palette.base_darkest),
            },
            Container::Controls => ContainerStyle {
                text_color: Some(palette.text),
                background: Some(palette.base_darkest),
                border_color: None,
            },
            Container::Error => ContainerStyle {
                text_color: Some(palette.error),
                background: Some(palette.base_darkest),
                border_color: Some(palette.error),
            },
            Container::Plain => ContainerStyle {
                text_color: None,
                background: None,
                border_color: None,
            },
        }
    }

    /// The colour of a text style: the palette's text colour, or the error
    /// colour for error text.
    pub fn text_color(&self, style: &Text) -> (r: Rgb)
        ensures
            r == match style {
                Text::Primary => default_palette().text,
                Text::Error => default_palette().error,
            },
    {
        let palette = self.palette();
        match style {
            Text::Primary => palette.text,
            Text::Error => palette.error,
        }
    }

    /// A button's fill: the base tone at rest, the lighter base when hovered
    /// or pressed.
    pub fn button_background(&self, _style: &Button, hovered: bool) -> (r: Rgb)
        ensures
            r == if hovered {
                default_palette().base_lighter
            } else {
                default_palette().base
            },
    {
        let palette = self.palette();
        if hovered {
            palette.base_lighter
        } else {
            palette.base
        }
    }
}

} // verus!
