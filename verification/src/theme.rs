//! The look of the interface: a palette per theme with a single accent, consistent spacing and
//! rounding, and what the high-contrast theme asks of the map.

use crate::settings::{Layout, Number32, Theme};
use vstd::prelude::*;

verus! {

/// An opaque color.
#[derive(Debug, Clone, Copy, PartialEq, Eq, Structural)]
pub struct Rgb {
    pub r: u8,
    pub g: u8,
    pub b: u8,
}

/// The color that a number of six hexadecimal digits writes, red first.
pub open spec fn color_of(hex: nat) -> Rgb {
    Rgb { r: (hex / 65_536 % 256) as u8, g: (hex / 256 % 256) as u8, b: (hex % 256) as u8 }
}

fn color(hex: u32) -> (r: Rgb)
    ensures
        r == color_of(hex as nat),
{
    Rgb { r: (hex / 65_536 % 256) as u8, g: (hex / 256 % 256) as u8, b: (hex % 256) as u8 }
}

/// Default accent (that of the dark theme), as six hexadecimal digits.
pub const ACCENT: u32 = 0x4da3ff;

/// A full color palette for one theme.
#[derive(Debug, Clone, Copy, PartialEq, Eq, Structural)]
pub struct Palette {
    pub is_dark: bool,
    /// Panel and window fill.
    pub bg: Rgb,
    /// Deepest surface (plots).
    pub extreme: Rgb,
    /// Faint raised surface (stat cards).
    pub faint: Rgb,
    /// Window and separator stroke.
    pub stroke: Rgb,
    /// Inactive widget fill.
    pub widget: Rgb,
    /// Hovered widget fill.
    pub widget_hover: Rgb,
    /// Body text.
    pub text: Rgb,
    /// Primary accent (selection, active widgets, links, map markers).
    pub accent: Rgb,
}

/// A palette by the numbers of its colors.
pub open spec fn shades(
    is_dark: bool,
    bg: nat,
    extreme: nat,
    faint: nat,
    stroke: nat,
    widget: nat,
    widget_hover: nat,
    text: nat,
    accent: nat,
) -> Palette {
    Palette {
        is_dark,
        bg: color_of(bg),
        extreme: color_of(extreme),
        faint: color_of(faint),
        stroke: color_of(stroke),
        widget: color_of(widget),
        widget_hover: color_of(widget_hover),
        text: color_of(text),
        accent: color_of(accent),
    }
}

/// The dark palette, which the system may choose.
pub open spec fn dark_palette() -> Palette {
    shades(true, 0x14161b, 0x0e1013, 0x1a1d23, 0x2a2f38, 0x1c1f26, 0x262b34, 0xc8d0da, 0x4da3ff)
}

/// The light palette, which the system may choose.
pub open spec fn light_palette() -> Palette {
    shades(false, 0xf6f7f9, 0xffffff, 0xeceef1, 0xd0d3d8, 0xe8eaed, 0xdfe2e6, 0x1b1e24, 0x4da3ff)
}

/// The palette that a theme draws with; the system's choice is dark or light.
pub open spec fn palette_of(theme: Theme, system_dark: bool) -> Palette {
    match theme {
        Theme::System => if system_dark {
            dark_palette()
        } else {
            light_palette()
        },
        Theme::Dark => dark_palette(),
        Theme::Light => light_palette(),
        Theme::Synthwave => shades(true, 0x1b1338, 0x120b28, 0x241a4a, 0x3a2a6e, 0x241a4a, 0x322459, 0xe8e2ff, 0xff3d9e),
        Theme::Aurora => shades(true, 0x0f1a29, 0x081119, 0x142235, 0x27435c, 0x142235, 0x1c2f45, 0xd6f2ea, 0x3dffb0),
        Theme::HighContrast => shades(true, 0x000000, 0x000000, 0x101010, 0xffffff, 0x1a1a1a, 0x333333, 0xffffff, 0xffe600),
        Theme::Oled => shades(true, 0x000000, 0x000000, 0x0b0d10, 0x23272f, 0x121418, 0x1c1f25, 0xc8d0da, 0x4da3ff),
        Theme::DearImGui => shades(true, 0x0f0f0f, 0x000000, 0x1a1a1a, 0x3a3d46, 0x1d2f49, 0x24456d, 0xffffff, 0x4296fa),
    }
}

fn dark() -> (r: Palette)
    ensures
        r == dark_palette(),
{
    Palette {
        is_dark: true,
        bg: color(0x14161b),
        extreme: color(0x0e1013),
        faint: color(0x1a1d23),
        stroke: color(0x2a2f38),
        widget: color(0x1c1f26),
        widget_hover: color(0x262b34),
        text: color(0xc8d0da),
        accent: color(ACCENT),
    }
}

fn light() -> (r: Palette)
    ensures
        r == light_palette(),
{
    Palette {
        is_dark: false,
        bg: color(0xf6f7f9),
        extreme: color(0xffffff),
        faint: color(0xeceef1),
        stroke: color(0xd0d3d8),
        widget: color(0xe8eaed),
        widget_hover: color(0xdfe2e6),
        text: color(0x1b1e24),
        accent: color(ACCENT),
    }
}

/// The palette that a theme draws with.
pub fn palette(theme: Theme, system_dark: bool) -> (r: Palette)
    ensures
        r == palette_of(theme, system_dark),
{
    match theme {
        Theme::System => if system_dark {
            dark()
        } else {
            light()
        },
        Theme::Dark => dark(),
        Theme::Light => light(),
        // Neon on violet night.
        Theme::Synthwave => Palette {
            is_dark: true,
            bg: color(0x1b1338),
            extreme: color(0x120b28),
            faint: color(0x241a4a),
            stroke: color(0x3a2a6e),
            widget: color(0x241a4a),
            widget_hover: color(0x322459),
            text: color(0xe8e2ff),
            accent: color(0xff3d9e),
        },
        // Northern lights over ice.
        Theme::Aurora => Palette {
            is_dark: true,
            bg: color(0x0f1a29),
            extreme: color(0x081119),
            faint: color(0x142235),
            stroke: color(0x27435c),
            widget: color(0x142235),
            widget_hover: color(0x1c2f45),
            text: color(0xd6f2ea),
            accent: color(0x3dffb0),
        },
        // Black, white and one saturated yellow, for low vision and for direct sunlight.
        Theme::HighContrast => Palette {
            is_dark: true,
            bg: color(0x000000),
            extreme: color(0x000000),
            faint: color(0x101010),
            stroke: color(0xffffff),
            widget: color(0x1a1a1a),
            widget_hover: color(0x333333),
            text: color(0xffffff),
            accent: color(0xffe600),
        },
        // The dark chrome over true black, where a pixel is an off pixel.
        Theme::Oled => Palette {
            is_dark: true,
            bg: color(0x000000),
            extreme: color(0x000000),
            faint: color(0x0b0d10),
            stroke: color(0x23272f),
            widget: color(0x121418),
            widget_hover: color(0x1c1f25),
            text: color(0xc8d0da),
            accent: color(ACCENT),
        },
        // The widget washes are composited over the window fill; the accent is its check-mark blue.
        Theme::DearImGui => Palette {
            is_dark: true,
            bg: color(0x0f0f0f),
            extreme: color(0x000000),
            faint: color(0x1a1a1a),
            stroke: color(0x3a3d46),
            widget: color(0x1d2f49),
            widget_hover: color(0x24456d),
            text: color(0xffffff),
            accent: color(0x4296fa),
        },
    }
}

// ---------------------------------------------------------------------------------------------
// What is app-wide.

/// The look in force, for what is drawn by hand with no settings in scope.
#[derive(Debug, Clone, Copy, PartialEq, Eq, Structural)]
pub struct Look {
    /// The user's accent, which goes before the theme's.
    pub accent: Option<Rgb>,
    /// Square corners and fixed, tight proportions in place of pills.
    pub imgui: bool,
    /// The denser ribbon.
    pub dense: bool,
}

impl Default for Look {
    fn default() -> (r: Look)
        ensures
            r == (Look { accent: None, imgui: false, dense: false }),
    {
        Look { accent: None, imgui: false, dense: false }
    }
}

/// Sets or clears the user's accent.
pub fn set_accent_override(look: &mut Look, rgb: Option<(u8, u8, u8)>)
    ensures
        *final(look) == (Look {
            accent: match rgb {
                Some((r, g, b)) => Some(Rgb { r, g, b }),
                None => None,
            },
            ..*old(look)
        }),
{
    look.accent = match rgb {
        Some((r, g, b)) => Some(Rgb { r, g, b }),
        None => None,
    };
}

/// The accent in force: the user's, else the theme's.
pub open spec fn accent_of(look: Look, theme: Theme) -> Rgb {
    match look.accent {
        Some(c) => c,
        None => palette_of(theme, true).accent,
    }
}

/// The primary accent color for a theme (map markers, active-pane outline, status highlights).
pub fn accent(look: &Look, theme: Theme) -> (r: Rgb)
    ensures
        r == accent_of(*look, theme),
{
    match look.accent {
        Some(c) => c,
        None => palette(theme, true).accent,
    }
}

/// Whether the "Dear ImGui" theme is active.
pub fn is_imgui_style(look: &Look) -> (r: bool)
    ensures
        r == look.imgui,
{
    look.imgui
}

/// Whether the denser ribbon layout is active.
pub fn is_wsv3_theme(look: &Look) -> (r: bool)
    ensures
        r == look.dense,
{
    look.dense
}

/// The background fill for a theme, for the settings swatch preview.
pub fn preview_bg(theme: Theme) -> (r: Rgb)
    ensures
        r == palette_of(theme, true).bg,
{
    palette(theme, true).bg
}

// ---------------------------------------------------------------------------------------------
// Geometry.

/// Spacing and type of one density.
#[derive(Debug, Clone, Copy, PartialEq, Eq, Structural)]
pub struct Metrics {
    pub item_spacing: Extent,
    pub button_padding: Extent,
    pub interact_h: Number32,
    pub window_margin: i8,
    pub menu_margin: i8,
    pub heading: Number32,
    pub body: Number32,
    pub button: Number32,
    pub small: Number32,
    pub mono: Number32,
}

/// A width and a height, in points.
#[derive(Debug, Clone, Copy, PartialEq, Eq, Structural)]
pub struct Extent {
    pub x: Number32,
    pub y: Number32,
}

/// Frame and window geometry: widget and window corner rounding, item spacing, button padding,
/// interact height, window and menu margins.
#[derive(Debug, Clone, Copy, PartialEq, Eq, Structural)]
pub struct Geometry {
    pub corner_radius: u8,
    pub window_corner_radius: u8,
    pub item_spacing: Extent,
    pub button_padding: Extent,
    pub interact_h: Number32,
    pub window_margin: i8,
    pub menu_margin: i8,
}

/// The numbers 3, 4, 8 and 19, by their bits.
pub const THREE: u32 = 0x40400000;

pub const FOUR: u32 = 0x40800000;

pub const EIGHT: u32 = 0x41000000;

pub const NINETEEN: u32 = 0x41980000;

/// Square corners and tight, fixed proportions for the one style; rounded corners and the density's
/// own metrics for every other.
pub open spec fn geometry_of(imgui_style: bool, m: Metrics) -> Geometry {
    if imgui_style {
        Geometry {
            corner_radius: 0,
            window_corner_radius: 0,
            item_spacing: Extent { x: Number32 { bits: EIGHT }, y: Number32 { bits: FOUR } },
            button_padding: Extent { x: Number32 { bits: FOUR }, y: Number32 { bits: THREE } },
            interact_h: Number32 { bits: NINETEEN },
            window_margin: 8,
            menu_margin: 8,
        }
    } else {
        Geometry {
            corner_radius: 6,
            window_corner_radius: 8,
            item_spacing: m.item_spacing,
            button_padding: m.button_padding,
            interact_h: m.interact_h,
            window_margin: m.window_margin,
            menu_margin: m.menu_margin,
        }
    }
}

/// The geometry of a style. Dear ImGui rounds nothing and has its own padding and spacing, whatever
/// the density: square corners and compact proportions are as much a part of it as the blue.
pub fn geometry(imgui_style: bool, m: &Metrics) -> (r: Geometry)
    ensures
        r == geometry_of(imgui_style, *m),
{
    if imgui_style {
        Geometry {
            corner_radius: 0,
            window_corner_radius: 0,
            item_spacing: Extent { x: Number32 { bits: EIGHT }, y: Number32 { bits: FOUR } },
            button_padding: Extent { x: Number32 { bits: FOUR }, y: Number32 { bits: THREE } },
            interact_h: Number32 { bits: NINETEEN },
            window_margin: 8,
            menu_margin: 8,
        }
    } else {
        Geometry {
            corner_radius: 6,
            window_corner_radius: 8,
            item_spacing: m.item_spacing,
            button_padding: m.button_padding,
            interact_h: m.interact_h,
            window_margin: m.window_margin,
            menu_margin: m.menu_margin,
        }
    }
}

// ---------------------------------------------------------------------------------------------
// Where each color goes.

/// A color, dimmed to so many hundredths of itself.
#[derive(Debug, Clone, Copy, PartialEq, Eq, Structural)]
pub struct Shade {
    pub color: Rgb,
    pub percent: u8,
}

/// The colors of a widget in one state: both fills, and the strokes where the state sets its own.
#[derive(Debug, Clone, Copy, PartialEq, Eq, Structural)]
pub struct WidgetColors {
    pub fill: Shade,
    pub fg_stroke: Option<Shade>,
    pub bg_stroke: Shade,
}

/// Every color of the interface. Strokes are one point wide.
#[derive(Debug, Clone, Copy, PartialEq, Eq, Structural)]
pub struct Colors {
    pub panel_fill: Rgb,
    pub window_fill: Rgb,
    pub extreme_bg: Rgb,
    pub faint_bg: Rgb,
    pub window_stroke: Rgb,
    /// Alpha of the black shadow under windows and popups.
    pub shadow_alpha: u8,
    pub noninteractive: WidgetColors,
    pub inactive: WidgetColors,
    pub hovered: WidgetColors,
    pub active: WidgetColors,
    pub selection_fill: Shade,
    pub selection_stroke: Rgb,
    pub hyperlink: Rgb,
    pub text: Rgb,
}

pub open spec fn full(color: Rgb) -> Shade {
    Shade { color, percent: 100 }
}

pub open spec fn dimmed(color: Rgb, percent: u8) -> Shade {
    Shade { color, percent }
}

/// Backgrounds, strokes and text come from the palette; the accent drives active widgets,
/// selection, links, and a subtle glow on hover.
pub open spec fn colors_of(p: Palette) -> Colors {
    let white = Rgb { r: 255, g: 255, b: 255 };
    Colors {
        panel_fill: p.bg,
        window_fill: p.bg,
        extreme_bg: p.extreme,
        faint_bg: p.faint,
        window_stroke: p.stroke,
        shadow_alpha: if p.is_dark {
            120
        } else {
            60
        },
        noninteractive: WidgetColors {
            fill: full(p.bg),
            fg_stroke: Some(dimmed(p.text, 85)),
            bg_stroke: dimmed(p.stroke, 80),
        },
        inactive: WidgetColors {
            fill: full(p.widget),
            fg_stroke: Some(full(p.text)),
            bg_stroke: full(p.stroke),
        },
        hovered: WidgetColors {
            fill: full(p.widget_hover),
            fg_stroke: None,
            bg_stroke: dimmed(p.accent, 55),
        },
        active: WidgetColors {
            fill: dimmed(p.accent, 85),
            fg_stroke: Some(
                full(
                    if p.is_dark {
                        white
                    } else {
                        p.text
                    },
                ),
            ),
            bg_stroke: full(p.accent),
        },
        selection_fill: dimmed(
            p.accent,
            if p.is_dark {
                45
            } else {
                35
            },
        ),
        selection_stroke: p.accent,
        hyperlink: p.accent,
        text: p.text,
    }
}

/// Where each color of a palette goes.
pub fn tune(p: &Palette) -> (r: Colors)
    ensures
        r == colors_of(*p),
{
    let a = p.accent;
    let white = Rgb { r: 255, g: 255, b: 255 };
    Colors {
        panel_fill: p.bg,
        window_fill: p.bg,
        extreme_bg: p.extreme,
        faint_bg: p.faint,
        window_stroke: p.stroke,
        shadow_alpha: if p.is_dark {
            120
        } else {
            60
        },
        noninteractive: WidgetColors {
            fill: Shade { color: p.bg, percent: 100 },
            fg_stroke: Some(Shade { color: p.text, percent: 85 }),
            bg_stroke: Shade { color: p.stroke, percent: 80 },
        },
        inactive: WidgetColors {
            fill: Shade { color: p.widget, percent: 100 },
            fg_stroke: Some(Shade { color: p.text, percent: 100 }),
            bg_stroke: Shade { color: p.stroke, percent: 100 },
        },
        hovered: WidgetColors {
            fill: Shade { color: p.widget_hover, percent: 100 },
            fg_stroke: None,
            bg_stroke: Shade { color: a, percent: 55 },
        },
        active: WidgetColors {
            fill: Shade { color: a, percent: 85 },
            fg_stroke: Some(
                Shade {
                    color: if p.is_dark {
                        white
                    } else {
                        p.text
                    },
                    percent: 100,
                },
            ),
            bg_stroke: Shade { color: a, percent: 100 },
        },
        selection_fill: Shade {
            color: a,
            percent: if p.is_dark {
                45
            } else {
                35
            },
        },
        selection_stroke: a,
        hyperlink: a,
        text: p.text,
    }
}

/// What the interface is drawn with.
#[derive(Debug, Clone, Copy, PartialEq, Eq, Structural)]
pub struct LookPlan {
    pub is_dark: bool,
    pub colors: Colors,
    pub geometry: Geometry,
    /// Type sizes, in points.
    pub heading: Number32,
    pub body: Number32,
    pub button: Number32,
    pub small: Number32,
    pub mono: Number32,
}

/// Puts a theme in force: notes what is app-wide, and says what the interface is drawn with, given
/// the metrics of the density in use. The user's accent goes before the theme's.
pub fn apply(
    look: &mut Look,
    theme: Theme,
    system_dark: bool,
    m: &Metrics,
    accent_rgb: Option<(u8, u8, u8)>,
    layout: Layout,
) -> (r: LookPlan)
    ensures
        *final(look) == (Look {
            accent: match accent_rgb {
                Some((r, g, b)) => Some(Rgb { r, g, b }),
                None => None,
            },
            imgui: theme == Theme::DearImGui,
            dense: layout == Layout::Wsv3,
        }),
        ({
            let own = palette_of(theme, system_dark);
            let pal = Palette {
                accent: match accent_rgb {
                    Some((r, g, b)) => Rgb { r, g, b },
                    None => own.accent,
                },
                ..own
            };
            r == (LookPlan {
                is_dark: own.is_dark,
                colors: colors_of(pal),
                geometry: geometry_of(theme == Theme::DearImGui, *m),
                heading: m.heading,
                body: m.body,
                button: m.button,
                small: m.small,
                mono: m.mono,
            })
        }),
{
    set_accent_override(look, accent_rgb);
    let imgui_style = theme == Theme::DearImGui;
    look.imgui = imgui_style;
    look.dense = layout == Layout::Wsv3;
    let mut pal = palette(theme, system_dark);
    if let Some(c) = look.accent {
        pal.accent = c;
    }
    LookPlan {
        is_dark: pal.is_dark,
        colors: tune(&pal),
        geometry: geometry(imgui_style, m),
        heading: m.heading,
        body: m.body,
        button: m.button,
        small: m.small,
        mono: m.mono,
    }
}

// ---------------------------------------------------------------------------------------------
// High contrast.

/// Does `theme` request the high-contrast information layers (thicker strokes, high-contrast
/// ramps)?
pub fn is_high_contrast(theme: Theme) -> (r: bool)
    ensures
        r == (theme == Theme::HighContrast),
{
    theme == Theme::HighContrast
}

/// Stroke-width multiplier for geographic overlay polygons (warnings, outlooks), in tenths. High
/// contrast roughly doubles the outline so it stays legible in direct sunlight.
pub fn overlay_stroke_scale(theme: Theme) -> (r: u8)
    ensures
        r == if theme == Theme::HighContrast {
            22u8
        } else {
            10u8
        },
        r >= 10,
        r > 10 <==> theme == Theme::HighContrast,
{
    if is_high_contrast(theme) {
        22
    } else {
        10
    }
}

/// Stroke-width multiplier for vector basemap strokes (roads, boundaries, waterways), in tenths.
pub fn vector_stroke_scale(theme: Theme) -> (r: u8)
    ensures
        r == if theme == Theme::HighContrast {
            18u8
        } else {
            10u8
        },
        r >= 10,
        r > 10 <==> theme == Theme::HighContrast,
{
    if is_high_contrast(theme) {
        18
    } else {
        10
    }
}

/// Fill and stroke alphas for warning polygons, boosted under high contrast so the polygon remains
/// legible against both dark satellite imagery and bright radar.
pub fn warning_alpha_for(theme: Theme) -> (r: (u8, u8))
    ensures
        r == if theme == Theme::HighContrast {
            (90u8, 255u8)
        } else {
            (45u8, 235u8)
        },
        r.0 < r.1,
        theme == Theme::HighContrast <==> r.1 == 255,
{
    if is_high_contrast(theme) {
        (90, 255)
    } else {
        (45, 235)
    }
}

/// What a radar measures.
#[derive(Debug, Clone, Copy, PartialEq, Eq, Structural)]
pub enum Moment {
    Reflectivity,
    Velocity,
    SpectrumWidth,
    DifferentialReflectivity,
    DifferentialPhase,
    CorrelationCoefficient,
}

/// Which built-in colormap alternate to prefer under high contrast, where the user has not chosen a
/// table of their own. `None` means keep the default.
pub fn high_contrast_alt_name(moment: Moment) -> (r: Option<&'static str>)
    ensures
        match moment {
            Moment::Reflectivity => r is Some && (r->0)@ == "High contrast (reflectivity)"@,
            Moment::Velocity => r is Some && (r->0)@ == "High contrast (velocity)"@,
            _ => r is None,
        },
{
    match moment {
        Moment::Reflectivity => Some("High contrast (reflectivity)"),
        Moment::Velocity => Some("High contrast (velocity)"),
        _ => None,
    }
}

// ---------------------------------------------------------------------------------------------
// What holds of every theme.

/// A theme with an identity of its own: an accent that no other has.
pub open spec fn has_own_accent(t: Theme) -> bool {
    t == Theme::Synthwave || t == Theme::Aurora || t == Theme::HighContrast || t == Theme::DearImGui
}

/// A theme with an identity of its own does not share its accent with any other theme.
pub proof fn own_accents_differ(a: Theme, b: Theme, system_dark: bool)
    requires
        has_own_accent(a),
        a != b,
    ensures
        palette_of(a, system_dark).accent != palette_of(b, system_dark).accent,
{
}

/// The themes without one share the default, whatever the system says.
pub proof fn other_accents_are_the_default(t: Theme, system_dark: bool)
    requires
        !has_own_accent(t),
    ensures
        palette_of(t, system_dark).accent == color_of(ACCENT as nat),
{
}

/// Only one theme has its own geometry: the density decides nothing there, and everything but the
/// rounding elsewhere.
pub proof fn square_corners_ignore_density(m: Metrics, n: Metrics)
    ensures
        geometry_of(true, m) == geometry_of(true, n),
        geometry_of(true, m).corner_radius == 0,
        geometry_of(true, m).window_corner_radius == 0,
{
}

/// Six hexadecimal digits write a color, red first and blue last.
pub proof fn colors_are_their_digits(hex: nat)
    requires
        hex < 0x100_0000,
    ensures
        65_536 * color_of(hex).r + 256 * color_of(hex).g + color_of(hex).b == hex,
{
}

/// Text stands out: on a dark theme it is brighter than what it lies on, on a light one darker, in
/// each color; and what the system chooses is drawn as the theme it chooses.
pub proof fn text_stands_out(t: Theme, system_dark: bool)
    ensures
        ({
            let p = palette_of(t, system_dark);
            &&& p.is_dark ==> p.text.r > p.bg.r && p.text.g > p.bg.g && p.text.b > p.bg.b
            &&& !p.is_dark ==> p.text.r < p.bg.r && p.text.g < p.bg.g && p.text.b < p.bg.b
            &&& p.is_dark ==> p.text.r > p.widget.r && p.text.g > p.widget.g && p.text.b > p.widget.b
            &&& p.is_dark <==> !(t == Theme::Light || (t == Theme::System && !system_dark))
            &&& p.is_dark ==> p.extreme.r <= p.bg.r && p.extreme.g <= p.bg.g && p.extreme.b <= p.bg.b
            &&& p.is_dark ==> p.widget_hover.r > p.widget.r
            &&& !p.is_dark ==> p.widget_hover.r < p.widget.r
        }),
        palette_of(Theme::System, true) == palette_of(Theme::Dark, system_dark),
        palette_of(Theme::System, false) == palette_of(Theme::Light, system_dark),
        t != Theme::System ==> palette_of(t, true) == palette_of(t, false),
{
}

/// The user's accent is used where there is one, else that of the theme.
pub proof fn the_chosen_accent_wins(look: Look, t: Theme, c: Rgb)
    ensures
        look.accent == Some(c) ==> accent_of(look, t) == c,
        look.accent is None ==> accent_of(look, t) == palette_of(t, true).accent,
{
}

/// Everything is drawn in the colors of the palette: surfaces in its surfaces, words in its text,
/// and what is chosen, linked or pressed in its accent.
pub proof fn colors_come_from_the_palette(p: Palette)
    ensures
        ({
            let c = colors_of(p);
            &&& c.panel_fill == p.bg && c.window_fill == p.bg && c.noninteractive.fill.color == p.bg
            &&& c.extreme_bg == p.extreme && c.faint_bg == p.faint
            &&& c.window_stroke == p.stroke && c.inactive.bg_stroke.color == p.stroke
            &&& c.inactive.fill.color == p.widget && c.hovered.fill.color == p.widget_hover
            &&& c.text == p.text && c.inactive.fg_stroke is Some && (c.inactive.fg_stroke->0).color
                == p.text
            &&& c.selection_stroke == p.accent && c.selection_fill.color == p.accent && c.hyperlink
                == p.accent
            &&& c.active.fill.color == p.accent && c.active.bg_stroke.color == p.accent
                && c.hovered.bg_stroke.color == p.accent
            &&& c.noninteractive.fg_stroke is Some && (c.noninteractive.fg_stroke->0).percent
                < (c.inactive.fg_stroke->0).percent
        }),
{
}

} // verus!
