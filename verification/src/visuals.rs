//! The background look of an element: colors, border widths, corner radii,
//! and component-wise linear blending between two looks.

use vstd::prelude::*;

use crate::units::{len_ok, lerp_len, lerp_u8, spec_lerp_len, Ratio};

verus! {

/// An RGBA color with eight bits per channel.
#[derive(Clone, Copy, Debug, PartialEq, Eq, Structural)]
pub struct Color {
    /// Red channel.
    pub r: u8,
    /// Green channel.
    pub g: u8,
    /// Blue channel.
    pub b: u8,
    /// Alpha channel; 255 is fully opaque.
    pub a: u8,
}

impl Color {
    /// Builds a color from the four channels.
    pub fn from_rgba(r: u8, g: u8, b: u8, a: u8) -> (c: Color)
        ensures
            c == (Color { r, g, b, a }),
    {
        Color { r, g, b, a }
    }

    /// Builds a fully opaque color from the three color channels.
    pub fn from_rgb(r: u8, g: u8, b: u8) -> (c: Color)
        ensures
            c == (Color { r, g, b, a: 255 }),
    {
        Color { r, g, b, a: 255 }
    }

    /// The channel-wise linear blend of two colors: `self` weighted by
    /// `1 - ratio` and `other` by `ratio`.
    pub open spec fn spec_blend(self, other: Color, ratio: Ratio) -> Color {
        Color {
            r: spec_lerp_len(self.r as int, other.r as int, ratio.num as int, ratio.den as int)
                as u8,
            g: spec_lerp_len(self.g as int, other.g as int, ratio.num as int, ratio.den as int)
                as u8,
            b: spec_lerp_len(self.b as int, other.b as int, ratio.num as int, ratio.den as int)
                as u8,
            a: spec_lerp_len(self.a as int, other.a as int, ratio.num as int, ratio.den as int)
                as u8,
        }
    }

    /// Blends this color towards `other` by the given ratio.
    pub fn blend(&self, other: Color, ratio: Ratio) -> (c: Color)
        requires
            ratio.wf(),
        ensures
            c == self.spec_blend(other, ratio),
    {
        Color {
            r: lerp_u8(self.r, other.r, ratio.num, ratio.den),
            g: lerp_u8(self.g, other.g, ratio.num, ratio.den),
            b: lerp_u8(self.b, other.b, ratio.num, ratio.den),
            a: lerp_u8(self.a, other.a, ratio.num, ratio.den),
        }
    }
}

/// The width of an element's border at each of its four edges.
#[derive(Clone, Copy, Debug, PartialEq, Eq, Structural)]
pub struct BorderWidths {
    /// Width of the top border.
    pub top: u64,
    /// Width of the right border.
    pub right: u64,
    /// Width of the bottom border.
    pub bottom: u64,
    /// Width of the left border.
    pub left: u64,
}

impl BorderWidths {
    /// All four widths are valid lengths.
    pub open spec fn wf(self) -> bool {
        len_ok(self.top) && len_ok(self.right) && len_ok(self.bottom) && len_ok(self.left)
    }
}

/// The corner radius at each of an element's four corners.
#[derive(Clone, Copy, Debug, PartialEq, Eq, Structural)]
pub struct CornerRadii {
    /// Radius of the top-right corner.
    pub top_right: u64,
    /// Radius of the bottom-right corner.
    pub bottom_right: u64,
    /// Radius of the bottom-left corner.
    pub bottom_left: u64,
    /// Radius of the top-left corner.
    pub top_left: u64,
}

impl CornerRadii {
    /// All four radii are valid lengths.
    pub open spec fn wf(self) -> bool {
        len_ok(self.top_right) && len_ok(self.bottom_right) && len_ok(self.bottom_left) && len_ok(
            self.top_left,
        )
    }
}

/// The visual background of an element: a fill color and a border with
/// per-edge widths and per-corner radii. Drawn first, underneath the
/// element's content, covering the padded (outer) rectangle.
#[derive(Clone, Copy, Debug, PartialEq, Eq, Structural)]
pub struct Visuals {
    /// The color of the background fill.
    pub background: Color,
    /// The color of the border.
    pub border: Color,
    /// The width of the border at each edge.
    pub border_widths: BorderWidths,
    /// The radius of each corner.
    pub corner_radii: CornerRadii,
}

impl Visuals {
    /// A visuals value is well formed when its widths and radii are valid
    /// lengths.
    pub open spec fn wf(self) -> bool {
        self.border_widths.wf() && self.corner_radii.wf()
    }

    /// Returns a new visuals with a uniform border width and corner radius.
    pub fn new(background: Color, border: Color, border_width: u64, corner_radius: u64) -> (v:
        Visuals)
        requires
            len_ok(border_width),
            len_ok(corner_radius),
        ensures
            v == (Visuals {
                background,
                border,
                border_widths: BorderWidths {
                    top: border_width,
                    right: border_width,
                    bottom: border_width,
                    left: border_width,
                },
                corner_radii: CornerRadii {
                    top_right: corner_radius,
                    bottom_right: corner_radius,
                    bottom_left: corner_radius,
                    top_left: corner_radius,
                },
            }),
            v.wf(),
    {
        Visuals {
            background,
            border,
            border_widths: BorderWidths {
                top: border_width,
                right: border_width,
                bottom: border_width,
                left: border_width,
            },
            corner_radii: CornerRadii {
                top_right: corner_radius,
                bottom_right: corner_radius,
                bottom_left: corner_radius,
                top_left: corner_radius,
            },
        }
    }

    /// Returns a new visuals with the given per-edge widths and per-corner
    /// radii.
    pub fn new_custom(
        background: Color,
        border: Color,
        border_widths: BorderWidths,
        corner_radii: CornerRadii,
    ) -> (v: Visuals)
        requires
            border_widths.wf(),
            corner_radii.wf(),
        ensures
            v == (Visuals { background, border, border_widths, corner_radii }),
            v.wf(),
    {
        Visuals { background, border, border_widths, corner_radii }
    }

    /// The component-wise linear blend of two visuals: every color channel,
    /// border width and corner radius is interpolated independently; `self`
    /// is weighted by `1 - ratio` and `other` by `ratio`.
    pub open spec fn spec_average(self, other: Visuals, ratio: Ratio) -> Visuals {
        Visuals {
            background: self.background.spec_blend(other.background, ratio),
            border: self.border.spec_blend(other.border, ratio),
            border_widths: BorderWidths {
                top: spec_lerp_len(
                    self.border_widths.top as int,
                    other.border_widths.top as int,
                    ratio.num as int,
                    ratio.den as int,
                ) as u64,
                right: spec_lerp_len(
                    self.border_widths.right as int,
                    other.border_widths.right as int,
                    ratio.num as int,
                    ratio.den as int,
                ) as u64,
                bottom: spec_lerp_len(
                    self.border_widths.bottom as int,
                    other.border_widths.bottom as int,
                    ratio.num as int,
                    ratio.den as int,
                ) as u64,
                left: spec_lerp_len(
                    self.border_widths.left as int,
                    other.border_widths.left as int,
                    ratio.num as int,
                    ratio.den as int,
                ) as u64,
            },
            corner_radii: CornerRadii {
                top_right: spec_lerp_len(
                    self.corner_radii.top_right as int,
                    other.corner_radii.top_right as int,
                    ratio.num as int,
                    ratio.den as int,
                ) as u64,
                bottom_right: spec_lerp_len(
                    self.corner_radii.bottom_right as int,
                    other.corner_radii.bottom_right as int,
                    ratio.num as int,
                    ratio.den as int,
                ) as u64,
                bottom_left: spec_lerp_len(
                    self.corner_radii.bottom_left as int,
                    other.corner_radii.bottom_left as int,
                    ratio.num as int,
                    ratio.den as int,
                ) as u64,
                top_left: spec_lerp_len(
                    self.corner_radii.top_left as int,
                    other.corner_radii.top_left as int,
                    ratio.num as int,
                    ratio.den as int,
                ) as u64,
            },
        }
    }

    /// Returns the weighted average of `self` and `other`: a ratio of zero
    /// returns `self`, a ratio of one returns `other`, and values in between
    /// blend every component linearly.
    pub fn average(&self, other: Visuals, ratio: Ratio) -> (v: Visuals)
        requires
            self.wf(),
            other.wf(),
            ratio.wf(),
        ensures
            v == self.spec_average(other, ratio),
            v.wf(),
    {
        Visuals {
            background: self.background.blend(other.background, ratio),
            border: self.border.blend(other.border, ratio),
            border_widths: BorderWidths {
                top: lerp_len(
                    self.border_widths.top,
                    other.border_widths.top,
                    ratio.num,
                    ratio.den,
                ),
                right: lerp_len(
                    self.border_widths.right,
                    other.border_widths.right,
                    ratio.num,
                    ratio.den,
                ),
                bottom: lerp_len(
                    self.border_widths.bottom,
                    other.border_widths.bottom,
                    ratio.num,
                    ratio.den,
                ),
                left: lerp_len(
                    self.border_widths.left,
                    other.border_widths.left,
                    ratio.num,
                    ratio.den,
                ),
            },
            corner_radii: CornerRadii {
                top_right: lerp_len(
                    self.corner_radii.top_right,
                    other.corner_radii.top_right,
                    ratio.num,
                    ratio.den,
                ),
                bottom_right: lerp_len(
                    self.corner_radii.bottom_right,
                    other.corner_radii.bottom_right,
                    ratio.num,
                    ratio.den,
                ),
                bottom_left: lerp_len(
                    self.corner_radii.bottom_left,
                    other.corner_radii.bottom_left,
                    ratio.num,
                    ratio.den,
                ),
                top_left: lerp_len(
                    self.corner_radii.top_left,
                    other.corner_radii.top_left,
                    ratio.num,
                    ratio.den,
                ),
            },
        }
    }
}

impl Visuals {
    /// The default visuals: fully transparent with no border geometry.
    pub open spec fn spec_default() -> Visuals {
        Visuals {
            background: Color { r: 0, g: 0, b: 0, a: 0 },
            border: Color { r: 0, g: 0, b: 0, a: 0 },
            border_widths: BorderWidths { top: 0, right: 0, bottom: 0, left: 0 },
            corner_radii: CornerRadii { top_right: 0, bottom_right: 0, bottom_left: 0, top_left: 0 },
        }
    }
}

impl Default for Visuals {
    /// The default visuals are fully transparent with no border geometry.
    fn default() -> (v: Self)
        ensures
            v == Visuals::spec_default(),
            v == (Visuals {
                background: Color { r: 0, g: 0, b: 0, a: 0 },
                border: Color { r: 0, g: 0, b: 0, a: 0 },
                border_widths: BorderWidths { top: 0, right: 0, bottom: 0, left: 0 },
                corner_radii: CornerRadii {
                    top_right: 0,
                    bottom_right: 0,
                    bottom_left: 0,
                    top_left: 0,
                },
            }),
            v.wf(),
    {
        Visuals {
            background: Color { r: 0, g: 0, b: 0, a: 0 },
            border: Color { r: 0, g: 0, b: 0, a: 0 },
            border_widths: BorderWidths { top: 0, right: 0, bottom: 0, left: 0 },
            corner_radii: CornerRadii { top_right: 0, bottom_right: 0, bottom_left: 0, top_left: 0 },
        }
    }
}

} // verus!
