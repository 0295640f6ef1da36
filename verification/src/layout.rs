//! Sizing policies, alignment and geometry resolution.
//!
//! A [`Size`] describes how one axis of an element behaves: a `Fixed` length,
//! a `Fill` range that grows to the larger of what is offered, or a `Shrink`
//! range that settles for the smaller. A [`Layout`] combines two sizes with
//! alignment, offsets, padding and an optional aspect-ratio lock, and
//! [`Layout::get_outer_inner_bounds_in_target`] resolves it against a target
//! [`Rect`] into the concrete outer (background) and inner (content)
//! rectangles.

use vstd::prelude::*;

use crate::units::{
    cadd, cap_coord, cap_len, coord_ok, ladd, lclamp, len_ok, lmax, lmin, lsub, muldiv_len,
    scale_len, spec_clamp, spec_muldiv_len, spec_scale_len, sub0, Frac, LEN_MAX,
};

verus! {

/// How an element aligns along one axis of the rectangle it is offered.
#[derive(Clone, Copy, Debug, PartialEq, Eq, Structural)]
pub enum Alignment {
    /// Aligns to the near edge (top or left).
    Min,
    /// Aligns centered.
    Center,
    /// Aligns to the far edge (bottom or right).
    Max,
}

impl Default for Alignment {
    /// The default alignment is centered.
    fn default() -> (r: Self)
        ensures
            r == Alignment::Center,
    {
        Alignment::Center
    }
}

/// The size and growth behaviour of an element along one axis. Padding is
/// added on top of these bounds when the element is drawn.
#[derive(Clone, Copy, Debug, PartialEq, Eq, Structural)]
pub enum Size {
    /// The element always has exactly this length.
    Fixed(u64),
    /// The element grows as large as the offer allows within `[min, max]`,
    /// sharing space equally with other `Fill` elements.
    Fill(u64, u64),
    /// The element shrinks as small as the offer allows within `[min, max]`;
    /// it receives leftover space only when no `Fill` element can take it.
    Shrink(u64, u64),
}

impl Default for Size {
    /// The default size grows without bounds.
    fn default() -> (r: Self)
        ensures
            r == Size::Fill(0, LEN_MAX),
    {
        Size::Fill(0, LEN_MAX)
    }
}

impl Size {
    /// A size is well formed when its bounds are valid lengths in order.
    pub open spec fn wf(self) -> bool {
        match self {
            Size::Fixed(s) => len_ok(s),
            Size::Fill(min, max) => len_ok(min) && len_ok(max) && min <= max,
            Size::Shrink(min, max) => len_ok(min) && len_ok(max) && min <= max,
        }
    }

    /// The lower bound of this size (the fixed length for `Fixed`).
    pub open spec fn spec_min(self) -> u64 {
        match self {
            Size::Fixed(s) => s,
            Size::Fill(min, _) => min,
            Size::Shrink(min, _) => min,
        }
    }

    /// The upper bound of this size (the fixed length for `Fixed`).
    pub open spec fn spec_max(self) -> u64 {
        match self {
            Size::Fixed(s) => s,
            Size::Fill(_, max) => max,
            Size::Shrink(_, max) => max,
        }
    }

    /// The length this size prefers when offered the range of `min_req` and
    /// `max_req`: `Fixed` ignores the offer, `Fill` clamps the larger offer
    /// into its bounds, `Shrink` clamps the smaller offer into its bounds.
    pub open spec fn spec_pref(self, min_req: int, max_req: int) -> int {
        match self {
            Size::Fixed(s) => s as int,
            Size::Fill(min, max) => spec_clamp(
                if min_req >= max_req { min_req } else { max_req },
                min as int,
                max as int,
            ),
            Size::Shrink(min, max) => spec_clamp(
                if min_req <= max_req { min_req } else { max_req },
                min as int,
                max as int,
            ),
        }
    }

    /// Returns the minimum amount of space an element of this size requires.
    pub fn min(&self) -> (r: u64)
        ensures
            r == self.spec_min(),
    {
        match self {
            Size::Fixed(s) => *s,
            Size::Fill(min, _) => *min,
            Size::Shrink(min, _) => *min,
        }
    }

    /// Returns the maximum amount of space an element of this size can grow to.
    pub fn max(&self) -> (r: u64)
        ensures
            r == self.spec_max(),
    {
        match self {
            Size::Fixed(s) => *s,
            Size::Fill(_, max) => *max,
            Size::Shrink(_, max) => *max,
        }
    }

    /// Returns the size this element prefers within the offered range.
    /// An element never leaves its own bounds, even if that means ignoring
    /// the offer; a `Fixed` element always returns its own length.
    pub fn pref(&self, min_req: u64, max_req: u64) -> (r: u64)
        requires
            self.wf(),
        ensures
            r == self.spec_pref(min_req as int, max_req as int),
            len_ok(r),
    {
        match self {
            Size::Fixed(s) => *s,
            Size::Fill(min, max) => lclamp(lmax(min_req, max_req), *min, *max),
            Size::Shrink(min, max) => lclamp(lmin(min_req, max_req), *min, *max),
        }
    }

    /// Returns a new size of the same variant with both bounds scaled by the
    /// given factor (an unbounded bound stays unbounded).
    pub fn scale(&self, factor: Frac) -> (r: Self)
        requires
            self.wf(),
            factor.wf(),
        ensures
            r == match *self {
                Size::Fixed(s) => Size::Fixed(spec_scale_len(s as int, factor) as u64),
                Size::Fill(min, max) => Size::Fill(
                    spec_scale_len(min as int, factor) as u64,
                    spec_scale_len(max as int, factor) as u64,
                ),
                Size::Shrink(min, max) => Size::Shrink(
                    spec_scale_len(min as int, factor) as u64,
                    spec_scale_len(max as int, factor) as u64,
                ),
            },
            r.wf(),
    {
        proof {
            lemma_scale_len_monotone(self.spec_min() as int, self.spec_max() as int, factor);
        }
        match self {
            Size::Fixed(s) => Size::Fixed(scale_len(*s, factor)),
            Size::Fill(min, max) => Size::Fill(scale_len(*min, factor), scale_len(*max, factor)),
            Size::Shrink(min, max) => Size::Shrink(
                scale_len(*min, factor),
                scale_len(*max, factor),
            ),
        }
    }

    /// Returns a new size with the same bounds but the `Shrink` variant; a
    /// `Fixed` length becomes the lower bound of an unbounded range.
    pub fn to_shrink(self) -> (r: Self)
        requires
            self.wf(),
        ensures
            r == match self {
                Size::Fixed(s) => Size::Shrink(s, LEN_MAX),
                Size::Fill(min, max) => Size::Shrink(min, max),
                Size::Shrink(min, max) => Size::Shrink(min, max),
            },
            r.wf(),
    {
        match self {
            Size::Fixed(s) => Size::Shrink(s, LEN_MAX),
            Size::Fill(min, max) => Size::Shrink(min, max),
            Size::Shrink(min, max) => Size::Shrink(min, max),
        }
    }

    /// Returns a new size with the same bounds but the `Fill` variant; a
    /// `Fixed` length becomes the lower bound of an unbounded range.
    pub fn to_fill(self) -> (r: Self)
        requires
            self.wf(),
        ensures
            r == match self {
                Size::Fixed(s) => Size::Fill(s, LEN_MAX),
                Size::Fill(min, max) => Size::Fill(min, max),
                Size::Shrink(min, max) => Size::Fill(min, max),
            },
            r.wf(),
    {
        match self {
            Size::Fixed(s) => Size::Fill(s, LEN_MAX),
            Size::Fill(min, max) => Size::Fill(min, max),
            Size::Shrink(min, max) => Size::Fill(min, max),
        }
    }

    /// Returns a new `Fixed` size pinned at this size's lower bound.
    pub fn to_fixed(self) -> (r: Self)
        requires
            self.wf(),
        ensures
            r == Size::Fixed(self.spec_min()),
            r.wf(),
    {
        match self {
            Size::Fixed(s) => Size::Fixed(s),
            Size::Fill(min, _) => Size::Fixed(min),
            Size::Shrink(min, _) => Size::Fixed(min),
        }
    }
}

/// Scaling a length by a fixed factor is monotone, so scaling keeps a size's
/// bounds in order.
proof fn lemma_scale_len_monotone(a: int, b: int, f: Frac)
    requires
        0 <= a <= b,
        f.wf(),
    ensures
        spec_scale_len(a, f) <= spec_scale_len(b, f),
{
    if b < LEN_MAX as int && a < LEN_MAX as int {
        assert((a * f.num) / (f.den as int) <= (b * f.num) / (f.den as int)) by (nonlinear_arith)
            requires
                0 <= a <= b,
                f.den >= 1,
                f.num >= 0,
        ;
    }
}

/// For every `Fill` size, the preferred length lies within the size's own
/// bounds, whatever range is offered.
pub proof fn lemma_fill_pref_in_bounds(s: Size, min_req: int, max_req: int)
    requires
        s.wf(),
        s is Fill,
    ensures
        s.spec_min() <= s.spec_pref(min_req, max_req) <= s.spec_max(),
{
}

/// For every `Fill` size, the preferred length is monotonically non-decreasing
/// in the larger of the two offered lengths.
pub proof fn lemma_fill_pref_monotone(s: Size, a1: int, b1: int, a2: int, b2: int)
    requires
        s.wf(),
        s is Fill,
        (if a1 >= b1 { a1 } else { b1 }) <= (if a2 >= b2 { a2 } else { b2 }),
    ensures
        s.spec_pref(a1, b1) <= s.spec_pref(a2, b2),
{
}

/// For every `Shrink` size, the preferred length lies within the size's own
/// bounds, whatever range is offered.
pub proof fn lemma_shrink_pref_in_bounds(s: Size, min_req: int, max_req: int)
    requires
        s.wf(),
        s is Shrink,
    ensures
        s.spec_min() <= s.spec_pref(min_req, max_req) <= s.spec_max(),
{
}

/// For every `Shrink` size, the preferred length is monotonically
/// non-decreasing in the smaller of the two offered lengths.
pub proof fn lemma_shrink_pref_monotone(s: Size, a1: int, b1: int, a2: int, b2: int)
    requires
        s.wf(),
        s is Shrink,
        (if a1 <= b1 { a1 } else { b1 }) <= (if a2 <= b2 { a2 } else { b2 }),
    ensures
        s.spec_pref(a1, b1) <= s.spec_pref(a2, b2),
{
}

/// An axis-aligned rectangle: origin plus width and height.
#[derive(Clone, Copy, Debug, PartialEq, Eq, Structural)]
pub struct Rect {
    /// Horizontal position of the left edge.
    pub x: i64,
    /// Vertical position of the top edge.
    pub y: i64,
    /// Width.
    pub w: u64,
    /// Height.
    pub h: u64,
}

impl Rect {
    /// A rectangle is well formed when its origin is a valid coordinate pair
    /// and its extent is a pair of valid lengths.
    pub open spec fn wf(self) -> bool {
        coord_ok(self.x) && coord_ok(self.y) && len_ok(self.w) && len_ok(self.h)
    }

    /// Builds a rectangle from origin and extent.
    pub fn new(x: i64, y: i64, w: u64, h: u64) -> (r: Rect)
        ensures
            r == (Rect { x, y, w, h }),
    {
        Rect { x, y, w, h }
    }

    /// Whether the point lies inside this rectangle; edges count as inside.
    pub open spec fn spec_contains(self, px: int, py: int) -> bool {
        self.x <= px <= self.x + self.w && self.y <= py <= self.y + self.h
    }

    /// Whether the given point lies inside this rectangle (edges included).
    pub fn contains(&self, px: i64, py: i64) -> (r: bool)
        requires
            self.wf(),
        ensures
            r == self.spec_contains(px as int, py as int),
    {
        px >= self.x && (px as i128) <= (self.x as i128) + (self.w as i128) && py >= self.y
            && (py as i128) <= (self.y as i128) + (self.h as i128)
    }
}

/// Extra space around the content of an element, one length per edge.
#[derive(Clone, Copy, Debug, PartialEq, Eq, Structural)]
pub struct Padding {
    /// Space above the content.
    pub top: u64,
    /// Space right of the content.
    pub right: u64,
    /// Space below the content.
    pub bottom: u64,
    /// Space left of the content.
    pub left: u64,
}

impl Padding {
    /// A padding is well formed when each edge is a valid length.
    pub open spec fn wf(self) -> bool {
        len_ok(self.top) && len_ok(self.right) && len_ok(self.bottom) && len_ok(self.left)
    }

    /// Builds a padding from the four edge values, in the order top, right,
    /// bottom, left.
    pub fn new(top: u64, right: u64, bottom: u64, left: u64) -> (r: Padding)
        ensures
            r == (Padding { top, right, bottom, left }),
    {
        Padding { top, right, bottom, left }
    }
}

/// The layout of a single element: alignment, offset, sizing policy per axis,
/// padding around the content, and an optional aspect-ratio lock.
#[derive(Clone, Copy, Debug, PartialEq, Eq, Structural)]
pub struct Layout {
    /// Whether the element aligns left, center or right.
    pub x_alignment: Alignment,
    /// Whether the element aligns top, center or bottom.
    pub y_alignment: Alignment,
    /// Distance from the left- or rightmost position; has no effect under
    /// centered alignment.
    pub x_offset: i64,
    /// Distance from the top- or bottommost position; has no effect under
    /// centered alignment.
    pub y_offset: i64,
    /// Size behaviour in the horizontal direction.
    pub x_size: Size,
    /// Size behaviour in the vertical direction.
    pub y_size: Size,
    /// Padding around the content.
    pub padding: Padding,
    /// When set, the content only receives draw rectangles in the aspect
    /// ratio of its minimum size.
    pub preserve_ratio: bool,
}

impl Layout {
    /// The default layout: centered, unbounded in both directions, with a
    /// padding of five units on every side.
    pub open spec fn spec_default() -> Layout {
        Layout {
            x_alignment: Alignment::Center,
            y_alignment: Alignment::Center,
            x_offset: 0,
            y_offset: 0,
            x_size: Size::Fill(0, LEN_MAX),
            y_size: Size::Fill(0, LEN_MAX),
            padding: Padding { top: 5, right: 5, bottom: 5, left: 5 },
            preserve_ratio: false,
        }
    }
}

impl Default for Layout {
    /// The default layout is centered, unbounded in both directions, with a
    /// padding of five units on every side.
    fn default() -> (r: Self)
        ensures
            r == Layout::spec_default(),
            r == (Layout {
                x_alignment: Alignment::Center,
                y_alignment: Alignment::Center,
                x_offset: 0,
                y_offset: 0,
                x_size: Size::Fill(0, LEN_MAX),
                y_size: Size::Fill(0, LEN_MAX),
                padding: Padding { top: 5, right: 5, bottom: 5, left: 5 },
                preserve_ratio: false,
            }),
            r.wf(),
    {
        Layout {
            x_alignment: Alignment::Center,
            y_alignment: Alignment::Center,
            x_offset: 0,
            y_offset: 0,
            x_size: Size::Fill(0, LEN_MAX),
            y_size: Size::Fill(0, LEN_MAX),
            padding: Padding { top: 5, right: 5, bottom: 5, left: 5 },
            preserve_ratio: false,
        }
    }
}

/// Shrinks `(w, h)` onto the aspect ratio of `(min_w, min_h)`: both axes are
/// scaled by the smaller of the two per-axis growth factors above the minimum
/// size. An axis with a zero minimum collapses to zero when the other axis
/// drives the scale; when both minima are zero the pair is left unchanged.
pub open spec fn spec_ratio_adjust(w: int, h: int, min_w: int, min_h: int) -> (int, int) {
    if min_w == 0 && min_h == 0 {
        (w, h)
    } else if min_w == 0 {
        (0, h)
    } else if min_h == 0 {
        (w, 0)
    } else if w * min_h <= h * min_w {
        (w, spec_muldiv_len(min_h, w, min_w))
    } else {
        (spec_muldiv_len(min_w, h, min_h), h)
    }
}

/// The adjusted pair never grows: ratio preservation only shrinks an axis.
proof fn lemma_ratio_adjust_le(w: int, h: int, min_w: int, min_h: int)
    requires
        0 <= w <= LEN_MAX as int,
        0 <= h <= LEN_MAX as int,
        0 <= min_w,
        0 <= min_h,
    ensures
        spec_ratio_adjust(w, h, min_w, min_h).0 <= w,
        spec_ratio_adjust(w, h, min_w, min_h).1 <= h,
{
    if min_w > 0 && min_h > 0 {
        if w * min_h <= h * min_w {
            assert((min_h * w) / min_w <= h) by (nonlinear_arith)
                requires
                    w * min_h <= h * min_w,
                    min_w > 0,
                    min_h > 0,
                    0 <= w,
                    0 <= h,
            ;
        } else {
            assert((min_w * h) / min_h <= w) by (nonlinear_arith)
                requires
                    h * min_w <= w * min_h,
                    min_w > 0,
                    min_h > 0,
                    0 <= w,
                    0 <= h,
            ;
        }
    }
}

impl Layout {
    /// A layout is well formed when both sizes are well formed, the paddings
    /// are valid lengths, and the offsets are bounded by the largest length.
    pub open spec fn wf(self) -> bool {
        &&& self.x_size.wf()
        &&& self.y_size.wf()
        &&& len_ok(self.padding.top)
        &&& len_ok(self.padding.right)
        &&& len_ok(self.padding.bottom)
        &&& len_ok(self.padding.left)
        &&& -(LEN_MAX as int) <= self.x_offset <= LEN_MAX as int
        &&& -(LEN_MAX as int) <= self.y_offset <= LEN_MAX as int
    }

    /// Width preferred by the horizontal size when offered the target width
    /// less the horizontal padding.
    pub open spec fn spec_pref_w(self, target: Rect, cmin_x: u64) -> int {
        self.x_size.spec_pref(
            cmin_x as int,
            sub0(sub0(target.w as int, self.padding.right as int), self.padding.left as int),
        )
    }

    /// Height preferred by the vertical size when offered the target height
    /// less the vertical padding.
    pub open spec fn spec_pref_h(self, target: Rect, cmin_y: u64) -> int {
        self.y_size.spec_pref(
            cmin_y as int,
            sub0(sub0(target.h as int, self.padding.top as int), self.padding.bottom as int),
        )
    }

    /// Outer width: preferred width plus horizontal padding.
    pub open spec fn spec_w_out(self, target: Rect, cmin_x: u64) -> int {
        cap_len(
            cap_len(self.spec_pref_w(target, cmin_x) + self.padding.right) + self.padding.left,
        )
    }

    /// Outer height: preferred height plus vertical padding.
    pub open spec fn spec_h_out(self, target: Rect, cmin_y: u64) -> int {
        cap_len(
            cap_len(self.spec_pref_h(target, cmin_y) + self.padding.top) + self.padding.bottom,
        )
    }

    /// The content extent after the optional aspect-ratio adjustment.
    pub open spec fn spec_content_wh(self, target: Rect, cmin: (u64, u64)) -> (int, int) {
        let w = self.spec_pref_w(target, cmin.0);
        let h = self.spec_pref_h(target, cmin.1);
        if self.preserve_ratio {
            spec_ratio_adjust(w, h, self.x_size.spec_min() as int, self.y_size.spec_min() as int)
        } else {
            (w, h)
        }
    }

    /// Horizontal position of the outer rectangle: near edge plus offset for
    /// `Min`, centered (ignoring the offset) for `Center`, far edge minus
    /// outer width and offset for `Max`.
    pub open spec fn spec_x_out(self, target: Rect, w_out: int) -> int {
        match self.x_alignment {
            Alignment::Min => cap_coord(target.x + self.x_offset),
            Alignment::Center => cap_coord(target.x + target.w as int / 2 - w_out / 2),
            Alignment::Max => cap_coord(target.x + target.w - w_out - self.x_offset),
        }
    }

    /// Vertical position of the outer rectangle, analogous to `spec_x_out`.
    pub open spec fn spec_y_out(self, target: Rect, h_out: int) -> int {
        match self.y_alignment {
            Alignment::Min => cap_coord(target.y + self.y_offset),
            Alignment::Center => cap_coord(target.y + target.h as int / 2 - h_out / 2),
            Alignment::Max => cap_coord(target.y + target.h - h_out - self.y_offset),
        }
    }

    /// Offset of the inner rectangle from the outer origin along one axis.
    /// Padding is not simply re-added, because ratio preservation may have
    /// shrunk the content below the padded preference.
    pub open spec fn spec_inner_off(
        alignment: Alignment,
        out_len: int,
        content_len: int,
        pad_near: int,
        pad_far: int,
    ) -> int {
        match alignment {
            Alignment::Min => pad_near,
            Alignment::Center => sub0(
                sub0(cap_len(out_len + pad_near), pad_far),
                content_len,
            ) / 2,
            Alignment::Max => sub0(sub0(out_len, content_len), pad_far),
        }
    }

    /// The resolved outer rectangle of this layout in the given target.
    pub open spec fn spec_outer(self, target: Rect, cmin: (u64, u64)) -> Rect {
        Rect {
            x: self.spec_x_out(target, self.spec_w_out(target, cmin.0)) as i64,
            y: self.spec_y_out(target, self.spec_h_out(target, cmin.1)) as i64,
            w: self.spec_w_out(target, cmin.0) as u64,
            h: self.spec_h_out(target, cmin.1) as u64,
        }
    }

    /// The resolved inner (content) rectangle of this layout in the target.
    pub open spec fn spec_inner(self, target: Rect, cmin: (u64, u64)) -> Rect {
        let outer = self.spec_outer(target, cmin);
        let wh = self.spec_content_wh(target, cmin);
        Rect {
            x: cap_coord(
                outer.x + Self::spec_inner_off(
                    self.x_alignment,
                    outer.w as int,
                    wh.0,
                    self.padding.left as int,
                    self.padding.right as int,
                ),
            ) as i64,
            y: cap_coord(
                outer.y + Self::spec_inner_off(
                    self.y_alignment,
                    outer.h as int,
                    wh.1,
                    self.padding.top as int,
                    self.padding.bottom as int,
                ),
            ) as i64,
            w: wh.0 as u64,
            h: wh.1 as u64,
        }
    }

    /// Resolves this layout against a target rectangle and the minimum size
    /// of the element's content. Returns the outer rectangle (which receives
    /// the background) and the inner rectangle (which receives the content).
    /// The result may exceed the target; rejecting such geometry is the draw
    /// cache's concern, not this function's.
    pub fn get_outer_inner_bounds_in_target(
        &self,
        target: &Rect,
        content_min: (u64, u64),
    ) -> (r: (Rect, Rect))
        requires
            self.wf(),
            target.wf(),
            len_ok(content_min.0),
            len_ok(content_min.1),
        ensures
            r.0 == self.spec_outer(*target, content_min),
            r.1 == self.spec_inner(*target, content_min),
            r.0.wf(),
            r.1.wf(),
    {
        let pad_top = self.padding.top;
        let pad_right = self.padding.right;
        let pad_bottom = self.padding.bottom;
        let pad_left = self.padding.left;

        // Preferred content sizes from the sizing policies.
        let w = self.x_size.pref(content_min.0, lsub(lsub(target.w, pad_right), pad_left));
        let h = self.y_size.pref(content_min.1, lsub(lsub(target.h, pad_top), pad_bottom));

        // Outer sizes add the padding back.
        let w_out = ladd(ladd(w, pad_right), pad_left);
        let h_out = ladd(ladd(h, pad_top), pad_bottom);

        // Optionally shrink the content onto its minimum aspect ratio.
        let (w_adj, h_adj) = if self.preserve_ratio {
            let min_w = self.x_size.min();
            let min_h = self.y_size.min();
            assert((w as int) * (min_h as int) <= (LEN_MAX as int) * (LEN_MAX as int)
                && (h as int) * (min_w as int) <= (LEN_MAX as int) * (LEN_MAX as int))
                by (nonlinear_arith)
                requires
                    0 <= w <= LEN_MAX as int,
                    0 <= h <= LEN_MAX as int,
                    0 <= min_w <= LEN_MAX as int,
                    0 <= min_h <= LEN_MAX as int,
            ;
            if min_w == 0 && min_h == 0 {
                (w, h)
            } else if min_w == 0 {
                (0, h)
            } else if min_h == 0 {
                (w, 0)
            } else if (w as u128) * (min_h as u128) <= (h as u128) * (min_w as u128) {
                (w, muldiv_len(min_h, w, min_w))
            } else {
                (muldiv_len(min_w, h, min_h), h)
            }
        } else {
            (w, h)
        };

        // Position the outer rectangle per alignment.
        let x_out = match self.x_alignment {
            Alignment::Min => cadd(target.x, self.x_offset),
            Alignment::Center => cadd(target.x, (target.w / 2) as i64 - (w_out / 2) as i64),
            Alignment::Max => cadd(
                target.x,
                target.w as i64 - w_out as i64 - self.x_offset,
            ),
        };
        let y_out = match self.y_alignment {
            Alignment::Min => cadd(target.y, self.y_offset),
            Alignment::Center => cadd(target.y, (target.h / 2) as i64 - (h_out / 2) as i64),
            Alignment::Max => cadd(
                target.y,
                target.h as i64 - h_out as i64 - self.y_offset,
            ),
        };

        // Position the inner rectangle relative to the outer origin.
        let x_off = match self.x_alignment {
            Alignment::Min => pad_left,
            Alignment::Center => lsub(lsub(ladd(w_out, pad_left), pad_right), w_adj) / 2,
            Alignment::Max => lsub(lsub(w_out, w_adj), pad_right),
        };
        let y_off = match self.y_alignment {
            Alignment::Min => pad_top,
            Alignment::Center => lsub(lsub(ladd(h_out, pad_top), pad_bottom), h_adj) / 2,
            Alignment::Max => lsub(lsub(h_out, h_adj), pad_bottom),
        };
        let x_in = cadd(x_out, x_off as i64);
        let y_in = cadd(y_out, y_off as i64);

        (Rect { x: x_out, y: y_out, w: w_out, h: h_out },
         Rect { x: x_in, y: y_in, w: w_adj, h: h_adj })
    }
}


/// The resolved inner rectangle lies fully inside the resolved outer
/// rectangle, as long as the padded preferred extents stay below the
/// largest representable length (a saturated outer extent cannot contain
/// the unsaturated content offset any more).
pub proof fn lemma_inner_within_outer(l: Layout, target: Rect, cmin: (u64, u64))
    requires
        l.wf(),
        target.wf(),
        len_ok(cmin.0),
        len_ok(cmin.1),
        l.spec_pref_w(target, cmin.0) + l.padding.right + l.padding.left <= LEN_MAX,
        l.spec_pref_h(target, cmin.1) + l.padding.top + l.padding.bottom <= LEN_MAX,
    ensures
        ({
            let outer = l.spec_outer(target, cmin);
            let inner = l.spec_inner(target, cmin);
            &&& outer.x <= inner.x
            &&& outer.y <= inner.y
            &&& inner.x + inner.w <= outer.x + outer.w
            &&& inner.y + inner.h <= outer.y + outer.h
        }),
{
    let w = l.spec_pref_w(target, cmin.0);
    let h = l.spec_pref_h(target, cmin.1);
    lemma_ratio_adjust_le(w, h, l.x_size.spec_min() as int, l.y_size.spec_min() as int);
    let wh = l.spec_content_wh(target, cmin);
    let outer = l.spec_outer(target, cmin);
    let off_x = Layout::spec_inner_off(
        l.x_alignment,
        outer.w as int,
        wh.0,
        l.padding.left as int,
        l.padding.right as int,
    );
    let off_y = Layout::spec_inner_off(
        l.y_alignment,
        outer.h as int,
        wh.1,
        l.padding.top as int,
        l.padding.bottom as int,
    );
    assert(0 <= off_x && off_x + wh.0 <= outer.w);
    assert(0 <= off_y && off_y + wh.1 <= outer.h);
}

} // verus!
