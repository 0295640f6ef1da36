//! Tests for the size algebra and geometry resolution.

use mooeye::layout::{Alignment, Layout, Padding, Rect, Size};
use mooeye::units::{Frac, LEN_MAX};

fn zero_pad() -> Padding {
    Padding { top: 0, right: 0, bottom: 0, left: 0 }
}

#[test]
fn fixed_pref_ignores_offer() {
    let s = Size::Fixed(40);
    assert_eq!(s.pref(10, 300), 40);
    assert_eq!(s.pref(100, 5), 40);
    assert_eq!(s.min(), 40);
    assert_eq!(s.max(), 40);
}

#[test]
fn fill_prefers_larger_offer_within_bounds() {
    let s = Size::Fill(50, 200);
    // The larger of the two offers, clamped into [50, 200].
    assert_eq!(s.pref(10, 120), 120);
    assert_eq!(s.pref(10, 20), 50);
    assert_eq!(s.pref(10, 500), 200);
    assert_eq!(s.pref(500, 100), 200);
}

#[test]
fn shrink_prefers_smaller_offer_within_bounds() {
    let s = Size::Shrink(20, 100);
    assert_eq!(s.pref(30, 300), 30);
    assert_eq!(s.pref(5, 300), 20);
    assert_eq!(s.pref(150, 300), 100);
}

#[test]
fn size_conversions_keep_bounds() {
    assert_eq!(Size::Fixed(30).to_shrink(), Size::Shrink(30, LEN_MAX));
    assert_eq!(Size::Fixed(30).to_fill(), Size::Fill(30, LEN_MAX));
    assert_eq!(Size::Fill(10, 90).to_shrink(), Size::Shrink(10, 90));
    assert_eq!(Size::Shrink(10, 90).to_fill(), Size::Fill(10, 90));
    assert_eq!(Size::Fill(10, 90).to_fixed(), Size::Fixed(10));
}

#[test]
fn size_scale_multiplies_bounds() {
    let s = Size::Fill(10, 40);
    let scaled = s.scale(Frac::new(3, 2));
    assert_eq!(scaled, Size::Fill(15, 60));
    // An unbounded upper bound stays unbounded under any factor.
    let unbounded = Size::Fill(10, LEN_MAX).scale(Frac::new(1, 2));
    assert_eq!(unbounded, Size::Fill(5, LEN_MAX));
}

#[test]
fn centered_fill_consumes_target_exactly() {
    // A node at Layout { Center, Center, Fill(0, unbounded) in both axes }
    // with zero padding drawn into (0, 0, 200, 100) centers its full-size
    // content at exactly (0, 0, 200, 100).
    let layout = Layout {
        x_alignment: Alignment::Center,
        y_alignment: Alignment::Center,
        x_offset: 0,
        y_offset: 0,
        x_size: Size::Fill(0, LEN_MAX),
        y_size: Size::Fill(0, LEN_MAX),
        padding: zero_pad(),
        preserve_ratio: false,
    };
    let target = Rect { x: 0, y: 0, w: 200, h: 100 };
    let (outer, inner) = layout.get_outer_inner_bounds_in_target(&target, (0, 0));
    assert_eq!(outer, Rect { x: 0, y: 0, w: 200, h: 100 });
    assert_eq!(inner, Rect { x: 0, y: 0, w: 200, h: 100 });
}

#[test]
fn min_alignment_applies_offset() {
    let layout = Layout {
        x_alignment: Alignment::Min,
        y_alignment: Alignment::Min,
        x_offset: 7,
        y_offset: 3,
        x_size: Size::Fixed(50),
        y_size: Size::Fixed(20),
        padding: zero_pad(),
        preserve_ratio: false,
    };
    let target = Rect { x: 100, y: 200, w: 400, h: 300 };
    let (outer, _inner) = layout.get_outer_inner_bounds_in_target(&target, (0, 0));
    assert_eq!(outer, Rect { x: 107, y: 203, w: 50, h: 20 });
}

#[test]
fn max_alignment_applies_offset_inward() {
    let layout = Layout {
        x_alignment: Alignment::Max,
        y_alignment: Alignment::Max,
        x_offset: 10,
        y_offset: 5,
        x_size: Size::Fixed(50),
        y_size: Size::Fixed(20),
        padding: zero_pad(),
        preserve_ratio: false,
    };
    let target = Rect { x: 0, y: 0, w: 400, h: 300 };
    let (outer, _inner) = layout.get_outer_inner_bounds_in_target(&target, (0, 0));
    // Far edge minus outer size minus offset.
    assert_eq!(outer, Rect { x: 340, y: 275, w: 50, h: 20 });
}

#[test]
fn center_alignment_ignores_offsets() {
    let mut layout = Layout {
        x_alignment: Alignment::Center,
        y_alignment: Alignment::Center,
        x_offset: 0,
        y_offset: 0,
        x_size: Size::Fixed(100),
        y_size: Size::Fixed(40),
        padding: zero_pad(),
        preserve_ratio: false,
    };
    let target = Rect { x: 0, y: 0, w: 200, h: 100 };
    let (without_offset, _) = layout.get_outer_inner_bounds_in_target(&target, (0, 0));
    layout.x_offset = 33;
    layout.y_offset = -12;
    let (with_offset, _) = layout.get_outer_inner_bounds_in_target(&target, (0, 0));
    assert_eq!(without_offset, with_offset);
    assert_eq!(without_offset, Rect { x: 50, y: 30, w: 100, h: 40 });
}

#[test]
fn padding_grows_outer_rectangle() {
    let layout = Layout {
        x_alignment: Alignment::Min,
        y_alignment: Alignment::Min,
        x_offset: 0,
        y_offset: 0,
        x_size: Size::Fixed(50),
        y_size: Size::Fixed(20),
        padding: Padding { top: 1, right: 2, bottom: 3, left: 4 },
        preserve_ratio: false,
    };
    let target = Rect { x: 0, y: 0, w: 400, h: 300 };
    let (outer, inner) = layout.get_outer_inner_bounds_in_target(&target, (0, 0));
    assert_eq!(outer, Rect { x: 0, y: 0, w: 56, h: 24 });
    // Inner sits inside the outer rectangle, pushed by the near paddings.
    assert_eq!(inner, Rect { x: 4, y: 1, w: 50, h: 20 });
}

#[test]
fn preserve_ratio_shrinks_wider_axis() {
    // Minimum size 20 x 10; offered 100 x 30: the vertical scale (3) is
    // smaller than the horizontal (5), so both axes use scale 3.
    let layout = Layout {
        x_alignment: Alignment::Min,
        y_alignment: Alignment::Min,
        x_offset: 0,
        y_offset: 0,
        x_size: Size::Fill(20, LEN_MAX),
        y_size: Size::Fill(10, LEN_MAX),
        padding: zero_pad(),
        preserve_ratio: true,
    };
    let target = Rect { x: 0, y: 0, w: 100, h: 30 };
    let (_outer, inner) = layout.get_outer_inner_bounds_in_target(&target, (0, 0));
    assert_eq!(inner.w, 60);
    assert_eq!(inner.h, 30);
}

#[test]
fn geometry_may_exceed_target() {
    // A fixed element larger than the target still resolves; rejecting it
    // is the draw cache's concern.
    let layout = Layout {
        x_alignment: Alignment::Min,
        y_alignment: Alignment::Min,
        x_offset: 0,
        y_offset: 0,
        x_size: Size::Fixed(500),
        y_size: Size::Fixed(400),
        padding: zero_pad(),
        preserve_ratio: false,
    };
    let target = Rect { x: 0, y: 0, w: 100, h: 100 };
    let (outer, _) = layout.get_outer_inner_bounds_in_target(&target, (0, 0));
    assert_eq!(outer.w, 500);
    assert_eq!(outer.h, 400);
}
