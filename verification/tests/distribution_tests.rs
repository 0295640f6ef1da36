//! Tests for the space-distribution algorithm and the containers that use
//! it.

use mooeye::containers::{HorizontalBox, VerticalBox};
use mooeye::distribution::distribute_to_fitting;
use mooeye::layout::{Alignment, Layout, Padding, Size};
use mooeye::ui_element::{UiContent, UiElement};
use mooeye::units::LEN_MAX;

fn bare_child(x_size: Size, y_size: Size) -> UiElement<u32> {
    let mut e: UiElement<u32> = UiElement::new(0, UiContent::Empty);
    e.layout = Layout {
        x_alignment: Alignment::Min,
        y_alignment: Alignment::Min,
        x_offset: 0,
        y_offset: 0,
        x_size,
        y_size,
        padding: Padding { top: 0, right: 0, bottom: 0, left: 0 },
        preserve_ratio: false,
    };
    e
}

#[test]
fn two_fill_children_split_evenly() {
    // Available width 300, two Fill(50, unbounded) children, 10 units of
    // spacing: 300 - 10 = 290, divided by two gives 145 each.
    let mut hbox: HorizontalBox<u32> = HorizontalBox::new_spaced(10);
    hbox.add(bare_child(Size::Fill(50, LEN_MAX), Size::Fixed(10)));
    hbox.add(bare_child(Size::Fill(50, LEN_MAX), Size::Fixed(10)));
    let widths = hbox.get_element_widths(300);
    assert_eq!(widths, vec![145, 145]);
}

#[test]
fn shrink_child_grows_only_to_its_max() {
    // A Shrink(20, 100) child given 300 available with no Fill siblings
    // and no spacing grows only to 100; the rest stays unconsumed.
    let mut hbox: HorizontalBox<u32> = HorizontalBox::new_spaced(0);
    hbox.add(bare_child(Size::Shrink(20, 100), Size::Fixed(10)));
    let widths = hbox.get_element_widths(300);
    assert_eq!(widths, vec![100]);
}

#[test]
fn fill_takes_before_shrink() {
    // Shrink children only receive space once no Fill child can absorb it.
    let mut hbox: HorizontalBox<u32> = HorizontalBox::new_spaced(0);
    hbox.add(bare_child(Size::Fill(0, 120), Size::Fixed(10)));
    hbox.add(bare_child(Size::Shrink(0, 500), Size::Fixed(10)));
    let widths = hbox.get_element_widths(200);
    // The fill child saturates at 120 first; the shrink child takes the
    // remaining 80.
    assert_eq!(widths, vec![120, 80]);
}

#[test]
fn fixed_children_keep_their_minimum() {
    let mut vbox: VerticalBox<u32> = VerticalBox::new_spaced(0);
    vbox.add(bare_child(Size::Fixed(10), Size::Fixed(30)));
    vbox.add(bare_child(Size::Fixed(10), Size::Fill(0, LEN_MAX)));
    let heights = vbox.get_element_heights(100);
    assert_eq!(heights, vec![30, 70]);
}

#[test]
fn distribution_round_conserves_space() {
    let mut leftover: u64 = 90;
    let mut alloc: Vec<u64> = vec![10, 20, 30];
    let maxs: Vec<u64> = vec![40, 25, 100];
    let receives: Vec<bool> = vec![true, true, true];
    distribute_to_fitting(&mut leftover, &mut alloc, &maxs, &receives);
    // Everything is spent: the sums balance.
    let total: u64 = alloc.iter().sum();
    assert_eq!(total + leftover, 10 + 20 + 30 + 90);
    assert_eq!(leftover, 0);
    // Nobody exceeds its maximum.
    for (a, m) in alloc.iter().zip(maxs.iter()) {
        assert!(a <= m);
    }
}

#[test]
fn distribution_round_respects_maxima() {
    let mut leftover: u64 = 1000;
    let mut alloc: Vec<u64> = vec![0, 0];
    let maxs: Vec<u64> = vec![30, 50];
    let receives: Vec<bool> = vec![true, true];
    distribute_to_fitting(&mut leftover, &mut alloc, &maxs, &receives);
    assert_eq!(alloc, vec![30, 50]);
    assert_eq!(leftover, 920);
}

#[test]
fn distribution_skips_unmarked_children() {
    let mut leftover: u64 = 100;
    let mut alloc: Vec<u64> = vec![5, 5];
    let maxs: Vec<u64> = vec![500, 500];
    let receives: Vec<bool> = vec![false, true];
    distribute_to_fitting(&mut leftover, &mut alloc, &maxs, &receives);
    assert_eq!(alloc, vec![5, 105]);
    assert_eq!(leftover, 0);
}

#[test]
fn uneven_leftover_spreads_remainder() {
    // 7 units over two unbounded children: one gets the extra unit, and
    // nothing is lost.
    let mut leftover: u64 = 7;
    let mut alloc: Vec<u64> = vec![0, 0];
    let maxs: Vec<u64> = vec![LEN_MAX, LEN_MAX];
    let receives: Vec<bool> = vec![true, true];
    distribute_to_fitting(&mut leftover, &mut alloc, &maxs, &receives);
    assert_eq!(leftover, 0);
    assert_eq!(alloc[0] + alloc[1], 7);
    assert_eq!(alloc, vec![4, 3]);
}
