//! Tests for the message set, the sprite timing and the scene stack.

use mooeye::message::{UiMessage, UiMessageSet};
use mooeye::scene_manager::{SceneManager, SceneSwitch};
use mooeye::containers::VerticalBox;
use mooeye::sprite::{SheetRect, Sprite};
use mooeye::units::{ladd, lsub, LEN_MAX};

#[test]
fn message_set_deduplicates() {
    let mut s: UiMessageSet<u32> = UiMessageSet::new();
    s.insert(UiMessage::Clicked(1));
    s.insert(UiMessage::Clicked(1));
    s.insert(UiMessage::Triggered(1));
    assert_eq!(s.items().len(), 2);
    assert!(s.contains(&UiMessage::Clicked(1)));
    assert!(s.contains(&UiMessage::Triggered(1)));
    assert!(!s.contains(&UiMessage::ClickedRight(1)));
}

#[test]
fn message_set_union_merges_both_sides() {
    let mut a: UiMessageSet<u32> = UiMessageSet::new();
    a.insert(UiMessage::Clicked(1));
    let mut b: UiMessageSet<u32> = UiMessageSet::new();
    b.insert(UiMessage::Extern(9));
    b.insert(UiMessage::Clicked(1));
    a.union_with(&b);
    assert_eq!(a.items().len(), 2);
    assert!(a.contains(&UiMessage::Extern(9)));
    assert!(a.contains(&UiMessage::Clicked(1)));
}

#[test]
fn sprite_advances_frames_and_wraps() {
    // A 96 x 32 sheet of 32 x 32 frames: three frames, one variant.
    let mut s = Sprite::new(96, 32, 32, 32, 100);
    let r0 = s.draw_sprite(0);
    assert_eq!(r0, SheetRect { x: 0, y: 0, w: 32, h: 32 });
    let r1 = s.draw_sprite(100);
    assert_eq!(r1.x, 32);
    let r2 = s.draw_sprite(250);
    // 50 ms of the 250 remain after two further frame steps: frame
    // 1 + 2 = 3 wraps to 0.
    assert_eq!(r2.x, 0);
    assert_eq!(s.current_frame_time, 50);
}

#[test]
fn sprite_variant_selects_sheet_row() {
    // A 64 x 96 sheet of 32 x 32 frames: two frames, three variants.
    let mut s = Sprite::new(64, 96, 32, 32, 100);
    s.set_variant(2);
    assert_eq!(s.get_variant(), 2);
    let r = s.draw_sprite(0);
    assert_eq!(r.y, 64);
    // Too-large variant numbers wrap around.
    s.set_variant(7);
    assert_eq!(s.get_variant(), 1);
}

#[test]
fn sprite_cycle_time_covers_all_frames() {
    let s = Sprite::new(96, 32, 32, 32, 100);
    assert_eq!(s.get_cycle_time(), 300);
    assert_eq!(s.get_frame_time(), 100);
    assert_eq!(s.get_dimensions(), (32, 32));
}

#[test]
fn scene_stack_applies_switches() {
    let mut m: SceneManager<&str> = SceneManager::new("menu");
    m.apply_switch(SceneSwitch::push("game"));
    assert_eq!(m.len(), 2);
    m.apply_switch(SceneSwitch::none());
    assert_eq!(m.len(), 2);
    m.apply_switch(SceneSwitch::replace("pause", 1));
    assert_eq!(m.len(), 2);
    assert_eq!(m.scene_stack, vec!["menu", "pause"]);
    m.apply_switch(SceneSwitch::pop(2));
    assert!(m.is_empty());
}

#[test]
fn scene_pop_beyond_stack_empties_it() {
    let mut m: SceneManager<u32> = SceneManager::new(1);
    m.apply_switch(SceneSwitch::pop(10));
    assert!(m.is_empty());
    assert_eq!(m.len(), 0);
}

#[test]
fn empty_container_has_nonzero_cross_minimum() {
    // The cross-axis fold of an empty container is seeded at one unit, so
    // empty boxes never collapse into degenerate zero-width strips; along
    // the stacking axis an empty box needs no space at all.
    let vbox: VerticalBox<u32> = VerticalBox::new();
    assert_eq!(vbox.content_width_range(), (1, LEN_MAX));
    assert_eq!(vbox.content_height_range(), (0, 0));
}

#[test]
fn length_arithmetic_saturates_at_the_largest_length() {
    // The largest length acts as the unbounded bound: additions cannot
    // escape it, and subtraction saturates at zero.
    assert_eq!(ladd(LEN_MAX, 5), LEN_MAX);
    assert_eq!(ladd(LEN_MAX - 2, 5), LEN_MAX);
    assert_eq!(ladd(3, 4), 7);
    assert_eq!(lsub(3, 10), 0);
    assert_eq!(lsub(10, 3), 7);
}
