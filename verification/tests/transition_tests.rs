//! Tests for transitions, progress ratios and visual blending.

use mooeye::draw_cache::DrawCache;
use mooeye::layout::{Layout, Rect};
use mooeye::transition::Transition;
use mooeye::ui_element::{UiContent, UiElement};
use mooeye::units::Ratio;
use mooeye::visuals::{Color, Visuals};

#[test]
fn progress_ratio_is_zero_at_creation() {
    let t: Transition<u32> = Transition::new(2000);
    let r = t.get_progress_ratio();
    assert_eq!(r.num, 0);
    assert!(!r.is_one());
}

#[test]
fn progress_ratio_reaches_one_exactly_at_total() {
    let mut t: Transition<u32> = Transition::new(2000);
    assert!(!t.progress(1999));
    assert!(!t.get_progress_ratio().is_one());
    assert!(t.progress(1));
    assert!(t.get_progress_ratio().is_one());
    // And it stays one afterwards.
    t.progress(500);
    assert!(t.get_progress_ratio().is_one());
}

#[test]
fn zero_duration_transition_is_complete_immediately() {
    let mut t: Transition<u32> = Transition::new(0);
    assert!(t.get_progress_ratio().is_one());
    assert!(t.progress(0));
}

#[test]
fn midpoint_blend_averages_channels() {
    // A transition of two seconds changing the background from opaque red
    // to opaque blue: at one second the blended color is the channel-wise
    // average of the two (integer blending truncates the travelled
    // distance, so a falling channel lands on 128 and a rising one on 127).
    let red = Visuals::new(Color::from_rgb(255, 0, 0), Color::from_rgb(0, 0, 0), 0, 0);
    let blue = Visuals::new(Color::from_rgb(0, 0, 255), Color::from_rgb(0, 0, 0), 0, 0);
    let mut t: Transition<u32> = Transition::new(2000).with_new_visuals(blue);
    t.progress(1000);
    let ratio = t.get_progress_ratio();
    assert_eq!(ratio, Ratio { num: 1000, den: 2000 });
    let mid = red.average(blue, ratio);
    assert_eq!(mid.background.r, 128);
    assert_eq!(mid.background.g, 0);
    assert_eq!(mid.background.b, 127);
    assert_eq!(mid.background.a, 255);
}

#[test]
fn average_endpoints_return_the_operands() {
    let a = Visuals::new(Color::from_rgba(10, 20, 30, 40), Color::from_rgb(1, 2, 3), 4, 5);
    let b = Visuals::new(Color::from_rgba(200, 150, 100, 50), Color::from_rgb(9, 8, 7), 6, 1);
    assert_eq!(a.average(b, Ratio { num: 0, den: 1 }), a);
    assert_eq!(a.average(b, Ratio { num: 1, den: 1 }), b);
}

#[test]
fn completed_transition_commits_fields_once() {
    let goal = Visuals::new(Color::from_rgb(9, 9, 9), Color::from_rgb(1, 1, 1), 2, 3);
    let mut e: UiElement<u32> = UiElement::new(1, UiContent::Empty);
    e.add_transition(Transition::new(100).with_new_visuals(goal));
    // Not yet complete: nothing committed, the queue still holds the head.
    e.progress_transitions(40);
    assert_ne!(e.visuals, goal);
    assert_eq!(e.transitions.len(), 1);
    // Completion: the visuals are committed and the head is popped.
    e.progress_transitions(60);
    assert_eq!(e.visuals, goal);
    assert_eq!(e.transitions.len(), 0);
    // A further frame changes nothing: the commit happened exactly once.
    let before = e.visuals;
    e.progress_transitions(1000);
    assert_eq!(e.visuals, before);
}

#[test]
fn committing_a_layout_invalidates_the_cache() {
    let mut e: UiElement<u32> = UiElement::new(1, UiContent::Empty);
    e.draw_cache = DrawCache::Valid {
        outer: Rect { x: 0, y: 0, w: 10, h: 10 },
        inner: Rect { x: 0, y: 0, w: 10, h: 10 },
        target: Rect { x: 0, y: 0, w: 10, h: 10 },
    };
    let mut new_layout = Layout::default();
    new_layout.x_offset = 3;
    e.add_transition(Transition::new(50).with_new_layout(new_layout));
    e.progress_transitions(50);
    assert_eq!(e.layout, new_layout);
    assert_eq!(e.draw_cache, DrawCache::Invalid);
}

#[test]
fn transitions_run_serially() {
    let first = Visuals::new(Color::from_rgb(1, 0, 0), Color::from_rgb(0, 0, 0), 0, 0);
    let second = Visuals::new(Color::from_rgb(2, 0, 0), Color::from_rgb(0, 0, 0), 0, 0);
    let mut e: UiElement<u32> = UiElement::new(1, UiContent::Empty);
    e.add_transition(Transition::new(100).with_new_visuals(first));
    e.add_transition(Transition::new(100).with_new_visuals(second));
    // A frame long enough for both only completes the head; the second
    // transition waits its turn.
    e.progress_transitions(500);
    assert_eq!(e.visuals, first);
    assert_eq!(e.transitions.len(), 1);
    e.progress_transitions(100);
    assert_eq!(e.visuals, second);
    assert_eq!(e.transitions.len(), 0);
}
