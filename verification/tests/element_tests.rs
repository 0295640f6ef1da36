//! Tests for the element tree: the draw cycle, the draw cache, messages
//! and tree editing.

use mooeye::containers::{DurationBox, GridBox, StackBox, VerticalBox};
use mooeye::draw_cache::DrawCache;
use mooeye::layout::{Alignment, Padding, Rect, Size};
use mooeye::message::{UiMessage, UiMessageSet};
use mooeye::transition::Transition;
use mooeye::ui_element::{DrawCommand, FrameInput, HandlerRule, UiContent, UiElement, UiError};
use mooeye::ui_element_builder::UiElementBuilder;
use mooeye::units::LEN_MAX;
use mooeye::visuals::{Color, Visuals};

fn quiet_input(screen_w: u64, screen_h: u64) -> FrameInput {
    FrameInput {
        delta: 16,
        mouse_x: -1000,
        mouse_y: -1000,
        mouse_pressed_left: false,
        mouse_pressed_right: false,
        keys_pressed: Vec::new(),
        screen_w,
        screen_h,
    }
}

fn full_size_leaf(id: u32, handle: u64) -> UiElement<u32> {
    UiElementBuilder::new(id, UiContent::Leaf(handle))
        .with_size(Some(Size::Fill(0, LEN_MAX)), Some(Size::Fill(0, LEN_MAX)))
        .with_padding(Padding { top: 0, right: 0, bottom: 0, left: 0 })
        .build()
}

#[test]
fn drawing_a_leaf_emits_background_then_content() {
    let mut e = full_size_leaf(1, 77);
    let mut out: Vec<DrawCommand> = Vec::new();
    e.draw_to_screen(&quiet_input(200, 100), true, &mut out);
    assert_eq!(out.len(), 2);
    let full = Rect { x: 0, y: 0, w: 200, h: 100 };
    assert_eq!(
        out[0],
        DrawCommand::Background { rect: full, visuals: Visuals::default(), z: 0 },
    );
    assert_eq!(out[1], DrawCommand::Content { handle: 77, rect: full, z: 0 });
}

#[test]
fn second_draw_with_same_target_reuses_the_cache() {
    // Two consecutive draws with an identical target and no pending
    // layout-changing transition: the second performs no geometry
    // recomputation — the cache stays valid with outer and inner
    // unchanged.
    let mut e = full_size_leaf(1, 5);
    let mut out: Vec<DrawCommand> = Vec::new();
    e.draw_to_screen(&quiet_input(200, 100), true, &mut out);
    let cache_after_first = e.draw_cache;
    assert!(matches!(cache_after_first, DrawCache::Valid { .. }));
    e.draw_to_screen(&quiet_input(200, 100), true, &mut out);
    assert_eq!(e.draw_cache, cache_after_first);
}

#[test]
fn changed_target_invalidates_and_recomputes() {
    let mut e = full_size_leaf(1, 5);
    let mut out: Vec<DrawCommand> = Vec::new();
    e.draw_to_screen(&quiet_input(200, 100), true, &mut out);
    let first = e.draw_cache;
    e.draw_to_screen(&quiet_input(300, 100), true, &mut out);
    assert_ne!(e.draw_cache, first);
    match e.draw_cache {
        DrawCache::Valid { target, .. } => {
            assert_eq!(target, Rect { x: 0, y: 0, w: 300, h: 100 });
        },
        DrawCache::Invalid => panic!("cache should be valid after the draw"),
    }
}

#[test]
fn oversized_element_is_skipped_for_the_frame() {
    // An element whose resolved outer rectangle exceeds the target is not
    // drawn this frame; the cache stays invalid.
    let mut e: UiElement<u32> = UiElementBuilder::new(1, UiContent::Empty)
        .with_size(Some(Size::Fixed(500)), Some(Size::Fixed(500)))
        .with_padding(Padding { top: 0, right: 0, bottom: 0, left: 0 })
        .build();
    let mut out: Vec<DrawCommand> = Vec::new();
    e.draw_to_screen(&quiet_input(100, 100), true, &mut out);
    assert_eq!(out.len(), 0);
    assert_eq!(e.draw_cache, DrawCache::Invalid);
}

#[test]
fn vertical_box_draws_children_in_strips() {
    let mut vbox: VerticalBox<u32> = VerticalBox::new_spaced(10);
    vbox.add(full_size_leaf(0, 1));
    vbox.add(full_size_leaf(0, 2));
    let mut root: UiElement<u32> = UiElementBuilder::new(0, UiContent::Vertical(vbox))
        .with_size(Some(Size::Fill(0, LEN_MAX)), Some(Size::Fill(0, LEN_MAX)))
        .with_padding(Padding { top: 0, right: 0, bottom: 0, left: 0 })
        .build();
    let mut out: Vec<DrawCommand> = Vec::new();
    root.draw_to_screen(&quiet_input(100, 110), true, &mut out);
    // Root background, then per child: background and content.
    assert_eq!(out.len(), 5);
    // 110 less 10 spacing leaves 100, split as 50 + 50; the second strip
    // starts below the first plus the spacing.
    assert_eq!(
        out[2],
        DrawCommand::Content { handle: 1, rect: Rect { x: 0, y: 0, w: 100, h: 50 }, z: 0 },
    );
    assert_eq!(
        out[4],
        DrawCommand::Content { handle: 2, rect: Rect { x: 0, y: 60, w: 100, h: 50 }, z: 0 },
    );
}

#[test]
fn stack_box_paints_front_child_last() {
    let mut stack: StackBox<u32> = StackBox::new();
    stack.add(full_size_leaf(0, 1));
    stack.add_top(full_size_leaf(0, 2));
    let mut root: UiElement<u32> = UiElementBuilder::new(0, UiContent::Stack(stack))
        .with_size(Some(Size::Fill(0, LEN_MAX)), Some(Size::Fill(0, LEN_MAX)))
        .with_padding(Padding { top: 0, right: 0, bottom: 0, left: 0 })
        .build();
    let mut out: Vec<DrawCommand> = Vec::new();
    root.draw_to_screen(&quiet_input(50, 50), true, &mut out);
    // The child at position zero (handle 2) is painted last, on top.
    let handles: Vec<u64> = out
        .iter()
        .filter_map(|c| match c {
            DrawCommand::Content { handle, .. } => Some(*handle),
            _ => None,
        })
        .collect();
    assert_eq!(handles, vec![1, 2]);
}

#[test]
fn hover_uses_hover_visuals() {
    let base = Visuals::new(Color::from_rgb(10, 10, 10), Color::from_rgb(0, 0, 0), 0, 0);
    let hover = Visuals::new(Color::from_rgb(200, 0, 0), Color::from_rgb(0, 0, 0), 0, 0);
    let mut e: UiElement<u32> = UiElementBuilder::new(1, UiContent::Empty)
        .with_size(Some(Size::Fill(0, LEN_MAX)), Some(Size::Fill(0, LEN_MAX)))
        .with_padding(Padding { top: 0, right: 0, bottom: 0, left: 0 })
        .with_visuals(base)
        .with_hover_visuals(Some(hover))
        .build();
    let mut out: Vec<DrawCommand> = Vec::new();
    // First frame fills the cache (pointer far away): base visuals.
    e.draw_to_screen(&quiet_input(100, 100), true, &mut out);
    assert_eq!(out[0], DrawCommand::Background {
        rect: Rect { x: 0, y: 0, w: 100, h: 100 },
        visuals: base,
        z: 0,
    });
    // Second frame with the pointer inside last frame's rectangle.
    let mut input = quiet_input(100, 100);
    input.mouse_x = 50;
    input.mouse_y = 50;
    out.clear();
    e.draw_to_screen(&input, true, &mut out);
    assert_eq!(out[0], DrawCommand::Background {
        rect: Rect { x: 0, y: 0, w: 100, h: 100 },
        visuals: hover,
        z: 0,
    });
}

#[test]
fn click_inside_last_frame_rectangle_sends_messages() {
    let mut e = full_size_leaf(7, 1);
    let mut out: Vec<DrawCommand> = Vec::new();
    e.draw_to_screen(&quiet_input(100, 100), true, &mut out);
    let mut input = quiet_input(100, 100);
    input.mouse_x = 10;
    input.mouse_y = 10;
    input.mouse_pressed_left = true;
    let (messages, _sounds) = e.update(&input, None);
    assert!(messages.contains(&UiMessage::Clicked(7)));
    assert!(messages.contains(&UiMessage::Triggered(7)));
    assert!(!messages.contains(&UiMessage::ClickedRight(7)));
}

#[test]
fn id_zero_sends_no_messages() {
    let mut e = full_size_leaf(0, 1);
    let mut out: Vec<DrawCommand> = Vec::new();
    e.draw_to_screen(&quiet_input(100, 100), true, &mut out);
    let mut input = quiet_input(100, 100);
    input.mouse_x = 10;
    input.mouse_y = 10;
    input.mouse_pressed_left = true;
    let (messages, _sounds) = e.update(&input, None);
    assert_eq!(messages.len(), 0);
}

#[test]
fn trigger_key_sends_pressed_key() {
    let mut e: UiElement<u32> = UiElementBuilder::new(9, UiContent::Empty)
        .with_trigger_key(42)
        .build();
    let mut input = quiet_input(100, 100);
    input.keys_pressed.push(42);
    let (messages, _sounds) = e.update(&input, None);
    assert!(messages.contains(&UiMessage::PressedKey(9)));
    assert!(messages.contains(&UiMessage::Triggered(9)));
}

#[test]
fn clicked_element_reports_its_trigger_sound() {
    let mut e: UiElement<u32> = UiElementBuilder::new(3, UiContent::Empty)
        .with_size(Some(Size::Fill(0, LEN_MAX)), Some(Size::Fill(0, LEN_MAX)))
        .with_padding(Padding { top: 0, right: 0, bottom: 0, left: 0 })
        .with_trigger_sound(Some(88))
        .build();
    let mut out: Vec<DrawCommand> = Vec::new();
    e.draw_to_screen(&quiet_input(100, 100), true, &mut out);
    let mut input = quiet_input(100, 100);
    input.mouse_x = 10;
    input.mouse_y = 10;
    input.mouse_pressed_left = true;
    let (_messages, sounds) = e.update(&input, None);
    assert_eq!(sounds, vec![88]);
}

#[test]
fn handler_rule_enqueues_transition_on_extern_message() {
    let goal = Visuals::new(Color::from_rgb(5, 5, 5), Color::from_rgb(0, 0, 0), 0, 0);
    let rule = HandlerRule {
        on: UiMessage::Extern(1u32),
        duration: 500,
        new_layout: None,
        new_visuals: Some(goal),
        new_hover_visuals: None,
    };
    let mut e: UiElement<u32> = UiElementBuilder::new(2, UiContent::Empty)
        .with_message_handler(vec![rule])
        .build();
    let mut ext: UiMessageSet<u32> = UiMessageSet::new();
    ext.insert(UiMessage::Extern(1u32));
    let (_messages, _sounds) = e.update(&quiet_input(100, 100), Some(ext));
    assert_eq!(e.transitions.len(), 1);
    // A message that matches no rule enqueues nothing further.
    let mut other: UiMessageSet<u32> = UiMessageSet::new();
    other.insert(UiMessage::Extern(2u32));
    let (_messages, _sounds) = e.update(&quiet_input(100, 100), Some(other));
    assert_eq!(e.transitions.len(), 1);
}

#[test]
fn expired_duration_box_child_is_removed() {
    let mut vbox: VerticalBox<u32> = VerticalBox::new();
    let short_lived = DurationBox::new(20, full_size_leaf(4, 1));
    vbox.add(
        UiElementBuilder::new(4, UiContent::Duration(short_lived)).build(),
    );
    let mut root: UiElement<u32> = UiElementBuilder::new(0, UiContent::Vertical(vbox))
        .with_size(Some(Size::Fill(0, LEN_MAX)), Some(Size::Fill(0, LEN_MAX)))
        .build();
    let mut out: Vec<DrawCommand> = Vec::new();
    // Two frames of 16 ms use up the 20 ms lifetime.
    root.draw_to_screen(&quiet_input(100, 100), true, &mut out);
    root.draw_to_screen(&quiet_input(100, 100), true, &mut out);
    root.update(&quiet_input(100, 100), None);
    match &root.content {
        UiContent::Vertical(b) => assert_eq!(b.children.len(), 0),
        _ => panic!("content should still be a vertical box"),
    }
}

#[test]
fn add_element_reaches_the_container_with_the_id() {
    let vbox: VerticalBox<u32> = VerticalBox::new();
    let mut root: UiElement<u32> = UiElementBuilder::new(11, UiContent::Vertical(vbox)).build();
    let placed = root.add_element(11, full_size_leaf(5, 9));
    assert!(placed.is_none());
    match &root.content {
        UiContent::Vertical(b) => assert_eq!(b.children.len(), 1),
        _ => panic!("content should be a vertical box"),
    }
    // An id that no container carries hands the element back.
    let returned = root.add_element(99, full_size_leaf(6, 9));
    assert!(returned.is_some());
}

#[test]
fn remove_elements_deletes_all_with_the_id() {
    let mut vbox: VerticalBox<u32> = VerticalBox::new();
    vbox.add(full_size_leaf(5, 1));
    vbox.add(full_size_leaf(6, 2));
    vbox.add(full_size_leaf(5, 3));
    let mut root: UiElement<u32> = UiElementBuilder::new(0, UiContent::Vertical(vbox)).build();
    root.remove_elements(5);
    match &root.content {
        UiContent::Vertical(b) => {
            assert_eq!(b.children.len(), 1);
            assert_eq!(b.children[0].get_id(), 6);
        },
        _ => panic!("content should be a vertical box"),
    }
}

#[test]
fn grid_add_rejects_out_of_bounds_cells() {
    let mut grid: GridBox<u32> = GridBox::new(2, 2);
    assert_eq!(grid.add(full_size_leaf(1, 1), 1, 1), Ok(()));
    assert_eq!(
        grid.add(full_size_leaf(1, 1), 2, 0),
        Err(UiError::IndexOutOfBounds),
    );
    assert_eq!(
        grid.add(full_size_leaf(1, 1), 0, 2),
        Err(UiError::IndexOutOfBounds),
    );
}

#[test]
fn grid_distributes_width_per_column() {
    let mut grid: GridBox<u32> = GridBox::new_spaced(2, 1, 10, 0);
    grid.add(
        UiElementBuilder::new(0, UiContent::Empty)
            .with_size(Some(Size::Fixed(30)), Some(Size::Fixed(10)))
            .with_padding(Padding { top: 0, right: 0, bottom: 0, left: 0 })
            .build(),
        0,
        0,
    )
    .unwrap();
    grid.add(
        UiElementBuilder::new(0, UiContent::Empty)
            .with_size(Some(Size::Fill(0, LEN_MAX)), Some(Size::Fixed(10)))
            .with_padding(Padding { top: 0, right: 0, bottom: 0, left: 0 })
            .build(),
        1,
        0,
    )
    .unwrap();
    let widths = grid.get_column_widths(100);
    // The fixed column keeps 30; the fill column absorbs the rest of the
    // 100 less the 10 units of column spacing.
    assert_eq!(widths.len(), 2);
    assert_eq!(widths.get(0), 30);
    assert_eq!(widths.get(1), 60);
}

#[test]
fn tooltip_draws_above_its_owner_when_hovered() {
    let tooltip = full_size_leaf(0, 50);
    let mut e: UiElement<u32> = UiElementBuilder::new(1, UiContent::Leaf(7))
        .with_size(Some(Size::Fill(0, LEN_MAX)), Some(Size::Fill(0, LEN_MAX)))
        .with_padding(Padding { top: 0, right: 0, bottom: 0, left: 0 })
        .with_tooltip(Some(tooltip))
        .build();
    let mut out: Vec<DrawCommand> = Vec::new();
    e.draw_to_screen(&quiet_input(100, 100), true, &mut out);
    // Second frame with the pointer inside: the tooltip is drawn with a
    // higher paint priority than its owner.
    let mut input = quiet_input(100, 100);
    input.mouse_x = 40;
    input.mouse_y = 40;
    out.clear();
    e.draw_to_screen(&input, true, &mut out);
    let tooltip_cmds: Vec<i32> = out
        .iter()
        .filter_map(|c| match c {
            DrawCommand::Content { handle: 50, z, .. } => Some(*z),
            _ => None,
        })
        .collect();
    assert_eq!(tooltip_cmds, vec![1]);
}

#[test]
fn builder_configures_layout_fields() {
    let e: UiElement<u32> = UiElementBuilder::new(4, UiContent::Empty)
        .with_alignment(Some(Alignment::Min), Some(Alignment::Max))
        .with_offset(Some(12), None)
        .with_padding(Padding { top: 1, right: 2, bottom: 3, left: 4 })
        .with_preserve_ratio(true)
        .with_size(Some(Size::Fixed(40)), Some(Size::Shrink(1, 2)))
        .build();
    assert_eq!(e.get_id(), 4);
    let l = e.get_layout();
    assert_eq!(l.x_alignment, Alignment::Min);
    assert_eq!(l.y_alignment, Alignment::Max);
    assert_eq!(l.x_offset, 12);
    assert_eq!(l.y_offset, 0);
    assert_eq!(l.padding, Padding { top: 1, right: 2, bottom: 3, left: 4 });
    assert!(l.preserve_ratio);
    assert_eq!(l.x_size, Size::Fixed(40));
    assert_eq!(l.y_size, Size::Shrink(1, 2));
}

#[test]
fn builder_as_shrink_and_as_fill_convert_sizes() {
    let e: UiElement<u32> = UiElementBuilder::new(0, UiContent::Empty)
        .with_size(Some(Size::Fixed(25)), Some(Size::Fill(5, 50)))
        .as_shrink()
        .build();
    assert_eq!(e.get_layout().x_size, Size::Shrink(25, LEN_MAX));
    assert_eq!(e.get_layout().y_size, Size::Shrink(5, 50));
    let f: UiElement<u32> = UiElementBuilder::new(0, UiContent::Empty)
        .with_size(Some(Size::Shrink(7, 70)), None)
        .as_fill()
        .build();
    assert_eq!(f.get_layout().x_size, Size::Fill(7, 70));
}

#[test]
fn builder_tooltip_is_forced_to_shrink() {
    let tooltip: UiElement<u32> = UiElementBuilder::new(0, UiContent::Empty)
        .with_size(Some(Size::Fill(30, 200)), Some(Size::Fixed(20)))
        .build();
    let e: UiElement<u32> = UiElementBuilder::new(1, UiContent::Empty)
        .with_tooltip(Some(tooltip))
        .build();
    let tt = e.tooltip.expect("tooltip should be set");
    assert_eq!(tt.get_layout().x_size, Size::Shrink(30, 200));
    assert_eq!(tt.get_layout().y_size, Size::Shrink(20, LEN_MAX));
}
