//! A builder for widget-tree elements: construction-time configuration of
//! layout, visuals, tooltip, trigger keys and message-handling rules.

use vstd::prelude::*;
use vstd::std_specs::cmp::PartialEqSpec;

use core::hash::Hash;

use crate::layout::{Alignment, Layout, Padding, Size};
use crate::tiny::keys_view;
use crate::ui_element::{
    cwf, elems_wf, ewf, lemma_elems_push, HandlerRule, UiContent, UiElement,
};
use crate::units::{Frac, LEN_MAX};
use crate::visuals::Visuals;

verus! {

/// Builds a [`UiElement`] step by step. Every method configures one aspect
/// of the element under construction and hands the builder back, so calls
/// can be chained; [`UiElementBuilder::build`] returns the element.
pub struct UiElementBuilder<T: Copy + Eq + Hash + PartialEqSpec> {
    /// The element under construction.
    pub element: UiElement<T>,
}

impl<T: Copy + Eq + Hash + PartialEqSpec> UiElementBuilder<T> {
    /// Starts building an element with the given id and content. All other
    /// fields take their default values. Use id 0 for an element that
    /// should never send messages.
    pub fn new(id: u32, content: UiContent<T>) -> (r: Self)
        requires
            cwf(content),
        ensures
            r.element.id == id,
            r.element.content == content,
            r.element.layout == Layout::spec_default(),
            r.element.visuals == Visuals::spec_default(),
            r.element.hover_visuals is None,
            r.element.tooltip is None,
            r.element.transitions@.len() == 0,
            r.element.message_handler@.len() == 0,
            keys_view(r.element.keys).len() == 0,
            ewf(r.element),
    {
        let element = UiElement::new(id, content);
        proof {
            assert(element.layout.wf());
            assert(element.visuals.wf());
            assert(element.draw_cache.wf());
            assert(crate::ui_element::qwf(element.transitions@));
            assert(forall|i: int|
                0 <= i < element.message_handler@.len() ==> (
                #[trigger] element.message_handler@[i]).wf());
            assert(ewf(element));
        }
        UiElementBuilder { element }
    }

    /// If the element's content is a container, adds the given element to
    /// it (a vertical, horizontal or stack box appends it; a duration box
    /// replaces its wrapped child). Leaf contents discard the element. A
    /// grid takes no unindexed additions.
    pub fn with_child(self, element: UiElement<T>) -> (r: Self)
        requires
            ewf(self.element),
            ewf(element),
            !(self.element.content is Grid),
        ensures
            ewf(r.element),
            r.element == (UiElement { content: r.element.content, ..self.element }),
            match (self.element.content, r.element.content) {
                (UiContent::Vertical(b1), UiContent::Vertical(b2)) => b2.children@
                    == b1.children@.push(element) && b2.spacing == b1.spacing,
                (UiContent::Horizontal(b1), UiContent::Horizontal(b2)) => b2.children@
                    == b1.children@.push(element) && b2.spacing == b1.spacing,
                (UiContent::Stack(b1), UiContent::Stack(b2)) => b2.children@
                    == b1.children@.push(element),
                (UiContent::Duration(d1), UiContent::Duration(d2)) => *d2.child == element
                    && d2.duration == d1.duration,
                (c1, c2) => c1 == c2,
            },
    {
        let mut s = self;
        proof {
            assert(cwf(self.element.content));
        }
        match &mut s.element.content {
            UiContent::Vertical(b) => {
                let ghost pre = b.children@;
                proof {
                    assert(elems_wf(pre));
                    lemma_elems_push(b.children@, element);
                }
                b.children.push(element);
                proof {
                    assert forall|j: int| 0 <= j < b.children@.len() implies ewf(
                        #[trigger] b.children@[j],
                    ) by {
                        if j < pre.len() {
                            assert(b.children@[j] == pre[j]);
                        } else {
                            assert(b.children@[j] == element);
                        }
                    }
                    assert(elems_wf(b.children@));
                }
            },
            UiContent::Horizontal(b) => {
                let ghost pre = b.children@;
                proof {
                    assert(elems_wf(pre));
                    lemma_elems_push(b.children@, element);
                }
                b.children.push(element);
                proof {
                    assert forall|j: int| 0 <= j < b.children@.len() implies ewf(
                        #[trigger] b.children@[j],
                    ) by {
                        if j < pre.len() {
                            assert(b.children@[j] == pre[j]);
                        } else {
                            assert(b.children@[j] == element);
                        }
                    }
                    assert(elems_wf(b.children@));
                }
            },
            UiContent::Stack(b) => {
                let ghost pre = b.children@;
                proof {
                    assert(elems_wf(pre));
                    lemma_elems_push(b.children@, element);
                }
                b.children.push(element);
                proof {
                    assert forall|j: int| 0 <= j < b.children@.len() implies ewf(
                        #[trigger] b.children@[j],
                    ) by {
                        if j < pre.len() {
                            assert(b.children@[j] == pre[j]);
                        } else {
                            assert(b.children@[j] == element);
                        }
                    }
                    assert(elems_wf(b.children@));
                }
            },
            UiContent::Duration(b) => {
                *b.child = element;
            },
            _ => {},
        }
        proof {
            assert(cwf(s.element.content));
            assert(ewf(s.element));
        }
        s
    }

    /// Sets the element's visuals.
    pub fn with_visuals(self, visuals: Visuals) -> (r: Self)
        requires
            ewf(self.element),
            visuals.wf(),
        ensures
            r.element == (UiElement { visuals, ..self.element }),
            ewf(r.element),
    {
        let mut s = self;
        s.element.visuals = visuals;
        s
    }

    /// Sets the element's hover visuals; pass `None` to remove them.
    pub fn with_hover_visuals(self, hover_visuals: Option<Visuals>) -> (r: Self)
        requires
            ewf(self.element),
            match hover_visuals {
                Some(v) => v.wf(),
                None => true,
            },
        ensures
            r.element == (UiElement { hover_visuals, ..self.element }),
            ewf(r.element),
    {
        let mut s = self;
        s.element.hover_visuals = hover_visuals;
        s
    }

    /// Sets the host-side handle of a sound played whenever the element is
    /// triggered by a click; pass `None` for no sound.
    pub fn with_trigger_sound(self, trigger_sound: Option<u64>) -> (r: Self)
        requires
            ewf(self.element),
        ensures
            r.element == (UiElement { trigger_sound, ..self.element }),
            ewf(r.element),
    {
        let mut s = self;
        s.element.trigger_sound = trigger_sound;
        s
    }

    /// Sets the element's tooltip, shown while the pointer hovers the
    /// element (or removes it, passing `None`). Tooltips always shrink in
    /// both dimensions and sit as close to the pointer as possible, so the
    /// tooltip's sizes are forced to the `Shrink` variant.
    pub fn with_tooltip(self, tooltip: Option<UiElement<T>>) -> (r: Self)
        requires
            ewf(self.element),
            match tooltip {
                Some(tt) => ewf(tt),
                None => true,
            },
        ensures
            ewf(r.element),
            r.element == (UiElement { tooltip: r.element.tooltip, ..self.element }),
            match (tooltip, r.element.tooltip) {
                (None, None) => true,
                (Some(tt), Some(boxed)) => *boxed == (UiElement {
                    layout: Layout {
                        x_size: match tt.layout.x_size {
                            Size::Fixed(l) => Size::Shrink(l, LEN_MAX),
                            Size::Fill(lo, hi) => Size::Shrink(lo, hi),
                            Size::Shrink(lo, hi) => Size::Shrink(lo, hi),
                        },
                        y_size: match tt.layout.y_size {
                            Size::Fixed(l) => Size::Shrink(l, LEN_MAX),
                            Size::Fill(lo, hi) => Size::Shrink(lo, hi),
                            Size::Shrink(lo, hi) => Size::Shrink(lo, hi),
                        },
                        ..tt.layout
                    },
                    ..tt
                }),
                _ => false,
            },
    {
        let mut s = self;
        match tooltip {
            None => {
                s.element.tooltip = None;
            },
            Some(tt) => {
                let mut tt = tt;
                tt.layout.x_size = tt.layout.x_size.to_shrink();
                tt.layout.y_size = tt.layout.y_size.to_shrink();
                proof {
                    assert(ewf(tt));
                }
                s.element.tooltip = Some(Box::new(tt));
            },
        }
        proof {
            assert(ewf(s.element));
        }
        s
    }

    /// Sets the element's message-handling rules. Each frame, every rule
    /// whose trigger message is among the frame's messages appends its
    /// transition to the element's queue.
    pub fn with_message_handler(self, handler: Vec<HandlerRule<T>>) -> (r: Self)
        requires
            ewf(self.element),
            forall|i: int| 0 <= i < handler@.len() ==> (#[trigger] handler@[i]).wf(),
        ensures
            r.element == (UiElement { message_handler: r.element.message_handler, ..self.element }),
            r.element.message_handler@ == handler@,
            ewf(r.element),
    {
        let mut s = self;
        s.element.message_handler = handler;
        s
    }

    /// Sets the element's entire layout.
    pub fn with_layout(self, layout: Layout) -> (r: Self)
        requires
            ewf(self.element),
            layout.wf(),
        ensures
            r.element == (UiElement { layout, ..self.element }),
            ewf(r.element),
    {
        let mut s = self;
        s.element.layout = layout;
        s
    }

    /// Sets the offsets of the element's layout; pass `None` to leave one
    /// unchanged. Offsets have no effect under centered alignment.
    pub fn with_offset(self, x_offset: Option<i64>, y_offset: Option<i64>) -> (r: Self)
        requires
            ewf(self.element),
            match x_offset {
                Some(o) => -(LEN_MAX as int) <= o <= LEN_MAX as int,
                None => true,
            },
            match y_offset {
                Some(o) => -(LEN_MAX as int) <= o <= LEN_MAX as int,
                None => true,
            },
        ensures
            r.element == (UiElement {
                layout: Layout {
                    x_offset: match x_offset {
                        Some(o) => o,
                        None => self.element.layout.x_offset,
                    },
                    y_offset: match y_offset {
                        Some(o) => o,
                        None => self.element.layout.y_offset,
                    },
                    ..self.element.layout
                },
                ..self.element
            }),
            ewf(r.element),
    {
        let mut s = self;
        if let Some(o) = x_offset {
            s.element.layout.x_offset = o;
        }
        if let Some(o) = y_offset {
            s.element.layout.y_offset = o;
        }
        s
    }

    /// Sets the alignments of the element's layout; pass `None` to leave
    /// one unchanged.
    pub fn with_alignment(self, x_alignment: Option<Alignment>, y_alignment: Option<Alignment>)
        -> (r: Self)
        requires
            ewf(self.element),
        ensures
            r.element == (UiElement {
                layout: Layout {
                    x_alignment: match x_alignment {
                        Some(a) => a,
                        None => self.element.layout.x_alignment,
                    },
                    y_alignment: match y_alignment {
                        Some(a) => a,
                        None => self.element.layout.y_alignment,
                    },
                    ..self.element.layout
                },
                ..self.element
            }),
            ewf(r.element),
    {
        let mut s = self;
        if let Some(a) = x_alignment {
            s.element.layout.x_alignment = a;
        }
        if let Some(a) = y_alignment {
            s.element.layout.y_alignment = a;
        }
        s
    }

    /// Registers a key code that triggers this element as a click would.
    pub fn with_trigger_key(self, key: u32) -> (r: Self)
        requires
            ewf(self.element),
        ensures
            ewf(r.element),
            r.element == (UiElement { keys: r.element.keys, ..self.element }),
            keys_view(r.element.keys) == keys_view(self.element.keys).push(key),
    {
        let mut s = self;
        s.element.keys.push(key);
        s
    }

    /// Sets the padding of the element's layout.
    pub fn with_padding(self, padding: Padding) -> (r: Self)
        requires
            ewf(self.element),
            padding.wf(),
        ensures
            r.element == (UiElement {
                layout: Layout { padding, ..self.element.layout },
                ..self.element
            }),
            ewf(r.element),
    {
        let mut s = self;
        s.element.layout.padding = padding;
        s
    }

    /// Sets whether the element's content keeps the aspect ratio of its
    /// minimum size.
    pub fn with_preserve_ratio(self, preserve_ratio: bool) -> (r: Self)
        requires
            ewf(self.element),
        ensures
            r.element == (UiElement {
                layout: Layout { preserve_ratio, ..self.element.layout },
                ..self.element
            }),
            ewf(r.element),
    {
        let mut s = self;
        s.element.layout.preserve_ratio = preserve_ratio;
        s
    }

    /// Sets the sizes of the element's layout; pass `None` to leave one
    /// unchanged.
    pub fn with_size(self, x_size: Option<Size>, y_size: Option<Size>) -> (r: Self)
        requires
            ewf(self.element),
            match x_size {
                Some(sz) => sz.wf(),
                None => true,
            },
            match y_size {
                Some(sz) => sz.wf(),
                None => true,
            },
        ensures
            r.element == (UiElement {
                layout: Layout {
                    x_size: match x_size {
                        Some(sz) => sz,
                        None => self.element.layout.x_size,
                    },
                    y_size: match y_size {
                        Some(sz) => sz,
                        None => self.element.layout.y_size,
                    },
                    ..self.element.layout
                },
                ..self.element
            }),
            ewf(r.element),
    {
        let mut s = self;
        if let Some(sz) = x_size {
            s.element.layout.x_size = sz;
        }
        if let Some(sz) = y_size {
            s.element.layout.y_size = sz;
        }
        s
    }

    /// Changes both sizes of the element to the `Shrink` variant, keeping
    /// their bounds.
    pub fn as_shrink(self) -> (r: Self)
        requires
            ewf(self.element),
        ensures
            ewf(r.element),
            r.element == (UiElement {
                layout: Layout {
                    x_size: match self.element.layout.x_size {
                        Size::Fixed(l) => Size::Shrink(l, LEN_MAX),
                        Size::Fill(lo, hi) => Size::Shrink(lo, hi),
                        Size::Shrink(lo, hi) => Size::Shrink(lo, hi),
                    },
                    y_size: match self.element.layout.y_size {
                        Size::Fixed(l) => Size::Shrink(l, LEN_MAX),
                        Size::Fill(lo, hi) => Size::Shrink(lo, hi),
                        Size::Shrink(lo, hi) => Size::Shrink(lo, hi),
                    },
                    ..self.element.layout
                },
                ..self.element
            }),
    {
        let mut s = self;
        s.element.layout.x_size = s.element.layout.x_size.to_shrink();
        s.element.layout.y_size = s.element.layout.y_size.to_shrink();
        s
    }

    /// Changes both sizes of the element to the `Fill` variant, keeping
    /// their bounds.
    pub fn as_fill(self) -> (r: Self)
        requires
            ewf(self.element),
        ensures
            ewf(r.element),
            r.element == (UiElement {
                layout: Layout {
                    x_size: match self.element.layout.x_size {
                        Size::Fixed(l) => Size::Fill(l, LEN_MAX),
                        Size::Fill(lo, hi) => Size::Fill(lo, hi),
                        Size::Shrink(lo, hi) => Size::Fill(lo, hi),
                    },
                    y_size: match self.element.layout.y_size {
                        Size::Fixed(l) => Size::Fill(l, LEN_MAX),
                        Size::Fill(lo, hi) => Size::Fill(lo, hi),
                        Size::Shrink(lo, hi) => Size::Fill(lo, hi),
                    },
                    ..self.element.layout
                },
                ..self.element
            }),
    {
        let mut s = self;
        s.element.layout.x_size = s.element.layout.x_size.to_fill();
        s.element.layout.y_size = s.element.layout.y_size.to_fill();
        s
    }

    /// Scales the bounds of the element's sizes by the given factors; pass
    /// `None` to leave an axis unchanged.
    pub fn scaled(self, x_scale: Option<Frac>, y_scale: Option<Frac>) -> (r: Self)
        requires
            ewf(self.element),
            match x_scale {
                Some(f) => f.wf(),
                None => true,
            },
            match y_scale {
                Some(f) => f.wf(),
                None => true,
            },
        ensures
            ewf(r.element),
            r.element.id == self.element.id,
            r.element.content == self.element.content,
            r.element.layout.padding == self.element.layout.padding,
    {
        let mut s = self;
        if let Some(f) = x_scale {
            s.element.layout.x_size = s.element.layout.x_size.scale(f);
        }
        if let Some(f) = y_scale {
            s.element.layout.y_size = s.element.layout.y_size.scale(f);
        }
        s
    }

    /// Configures the element as a wrapper around a child of the given
    /// layout: it fills at least the child's padded minimum in both
    /// directions and adds no padding of its own.
    pub fn with_wrapper_layout(self, wrapped_layout: Layout) -> (r: Self)
        requires
            ewf(self.element),
            wrapped_layout.wf(),
        ensures
            ewf(r.element),
            r.element.layout.x_size == Size::Fill(
                crate::units::cap_len(
                    crate::units::cap_len(
                        wrapped_layout.x_size.spec_min() + wrapped_layout.padding.right,
                    ) + wrapped_layout.padding.left,
                ) as u64,
                LEN_MAX,
            ),
            r.element.layout.y_size == Size::Fill(
                crate::units::cap_len(
                    crate::units::cap_len(
                        wrapped_layout.y_size.spec_min() + wrapped_layout.padding.top,
                    ) + wrapped_layout.padding.bottom,
                ) as u64,
                LEN_MAX,
            ),
            r.element.layout.padding == (Padding { top: 0, right: 0, bottom: 0, left: 0 }),
    {
        let min_w = crate::units::ladd(
            crate::units::ladd(wrapped_layout.x_size.min(), wrapped_layout.padding.right),
            wrapped_layout.padding.left,
        );
        let min_h = crate::units::ladd(
            crate::units::ladd(wrapped_layout.y_size.min(), wrapped_layout.padding.top),
            wrapped_layout.padding.bottom,
        );
        self.with_size(
            Some(Size::Fill(min_w, LEN_MAX)),
            Some(Size::Fill(min_h, LEN_MAX)),
        ).with_padding(Padding { top: 0, right: 0, bottom: 0, left: 0 })
    }

    /// Returns the built element.
    pub fn build(self) -> (r: UiElement<T>)
        ensures
            r == self.element,
    {
        self.element
    }
}

} // verus!
