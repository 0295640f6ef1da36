//! Timed transitions: queued changes to an element's layout, visuals,
//! content or tooltip that blend in linearly over a duration and are
//! committed when the duration has elapsed.

use vstd::prelude::*;
use vstd::std_specs::cmp::PartialEqSpec;

use core::hash::Hash;

use crate::layout::{Layout, Rect};
use crate::ui_element::{UiContent, UiElement};
use crate::units::{lerp_coord, lerp_len, spec_lerp_len, Ratio};
use crate::visuals::Visuals;

verus! {

/// A queued change to an element. While it is the head of the queue and its
/// duration has not elapsed, the element's drawn layout and visuals are
/// blended between the current and the new values; when the duration has
/// elapsed, every field that is present is committed to the element.
/// All unset fields leave the element untouched.
pub struct Transition<T: Copy + Eq + Hash + PartialEqSpec> {
    /// The layout transitioned to, if any.
    pub new_layout: Option<Layout>,
    /// The visuals transitioned to, if any.
    pub new_visuals: Option<Visuals>,
    /// The hover visuals transitioned to, if any; `Some(None)` removes the
    /// element's hover visuals.
    pub new_hover_visuals: Option<Option<Visuals>>,
    /// The content transitioned to, if any; committed in one frame.
    pub new_content: Option<UiContent<T>>,
    /// The tooltip transitioned to, if any; committed in one frame.
    pub new_tooltip: Option<Option<Box<UiElement<T>>>>,
    /// The total duration of the transition, in milliseconds.
    pub total_duration: u64,
    /// How much of the duration has elapsed, in milliseconds.
    pub progressed_duration: u64,
}

/// The progress of a transition as an exact fraction: zero before any time
/// has elapsed, `elapsed / total` in between, and exactly one from the
/// moment the elapsed time reaches the total duration.
pub open spec fn spec_progress_ratio(progressed: u64, total: u64) -> Ratio {
    if progressed >= total {
        Ratio { num: 1, den: 1 }
    } else {
        Ratio { num: progressed, den: total }
    }
}

/// The progress ratio of a transition is zero at creation, reaches exactly
/// one in the frame where the cumulative elapsed time first meets the total
/// duration, and stays one afterwards.
pub proof fn lemma_progress_ratio_endpoints(progressed: u64, total: u64)
    ensures
        progressed == 0 && total > 0 ==> spec_progress_ratio(progressed, total).spec_is_zero(),
        spec_progress_ratio(progressed, total).spec_is_one() <==> progressed >= total,
        spec_progress_ratio(progressed, total).wf(),
{
}

impl<T: Copy + Eq + Hash + PartialEqSpec> Transition<T> {
    /// Creates a transition of the given duration (in milliseconds) with no
    /// changes attached. Useful on its own as a delay before transitions
    /// queued after it.
    pub fn new(duration: u64) -> (r: Self)
        ensures
            r.new_layout is None,
            r.new_visuals is None,
            r.new_hover_visuals is None,
            r.new_content is None,
            r.new_tooltip is None,
            r.total_duration == duration,
            r.progressed_duration == 0,
            r.get_progress_ratio_spec().spec_is_one() <==> duration == 0,
            duration > 0 ==> r.get_progress_ratio_spec().spec_is_zero(),
    {
        Transition {
            new_layout: None,
            new_visuals: None,
            new_hover_visuals: None,
            new_content: None,
            new_tooltip: None,
            total_duration: duration,
            progressed_duration: 0,
        }
    }

    /// Augments this transition to gradually change the element's layout,
    /// moving it smoothly between the two positions.
    pub fn with_new_layout(self, new_layout: Layout) -> (r: Self)
        ensures
            r == (Transition { new_layout: Some(new_layout), ..self }),
    {
        Transition { new_layout: Some(new_layout), ..self }
    }

    /// Augments this transition to gradually change the element's visuals,
    /// blending over smoothly.
    pub fn with_new_visuals(self, new_visuals: Visuals) -> (r: Self)
        ensures
            r == (Transition { new_visuals: Some(new_visuals), ..self }),
    {
        Transition { new_visuals: Some(new_visuals), ..self }
    }

    /// Augments this transition to gradually change the visuals shown while
    /// the element is hovered. Passing `None` removes any special hover
    /// visuals, blending them towards the element's base visuals.
    pub fn with_new_hover_visuals(self, new_hover_visuals: Option<Visuals>) -> (r: Self)
        ensures
            r == (Transition { new_hover_visuals: Some(new_hover_visuals), ..self }),
    {
        Transition { new_hover_visuals: Some(new_hover_visuals), ..self }
    }

    /// Augments this transition to replace the element's content. The change
    /// happens in a single frame as soon as the duration has elapsed.
    pub fn with_new_content(self, new_content: UiContent<T>) -> (r: Self)
        ensures
            r == (Transition { new_content: Some(new_content), ..self }),
    {
        Transition { new_content: Some(new_content), ..self }
    }

    /// Augments this transition to replace the element's tooltip (or remove
    /// it, passing `None`). The change happens in a single frame as soon as
    /// the duration has elapsed.
    pub fn with_new_tooltip(self, new_tooltip: Option<UiElement<T>>) -> (r: Self)
        ensures
            r.new_layout == self.new_layout,
            r.new_visuals == self.new_visuals,
            r.new_hover_visuals == self.new_hover_visuals,
            r.new_content == self.new_content,
            r.total_duration == self.total_duration,
            r.progressed_duration == self.progressed_duration,
            match new_tooltip {
                Some(element) => r.new_tooltip == Some(Some(Box::new(element))),
                None => r.new_tooltip == Option::<Option<Box<UiElement<T>>>>::None,
            },
    {
        let nt = match new_tooltip {
            Some(element) => Some(Some(Box::new(element))),
            None => None,
        };
        Transition { new_tooltip: nt, ..self }
    }

    /// Advances the internal timer by `delta` milliseconds (saturating).
    /// Returns whether the transition is now complete.
    pub fn progress(&mut self, delta: u64) -> (complete: bool)
        ensures
            *final(self) == (Transition {
                progressed_duration: if old(self).progressed_duration + delta
                    <= u64::MAX { (old(self).progressed_duration + delta) as u64 } else {
                    u64::MAX
                },
                ..*old(self)
            }),
            complete == (final(self).progressed_duration >= final(self).total_duration),
    {
        if delta <= u64::MAX - self.progressed_duration {
            self.progressed_duration = self.progressed_duration + delta;
        } else {
            self.progressed_duration = u64::MAX;
        }
        self.progressed_duration >= self.total_duration
    }

    /// The progress ratio of this transition.
    pub open spec fn get_progress_ratio_spec(self) -> Ratio {
        spec_progress_ratio(self.progressed_duration, self.total_duration)
    }

    /// Returns how much of the total duration has elapsed, as a fraction in
    /// `[0, 1]`: zero at creation and exactly one from the frame where the
    /// elapsed time reaches the total duration.
    pub fn get_progress_ratio(&self) -> (r: Ratio)
        ensures
            r == self.get_progress_ratio_spec(),
            r.wf(),
    {
        if self.progressed_duration >= self.total_duration {
            Ratio { num: 1, den: 1 }
        } else {
            Ratio { num: self.progressed_duration, den: self.total_duration }
        }
    }
}

/// The field-wise blend of two rectangles: `rect1` weighted by `1 - ratio`
/// and `rect2` by `ratio`, so that a ratio of zero gives `rect1` and a ratio
/// of one gives `rect2`, moving linearly in between.
pub open spec fn spec_average_rect(rect1: Rect, rect2: Rect, ratio: Ratio) -> Rect {
    Rect {
        x: spec_lerp_len(rect1.x as int, rect2.x as int, ratio.num as int, ratio.den as int)
            as i64,
        y: spec_lerp_len(rect1.y as int, rect2.y as int, ratio.num as int, ratio.den as int)
            as i64,
        w: spec_lerp_len(rect1.w as int, rect2.w as int, ratio.num as int, ratio.den as int)
            as u64,
        h: spec_lerp_len(rect1.h as int, rect2.h as int, ratio.num as int, ratio.den as int)
            as u64,
    }
}

/// Returns the field-wise weighted average of two rectangles.
pub fn average_rect(rect1: &Rect, rect2: &Rect, ratio: Ratio) -> (r: Rect)
    requires
        rect1.wf(),
        rect2.wf(),
        ratio.wf(),
    ensures
        r == spec_average_rect(*rect1, *rect2, ratio),
        r.wf(),
{
    Rect {
        x: lerp_coord(rect1.x, rect2.x, ratio.num, ratio.den),
        y: lerp_coord(rect1.y, rect2.y, ratio.num, ratio.den),
        w: lerp_len(rect1.w, rect2.w, ratio.num, ratio.den),
        h: lerp_len(rect1.h, rect2.h, ratio.num, ratio.den),
    }
}

} // verus!
