//! The widget tree: the element node type, its content, the builder, and
//! the per-frame draw and update cycles.

use vstd::prelude::*;
use vstd::std_specs::cmp::PartialEqSpec;

use core::hash::Hash;

use crate::containers::{DurationBox, GridBox, HorizontalBox, StackBox, VerticalBox};
use crate::draw_cache::{cache_inner, cache_outer, DrawCache};
use crate::layout::{Layout, Rect, Size};
use crate::message::{reflects_eq, UiMessage};
use crate::message::UiMessageSet;
use crate::tiny::KeyList;
use crate::transition::Transition;
use crate::units::{cap_len, ladd, lclamp, len_ok, muldiv_len, spec_clamp, LEN_MAX};
use crate::visuals::Visuals;

verus! {

/// An error reported by a tree operation.
#[derive(Clone, Copy, Debug, PartialEq, Eq, Structural)]
pub enum UiError {
    /// A grid insertion named a cell outside the grid's declared columns
    /// and rows. The operation did not change the grid.
    IndexOutOfBounds,
}

/// The parameters handed down to an element when it is drawn: the target
/// rectangle, whether the element may react to the mouse, and the paint
/// priority of the commands it emits.
#[derive(Clone, Copy, Debug, PartialEq, Eq, Structural)]
pub struct UiDrawParam {
    /// The rectangular area the element shall be drawn into.
    pub target: Rect,
    /// Whether the element should react to the mouse position (hover
    /// visuals, tooltips).
    pub mouse_listen: bool,
    /// The paint priority of the emitted draw commands; higher values paint
    /// on top.
    pub z: i32,
}

impl UiDrawParam {
    /// Returns a default parameter set: an empty target at the origin,
    /// mouse listening enabled, paint priority zero.
    pub fn new() -> (r: Self)
        ensures
            r == (UiDrawParam {
                target: Rect { x: 0, y: 0, w: 0, h: 0 },
                mouse_listen: true,
                z: 0,
            }),
    {
        UiDrawParam { target: Rect { x: 0, y: 0, w: 0, h: 0 }, mouse_listen: true, z: 0 }
    }

    /// Returns these parameters with the target area replaced.
    pub fn target(self, target: Rect) -> (r: Self)
        ensures
            r == (UiDrawParam { target, ..self }),
    {
        UiDrawParam { target, ..self }
    }

    /// Returns these parameters with the mouse-listen flag replaced.
    pub fn mouse_listen(self, mouse_listen: bool) -> (r: Self)
        ensures
            r == (UiDrawParam { mouse_listen, ..self }),
    {
        UiDrawParam { mouse_listen, ..self }
    }

    /// Returns these parameters with the paint priority replaced.
    pub fn z_level(self, z: i32) -> (r: Self)
        ensures
            r == (UiDrawParam { z, ..self }),
    {
        UiDrawParam { z, ..self }
    }
}

impl Default for UiDrawParam {
    /// The default parameters equal [`UiDrawParam::new`].
    fn default() -> (r: Self)
        ensures
            r == (UiDrawParam {
                target: Rect { x: 0, y: 0, w: 0, h: 0 },
                mouse_listen: true,
                z: 0,
            }),
    {
        UiDrawParam { target: Rect { x: 0, y: 0, w: 0, h: 0 }, mouse_listen: true, z: 0 }
    }
}

/// What the host application observed since the last frame: elapsed time,
/// pointer state, the edge events of the mouse buttons, the keys that went
/// down, and the size of the render target.
pub struct FrameInput {
    /// Milliseconds elapsed since the previous frame.
    pub delta: u64,
    /// Horizontal pointer position.
    pub mouse_x: i64,
    /// Vertical pointer position.
    pub mouse_y: i64,
    /// Whether the left mouse button went down this frame.
    pub mouse_pressed_left: bool,
    /// Whether the right mouse button went down this frame.
    pub mouse_pressed_right: bool,
    /// The key codes that went down this frame.
    pub keys_pressed: Vec<u32>,
    /// Width of the render target.
    pub screen_w: u64,
    /// Height of the render target.
    pub screen_h: u64,
}

impl FrameInput {
    /// A frame input is well formed when the pointer position is a valid
    /// coordinate pair and the screen extent a pair of valid lengths.
    pub open spec fn wf(self) -> bool {
        &&& crate::units::coord_ok(self.mouse_x)
        &&& crate::units::coord_ok(self.mouse_y)
        &&& len_ok(self.screen_w)
        &&& len_ok(self.screen_h)
    }

    /// Whether the given key code went down this frame.
    pub fn key_pressed(&self, key: u32) -> (r: bool)
        ensures
            r == self.keys_pressed@.contains(key),
    {
        let n = self.keys_pressed.len();
        let mut i: usize = 0;
        while i < n
            invariant
                0 <= i <= n,
                n == self.keys_pressed.len(),
                forall|j: int| 0 <= j < i ==> self.keys_pressed@[j] != key,
            decreases n - i,
        {
            if self.keys_pressed[i] == key {
                return true;
            }
            i = i + 1;
        }
        false
    }
}

/// One step of rendering produced by the draw cycle, to be executed by the
/// host's render backend in order.
#[derive(Clone, Copy, Debug, PartialEq, Eq, Structural)]
pub enum DrawCommand {
    /// Paint an element's background (fill, border, corners) into the given
    /// rectangle.
    Background {
        /// The rectangle to paint.
        rect: Rect,
        /// The effective visuals to paint with.
        visuals: Visuals,
        /// Paint priority; higher paints on top.
        z: i32,
    },
    /// Render a leaf content (text, image, sprite — whatever the handle
    /// names in the host application) into the given rectangle.
    Content {
        /// The host-side handle of the leaf content.
        handle: u64,
        /// The rectangle to render into.
        rect: Rect,
        /// Paint priority; higher paints on top.
        z: i32,
    },
}

/// A message-handling rule of an element: when the trigger message is among
/// the messages of a frame, a transition built from the rule's fields is
/// appended to the element's transition queue.
#[derive(Clone, Copy, Debug)]
pub struct HandlerRule<T: Copy + Eq + Hash + PartialEqSpec> {
    /// The message that triggers this rule.
    pub on: UiMessage<T>,
    /// The duration of the enqueued transition, in milliseconds.
    pub duration: u64,
    /// The layout the enqueued transition moves to, if any.
    pub new_layout: Option<Layout>,
    /// The visuals the enqueued transition blends to, if any.
    pub new_visuals: Option<Visuals>,
    /// The hover visuals the enqueued transition blends to, if any.
    pub new_hover_visuals: Option<Option<Visuals>>,
}

impl<T: Copy + Eq + Hash + PartialEqSpec> HandlerRule<T> {
    /// A rule is well formed when its attached layout and visuals are.
    pub open spec fn wf(self) -> bool {
        &&& match self.new_layout {
            Some(l) => l.wf(),
            None => true,
        }
        &&& match self.new_visuals {
            Some(v) => v.wf(),
            None => true,
        }
        &&& match self.new_hover_visuals {
            Some(Some(v)) => v.wf(),
            _ => true,
        }
    }
}

/// The content of an element: either a leaf (empty, or a host-side drawable
/// named by a handle) or one of the containers that lay out child elements.
pub enum UiContent<T: Copy + Eq + Hash + PartialEqSpec> {
    /// No content; the element shows only its background.
    Empty,
    /// A leaf drawable of the host application (text, image, sprite),
    /// named by a handle the host maps back to the asset.
    Leaf(u64),
    /// Children stacked top to bottom.
    Vertical(VerticalBox<T>),
    /// Children laid out left to right.
    Horizontal(HorizontalBox<T>),
    /// Children drawn on top of one another.
    Stack(StackBox<T>),
    /// Children arranged in a fixed grid of cells.
    Grid(GridBox<T>),
    /// A single wrapped child with a lifetime; the box reports itself
    /// expired when the lifetime has run out.
    Duration(DurationBox<T>),
}

/// A node of the widget tree: layout, visuals, draw cache, content,
/// tooltip, transition queue, trigger keys and message-handling rules.
pub struct UiElement<T: Copy + Eq + Hash + PartialEqSpec> {
    /// The element's layout.
    pub layout: Layout,
    /// The element's base visuals.
    pub visuals: Visuals,
    /// Alternative visuals shown while the pointer hovers the element.
    pub hover_visuals: Option<Visuals>,
    /// Host-side handle of a sound played when the element is triggered.
    pub trigger_sound: Option<u64>,
    /// The element's id; not necessarily unique, 0 for elements that never
    /// send messages.
    pub id: u32,
    /// The element's draw cache.
    pub draw_cache: DrawCache,
    /// The content managed and displayed by this element.
    pub content: UiContent<T>,
    /// The tooltip shown while the element is hovered, if any.
    pub tooltip: Option<Box<UiElement<T>>>,
    /// The transition queue; only the head transition is ever active.
    pub transitions: Vec<Transition<T>>,
    /// The key codes that trigger this element.
    pub keys: KeyList,
    /// The message-handling rules applied each frame.
    pub message_handler: Vec<HandlerRule<T>>,
}

// ---------------------------------------------------------------------------
// The size measure of a subtree: the number of nodes embedded anywhere in an
// element, including those stored inside queued transitions. Committing a
// transition moves nodes from the queue into the tree and can only shrink
// this measure, which makes it the termination measure of every recursive
// walk.
// ---------------------------------------------------------------------------

/// The number of nodes embedded in an element, its tooltip, and its queue.
pub open spec fn esize<T: Copy + Eq + Hash + PartialEqSpec>(e: UiElement<T>) -> nat
    decreases e,
{
    1 + csize(e.content) + osize(e.tooltip) + qsize(e.transitions@)
}

/// The number of nodes embedded in a content value.
pub open spec fn csize<T: Copy + Eq + Hash + PartialEqSpec>(c: UiContent<T>) -> nat
    decreases c,
{
    match c {
        UiContent::Empty => 0,
        UiContent::Leaf(_) => 0,
        UiContent::Vertical(b) => elems_size(b.children@),
        UiContent::Horizontal(b) => elems_size(b.children@),
        UiContent::Stack(b) => elems_size(b.children@),
        UiContent::Grid(b) => elems_size(b.children@),
        UiContent::Duration(b) => esize(*b.child),
    }
}

/// The number of nodes embedded in an optional tooltip.
pub open spec fn osize<T: Copy + Eq + Hash + PartialEqSpec>(o: Option<Box<UiElement<T>>>) -> nat
    decreases o,
{
    match o {
        Some(b) => esize(*b),
        None => 0,
    }
}

/// The number of nodes embedded in a sequence of elements.
pub open spec fn elems_size<T: Copy + Eq + Hash + PartialEqSpec>(s: Seq<UiElement<T>>) -> nat
    decreases s,
{
    if s.len() == 0 {
        0
    } else {
        esize(s[0]) + elems_size(s.drop_first())
    }
}

/// The number of nodes embedded in one queued transition.
pub open spec fn tsize<T: Copy + Eq + Hash + PartialEqSpec>(t: Transition<T>) -> nat
    decreases t,
{
    (match t.new_content {
        Some(c) => csize(c),
        None => 0,
    }) + (match t.new_tooltip {
        Some(Some(b)) => esize(*b),
        _ => 0,
    })
}

/// The number of nodes embedded in a transition queue.
pub open spec fn qsize<T: Copy + Eq + Hash + PartialEqSpec>(s: Seq<Transition<T>>) -> nat
    decreases s,
{
    if s.len() == 0 {
        0
    } else {
        tsize(s[0]) + qsize(s.drop_first())
    }
}

/// Every element of a sequence weighs no more than the whole sequence.
pub proof fn lemma_elems_size_le<T: Copy + Eq + Hash + PartialEqSpec>(
    s: Seq<UiElement<T>>,
    i: int,
)
    requires
        0 <= i < s.len(),
    ensures
        esize(s[i]) <= elems_size(s),
    decreases s.len(),
{
    if i > 0 {
        lemma_elems_size_le(s.drop_first(), i - 1);
    }
}

/// Replacing one element changes the sequence measure by the difference.
pub proof fn lemma_elems_size_update<T: Copy + Eq + Hash + PartialEqSpec>(
    s: Seq<UiElement<T>>,
    i: int,
    v: UiElement<T>,
)
    requires
        0 <= i < s.len(),
    ensures
        elems_size(s.update(i, v)) == elems_size(s) - esize(s[i]) + esize(v),
    decreases s.len(),
{
    if i == 0 {
        assert(s.update(0, v).drop_first() =~= s.drop_first());
    } else {
        assert(s.update(i, v).drop_first() =~= s.drop_first().update(i - 1, v));
        lemma_elems_size_update(s.drop_first(), i - 1, v);
    }
}

/// Appending a transition adds its measure to the queue's.
pub proof fn lemma_qsize_push<T: Copy + Eq + Hash + PartialEqSpec>(
    s: Seq<Transition<T>>,
    t: Transition<T>,
)
    ensures
        qsize(s.push(t)) == qsize(s) + tsize(t),
    decreases s.len(),
{
    if s.len() == 0 {
        assert(s.push(t)[0] == t);
        assert(s.push(t).drop_first() =~= Seq::<Transition<T>>::empty());
        assert(s.push(t).len() == 1);
        assert(qsize(s.push(t)) == tsize(s.push(t)[0]) + qsize(s.push(t).drop_first()));
        assert(qsize(Seq::<Transition<T>>::empty()) == 0);
        assert(qsize(s) == 0);
    } else {
        lemma_qsize_push(s.drop_first(), t);
        assert(s.push(t)[0] == s[0]);
        assert(s.push(t).drop_first() =~= s.drop_first().push(t));
        assert(qsize(s.push(t)) == tsize(s.push(t)[0]) + qsize(s.push(t).drop_first()));
        assert(qsize(s) == tsize(s[0]) + qsize(s.drop_first()));
    }
}

// ---------------------------------------------------------------------------
// Well-formedness of a subtree: every layout, visuals and cached rectangle
// in it is within the representable ranges, and a grid holds exactly
// rows * cols children.
// ---------------------------------------------------------------------------

/// Well-formedness of an element and everything embedded in it.
pub open spec fn ewf<T: Copy + Eq + Hash + PartialEqSpec>(e: UiElement<T>) -> bool
    decreases e,
{
    &&& e.layout.wf()
    &&& e.visuals.wf()
    &&& match e.hover_visuals {
        Some(v) => v.wf(),
        None => true,
    }
    &&& e.draw_cache.wf()
    &&& cwf(e.content)
    &&& match e.tooltip {
        Some(b) => ewf(*b),
        None => true,
    }
    &&& qwf(e.transitions@)
    &&& forall|i: int|
        0 <= i < e.message_handler@.len() ==> (#[trigger] e.message_handler@[i]).wf()
}

/// Well-formedness of a content value and the children inside it.
pub open spec fn cwf<T: Copy + Eq + Hash + PartialEqSpec>(c: UiContent<T>) -> bool
    decreases c,
{
    match c {
        UiContent::Empty => true,
        UiContent::Leaf(_) => true,
        UiContent::Vertical(b) => len_ok(b.spacing) && elems_wf(b.children@),
        UiContent::Horizontal(b) => len_ok(b.spacing) && elems_wf(b.children@),
        UiContent::Stack(b) => elems_wf(b.children@),
        UiContent::Grid(b) => {
            &&& len_ok(b.vertical_spacing)
            &&& len_ok(b.horizontal_spacing)
            &&& b.children@.len() == b.rows * b.cols
            &&& b.cols > 0
            &&& b.rows > 0
            &&& elems_wf(b.children@)
        },
        UiContent::Duration(b) => ewf(*b.child),
    }
}

/// Well-formedness of every element of a sequence.
pub open spec fn elems_wf<T: Copy + Eq + Hash + PartialEqSpec>(s: Seq<UiElement<T>>) -> bool
    decreases s,
{
    forall|i: int| 0 <= i < s.len() ==> ewf(#[trigger] s[i])
}

/// Well-formedness of a queued transition and everything embedded in it.
pub open spec fn twf<T: Copy + Eq + Hash + PartialEqSpec>(t: Transition<T>) -> bool
    decreases t,
{
    &&& match t.new_layout {
        Some(l) => l.wf(),
        None => true,
    }
    &&& match t.new_visuals {
        Some(v) => v.wf(),
        None => true,
    }
    &&& match t.new_hover_visuals {
        Some(Some(v)) => v.wf(),
        _ => true,
    }
    &&& match t.new_content {
        Some(c) => cwf(c),
        None => true,
    }
    &&& match t.new_tooltip {
        Some(Some(b)) => ewf(*b),
        _ => true,
    }
}

/// Well-formedness of every transition of a queue.
pub open spec fn qwf<T: Copy + Eq + Hash + PartialEqSpec>(s: Seq<Transition<T>>) -> bool
    decreases s,
{
    forall|i: int| 0 <= i < s.len() ==> twf(#[trigger] s[i])
}


// ---------------------------------------------------------------------------
// Size ranges of a subtree: the minimum and maximum extent an element or a
// container's content can take along one axis. `true` selects the
// horizontal axis. Container folds over an empty child list are seeded at
// (1, LEN_MAX) on the cross axis so that empty containers never collapse to
// degenerate zero-width strips.
// ---------------------------------------------------------------------------

/// The sizing policy of a layout along the chosen axis.
pub open spec fn axis_size(l: Layout, horiz: bool) -> Size {
    if horiz {
        l.x_size
    } else {
        l.y_size
    }
}

/// The two paddings of a layout along the chosen axis.
pub open spec fn axis_pads(l: Layout, horiz: bool) -> (u64, u64) {
    if horiz {
        (l.padding.right, l.padding.left)
    } else {
        (l.padding.top, l.padding.bottom)
    }
}

/// The capped sum of the axis minima of the first `k` children.
pub open spec fn sum_range_min<T: Copy + Eq + Hash + PartialEqSpec>(
    s: Seq<UiElement<T>>,
    k: int,
    horiz: bool,
) -> int
    decreases s, 1int, k,
{
    if k <= 0 || k > s.len() {
        0
    } else {
        cap_len(sum_range_min(s, k - 1, horiz) + spec_range(s[k - 1], horiz).0)
    }
}

/// The capped sum of the axis maxima of the first `k` children.
pub open spec fn sum_range_max<T: Copy + Eq + Hash + PartialEqSpec>(
    s: Seq<UiElement<T>>,
    k: int,
    horiz: bool,
) -> int
    decreases s, 1int, k,
{
    if k <= 0 || k > s.len() {
        0
    } else {
        cap_len(sum_range_max(s, k - 1, horiz) + spec_range(s[k - 1], horiz).1)
    }
}

/// The largest axis minimum of the first `k` children, seeded at one.
pub open spec fn fold_max_min<T: Copy + Eq + Hash + PartialEqSpec>(
    s: Seq<UiElement<T>>,
    k: int,
    horiz: bool,
) -> int
    decreases s, 1int, k,
{
    if k <= 0 || k > s.len() {
        1
    } else {
        let prev = fold_max_min(s, k - 1, horiz);
        let cur = spec_range(s[k - 1], horiz).0;
        if cur >= prev {
            cur
        } else {
            prev
        }
    }
}

/// The smallest axis maximum of the first `k` children, seeded unbounded.
pub open spec fn fold_min_max<T: Copy + Eq + Hash + PartialEqSpec>(
    s: Seq<UiElement<T>>,
    k: int,
    horiz: bool,
) -> int
    decreases s, 1int, k,
{
    if k <= 0 || k > s.len() {
        LEN_MAX as int
    } else {
        let prev = fold_min_max(s, k - 1, horiz);
        let cur = spec_range(s[k - 1], horiz).1;
        if cur <= prev {
            cur
        } else {
            prev
        }
    }
}

/// The largest axis minimum among the first `k` children that lie in the
/// grid line selected by `stride` and `line` (children whose index has the
/// given remainder for columns, or the given quotient for rows), seeded at
/// one.
pub open spec fn line_max_min<T: Copy + Eq + Hash + PartialEqSpec>(
    s: Seq<UiElement<T>>,
    k: int,
    stride: int,
    line: int,
    by_rem: bool,
    horiz: bool,
) -> int
    decreases s, 1int, k,
{
    if k <= 0 || k > s.len() || stride <= 0 {
        1
    } else {
        let prev = line_max_min(s, k - 1, stride, line, by_rem, horiz);
        let sel = if by_rem {
            (k - 1) % stride == line
        } else {
            (k - 1) / stride == line
        };
        if sel {
            let cur = spec_range(s[k - 1], horiz).0;
            if cur >= prev {
                cur
            } else {
                prev
            }
        } else {
            prev
        }
    }
}

/// The smallest axis maximum among the first `k` children of the selected
/// grid line, seeded unbounded.
pub open spec fn line_min_max<T: Copy + Eq + Hash + PartialEqSpec>(
    s: Seq<UiElement<T>>,
    k: int,
    stride: int,
    line: int,
    by_rem: bool,
    horiz: bool,
) -> int
    decreases s, 1int, k,
{
    if k <= 0 || k > s.len() || stride <= 0 {
        LEN_MAX as int
    } else {
        let prev = line_min_max(s, k - 1, stride, line, by_rem, horiz);
        let sel = if by_rem {
            (k - 1) % stride == line
        } else {
            (k - 1) / stride == line
        };
        if sel {
            let cur = spec_range(s[k - 1], horiz).1;
            if cur <= prev {
                cur
            } else {
                prev
            }
        } else {
            prev
        }
    }
}

/// The capped sum of the line minima of the first `k` grid lines.
pub open spec fn sum_line_min<T: Copy + Eq + Hash + PartialEqSpec>(
    s: Seq<UiElement<T>>,
    k: int,
    stride: int,
    by_rem: bool,
    horiz: bool,
) -> int
    decreases s, 2int, k,
{
    if k <= 0 {
        0
    } else {
        cap_len(
            sum_line_min(s, k - 1, stride, by_rem, horiz) + line_max_min(
                s,
                s.len() as int,
                stride,
                k - 1,
                by_rem,
                horiz,
            ),
        )
    }
}

/// The capped sum of the line maxima of the first `k` grid lines.
pub open spec fn sum_line_max<T: Copy + Eq + Hash + PartialEqSpec>(
    s: Seq<UiElement<T>>,
    k: int,
    stride: int,
    by_rem: bool,
    horiz: bool,
) -> int
    decreases s, 2int, k,
{
    if k <= 0 {
        0
    } else {
        cap_len(
            sum_line_max(s, k - 1, stride, by_rem, horiz) + line_min_max(
                s,
                s.len() as int,
                stride,
                k - 1,
                by_rem,
                horiz,
            ),
        )
    }
}

/// The spacing taken by `n` children separated by `spacing`: zero for at
/// most one child, otherwise `spacing * (n - 1)`, capped.
pub open spec fn spec_spacing_total(spacing: int, n: int) -> int {
    if n <= 1 {
        0
    } else {
        cap_len(spacing * (n - 1))
    }
}

/// The extent range the content of an element may take along an axis,
/// before the element's own sizing policy and padding are applied.
/// A leaf poses no restriction; a container derives its range from its
/// children: extents add up (plus inter-child spacing) along the axis the
/// container stacks in, and combine as the largest minimum and smallest
/// maximum across the other axis. A grid does both, cell lines sharing one
/// extent per column or row.
pub open spec fn spec_content_range<T: Copy + Eq + Hash + PartialEqSpec>(
    c: UiContent<T>,
    horiz: bool,
) -> (int, int)
    decreases c, 3int, 0int,
{
    match c {
        UiContent::Empty => (0, LEN_MAX as int),
        UiContent::Leaf(_) => (0, LEN_MAX as int),
        UiContent::Vertical(b) => {
            let s = b.children@;
            if horiz {
                (fold_max_min(s, s.len() as int, true), fold_min_max(s, s.len() as int, true))
            } else {
                let sp = spec_spacing_total(b.spacing as int, s.len() as int);
                (
                    cap_len(sum_range_min(s, s.len() as int, false) + sp),
                    cap_len(sum_range_max(s, s.len() as int, false) + sp),
                )
            }
        },
        UiContent::Horizontal(b) => {
            let s = b.children@;
            if horiz {
                let sp = spec_spacing_total(b.spacing as int, s.len() as int);
                (
                    cap_len(sum_range_min(s, s.len() as int, true) + sp),
                    cap_len(sum_range_max(s, s.len() as int, true) + sp),
                )
            } else {
                (fold_max_min(s, s.len() as int, false), fold_min_max(s, s.len() as int, false))
            }
        },
        UiContent::Stack(b) => {
            let s = b.children@;
            (fold_max_min(s, s.len() as int, horiz), fold_min_max(s, s.len() as int, horiz))
        },
        UiContent::Grid(b) => {
            let s = b.children@;
            if horiz {
                let sp = spec_spacing_total(b.horizontal_spacing as int, b.cols as int);
                (
                    cap_len(sum_line_min(s, b.cols as int, b.cols as int, true, true) + sp),
                    cap_len(sum_line_max(s, b.cols as int, b.cols as int, true, true) + sp),
                )
            } else {
                let sp = spec_spacing_total(b.vertical_spacing as int, b.rows as int);
                (
                    cap_len(sum_line_min(s, b.rows as int, b.cols as int, false, false) + sp),
                    cap_len(sum_line_max(s, b.rows as int, b.cols as int, false, false) + sp),
                )
            }
        },
        UiContent::Duration(b) => spec_range(*b.child, horiz),
    }
}

/// The extent range an element may take along an axis: its content's
/// minimum clamped into its own sizing bounds, plus padding, for the lower
/// end; its sizing maximum plus padding for the upper end.
pub open spec fn spec_range<T: Copy + Eq + Hash + PartialEqSpec>(e: UiElement<T>, horiz: bool)
    -> (int, int)
    decreases e, 4int, 0int,
{
    let size = axis_size(e.layout, horiz);
    let pads = axis_pads(e.layout, horiz);
    let inner_min = spec_content_range(e.content, horiz).0;
    (
        cap_len(
            cap_len(
                spec_clamp(inner_min, size.spec_min() as int, size.spec_max() as int)
                    + pads.0,
            ) + pads.1,
        ),
        cap_len(cap_len(size.spec_max() + pads.0) + pads.1),
    )
}

/// The minimum extent required by an element's content, per axis.
pub open spec fn spec_content_min<T: Copy + Eq + Hash + PartialEqSpec>(e: UiElement<T>) -> (
    u64,
    u64,
) {
    (
        spec_content_range(e.content, true).0 as u64,
        spec_content_range(e.content, false).0 as u64,
    )
}


/// The spacing taken by `n` children separated by `spacing` units.
pub fn spacing_total(spacing: u64, n: usize) -> (r: u64)
    requires
        len_ok(spacing),
    ensures
        r == spec_spacing_total(spacing as int, n as int),
        len_ok(r),
{
    if n <= 1 {
        0
    } else {
        let cnt = (n - 1) as u64;
        if cnt > LEN_MAX {
            if spacing == 0 {
                assert(spec_spacing_total(spacing as int, n as int) == 0) by (nonlinear_arith)
                    requires
                        spacing == 0,
                        n > 1,
                ;
                0
            } else {
                assert(spacing * (n - 1) > LEN_MAX as int) by (nonlinear_arith)
                    requires
                        spacing >= 1,
                        n - 1 > LEN_MAX as int,
                ;
                LEN_MAX
            }
        } else {
            let wide = muldiv_len(spacing, cnt, 1);
            assert((spacing * cnt) / 1int == spacing * cnt) by (nonlinear_arith);
            wide
        }
    }
}


// ---------------------------------------------------------------------------
// The draw-cache state machine.
// ---------------------------------------------------------------------------

/// Whether a subtree's caches are all usable as they stand: every node
/// holds valid geometry and no node has a layout-changing transition at the
/// head of its queue. A parent may only reuse its own cache when this holds
/// of all its children, so invalidations ripple through the whole subtree
/// in one pass.
pub open spec fn spec_cache_fresh<T: Copy + Eq + Hash + PartialEqSpec>(e: UiElement<T>) -> bool
    decreases e, 1int, 0int,
{
    &&& e.draw_cache is Valid
    &&& (e.transitions@.len() == 0 || e.transitions@[0].new_layout is None)
    &&& children_cache_fresh(e.content)
}

/// Whether the caches of all children of a content value are usable.
pub open spec fn children_cache_fresh<T: Copy + Eq + Hash + PartialEqSpec>(
    c: UiContent<T>,
) -> bool
    decreases c, 0int, 0int,
{
    match c {
        UiContent::Empty => true,
        UiContent::Leaf(_) => true,
        UiContent::Vertical(b) => elems_cache_fresh(b.children@),
        UiContent::Horizontal(b) => elems_cache_fresh(b.children@),
        UiContent::Stack(b) => elems_cache_fresh(b.children@),
        UiContent::Grid(b) => elems_cache_fresh(b.children@),
        UiContent::Duration(b) => spec_cache_fresh(*b.child),
    }
}

/// Whether the caches of all elements of a sequence are usable.
pub open spec fn elems_cache_fresh<T: Copy + Eq + Hash + PartialEqSpec>(
    s: Seq<UiElement<T>>,
) -> bool
    decreases s, 2int, 0int,
{
    forall|i: int| 0 <= i < s.len() ==> spec_cache_fresh(#[trigger] s[i])
}

/// Whether an element's cache may be reused for a draw into `target`: its
/// own cache was computed for exactly this target, no layout-changing
/// transition is pending at its head, and every child cache is usable.
pub open spec fn spec_cache_valid<T: Copy + Eq + Hash + PartialEqSpec>(
    e: UiElement<T>,
    target: Rect,
) -> bool {
    &&& e.draw_cache.spec_valid_for(target)
    &&& (e.transitions@.len() == 0 || e.transitions@[0].new_layout is None)
    &&& children_cache_fresh(e.content)
}

/// The cache an element holds after validating against `target`: a still
/// valid cache is kept; otherwise the geometry is recomputed from the
/// element's layout (blended with the pending layout of an active
/// transition) and kept only if the outer rectangle fits the target with a
/// non-negative origin — else the element is skipped this frame and the
/// cache stays invalid.
pub open spec fn spec_update_draw_cache<T: Copy + Eq + Hash + PartialEqSpec>(
    e: UiElement<T>,
    target: Rect,
) -> DrawCache {
    if spec_cache_valid(e, target) {
        e.draw_cache
    } else {
        let cmin = spec_content_min(e);
        let own_outer = e.layout.spec_outer(target, cmin);
        let own_inner = e.layout.spec_inner(target, cmin);
        let blended = if e.transitions@.len() > 0 && e.transitions@[0].new_layout is Some {
            let nl = e.transitions@[0].new_layout->0;
            let ratio = e.transitions@[0].get_progress_ratio_spec();
            (
                crate::transition::spec_average_rect(
                    own_outer,
                    nl.spec_outer(target, cmin),
                    ratio,
                ),
                crate::transition::spec_average_rect(
                    own_inner,
                    nl.spec_inner(target, cmin),
                    ratio,
                ),
            )
        } else {
            (own_outer, own_inner)
        };
        if blended.0.w > target.w || blended.0.h > target.h || blended.0.x < 0 || blended.0.y < 0 {
            DrawCache::Invalid
        } else {
            DrawCache::Valid { outer: blended.0, inner: blended.1, target }
        }
    }
}

/// The effective visuals of an element this frame: the hover visuals while
/// the pointer rests inside last frame's outer rectangle (falling back to
/// the base visuals when none are set), else the base visuals; in either
/// case blended against the head transition's corresponding goal by its
/// progress ratio.
pub open spec fn spec_current_visual<T: Copy + Eq + Hash + PartialEqSpec>(
    e: UiElement<T>,
    mouse_x: int,
    mouse_y: int,
    mouse_listen: bool,
) -> Visuals {
    let hovered = mouse_listen && match e.draw_cache {
        DrawCache::Valid { outer, inner: _, target: _ } => outer.spec_contains(mouse_x, mouse_y),
        DrawCache::Invalid => false,
    };
    if hovered {
        let own_vis = match e.hover_visuals {
            Some(v) => v,
            None => e.visuals,
        };
        if e.transitions@.len() == 0 {
            own_vis
        } else {
            match e.transitions@[0].new_hover_visuals {
                Some(vis) => {
                    let trans_vis = match vis {
                        Some(hv) => hv,
                        None => e.visuals,
                    };
                    own_vis.spec_average(trans_vis, e.transitions@[0].get_progress_ratio_spec())
                },
                None => own_vis,
            }
        }
    } else {
        if e.transitions@.len() == 0 {
            e.visuals
        } else {
            match e.transitions@[0].new_visuals {
                Some(vis) => e.visuals.spec_average(
                    vis,
                    e.transitions@[0].get_progress_ratio_spec(),
                ),
                None => e.visuals,
            }
        }
    }
}


/// Whether every cache in every element of a list is usable.
fn elems_fresh<T: Copy + Eq + Hash + PartialEqSpec>(children: &Vec<UiElement<T>>) -> (r: bool)
    ensures
        r == elems_cache_fresh(children@),
    decreases *children, 0int, 0int,
{
    let n = children.len();
    let mut i: usize = 0;
    while i < n
        invariant
            0 <= i <= n,
            n == children.len(),
            forall|j: int| 0 <= j < i ==> spec_cache_fresh(#[trigger] children@[j]),
        decreases n - i,
    {
        if !children[i].cache_fresh() {
            return false;
        }
        i = i + 1;
    }
    true
}

/// Replacing the head of a queue with a transition of the same embedded
/// measure keeps the queue's measure.
proof fn lemma_qsize_update_head<T: Copy + Eq + Hash + PartialEqSpec>(
    q: Seq<Transition<T>>,
    h: Transition<T>,
)
    requires
        q.len() > 0,
        tsize(h) == tsize(q[0]),
    ensures
        qsize(q.update(0, h)) == qsize(q),
{
    assert(q.update(0, h).drop_first() =~= q.drop_first());
    assert(qsize(q.update(0, h)) == tsize(q.update(0, h)[0]) + qsize(q.update(0, h).drop_first()));
    assert(qsize(q) == tsize(q[0]) + qsize(q.drop_first()));
}


/// The element after one tick of its transition queue: the head transition
/// absorbs the frame delta (saturating); if that completes it, the head is
/// popped and every change it carries is committed exactly once, a new
/// layout invalidating the draw cache.
pub open spec fn spec_progress_transitions<T: Copy + Eq + Hash + PartialEqSpec>(
    e: UiElement<T>,
    delta: u64,
) -> UiElement<T> {
    if e.transitions@.len() == 0 {
        e
    } else {
        let h = e.transitions@[0];
        let progressed = if h.progressed_duration + delta <= u64::MAX {
            (h.progressed_duration + delta) as u64
        } else {
            u64::MAX
        };
        if progressed >= h.total_duration {
            UiElement {
                layout: match h.new_layout {
                    Some(l) => l,
                    None => e.layout,
                },
                draw_cache: if h.new_layout is Some {
                    DrawCache::Invalid
                } else {
                    e.draw_cache
                },
                visuals: match h.new_visuals {
                    Some(v) => v,
                    None => e.visuals,
                },
                hover_visuals: match h.new_hover_visuals {
                    Some(hv) => hv,
                    None => e.hover_visuals,
                },
                content: match h.new_content {
                    Some(c) => c,
                    None => e.content,
                },
                tooltip: match h.new_tooltip {
                    Some(tt) => tt,
                    None => e.tooltip,
                },
                transitions: e.transitions,
                ..e
            }
        } else {
            UiElement { transitions: e.transitions, ..e }
        }
    }
}

/// The transition queue after one tick: unchanged when empty; otherwise the
/// head's elapsed time advances, and a completed head is popped.
pub open spec fn spec_progressed_queue<T: Copy + Eq + Hash + PartialEqSpec>(
    q: Seq<Transition<T>>,
    delta: u64,
) -> Seq<Transition<T>> {
    if q.len() == 0 {
        q
    } else {
        let h = q[0];
        let progressed = if h.progressed_duration + delta <= u64::MAX {
            (h.progressed_duration + delta) as u64
        } else {
            u64::MAX
        };
        if progressed >= h.total_duration {
            q.drop_first()
        } else {
            q.update(0, Transition { progressed_duration: progressed, ..h })
        }
    }
}


/// Prefixes chain: a prefix of a prefix of a sequence is a prefix of it.
pub proof fn lemma_prefix_trans<A>(a: Seq<A>, b: Seq<A>, c: Seq<A>)
    requires
        a.is_prefix_of(b),
        b.is_prefix_of(c),
    ensures
        a.is_prefix_of(c),
{
    assert(a =~= c.subrange(0, a.len() as int)) by {
        assert forall|i: int| 0 <= i < a.len() implies a[i] == c.subrange(0, a.len() as int)[i]
            by {
            assert(a[i] == b.subrange(0, a.len() as int)[i]);
            assert(b[i] == c.subrange(0, b.len() as int)[i]);
        }
    }
}


// ---------------------------------------------------------------------------
// The message subsystem: collecting click and key events against last
// frame's geometry, and distributing the union of all messages to every
// node's handler rules.
// ---------------------------------------------------------------------------

/// Whether one of the element's trigger keys went down this frame.
pub open spec fn spec_key_hit<T: Copy + Eq + Hash + PartialEqSpec>(
    e: UiElement<T>,
    input: FrameInput,
) -> bool {
    exists|i: int|
        0 <= i < crate::tiny::keys_view(e.keys).len() && input.keys_pressed@.contains(
            crate::tiny::keys_view(e.keys)[i],
        )
}

/// Whether the pointer rests inside the outer rectangle the element was
/// drawn to last frame.
pub open spec fn spec_hovered<T: Copy + Eq + Hash + PartialEqSpec>(
    e: UiElement<T>,
    input: FrameInput,
) -> bool {
    match e.draw_cache {
        DrawCache::Valid { outer, inner: _, target: _ } => outer.spec_contains(
            input.mouse_x as int,
            input.mouse_y as int,
        ),
        DrawCache::Invalid => false,
    }
}

/// The messages one element emits this frame: a left click inside last
/// frame's outer rectangle yields `Clicked` and `Triggered`, a right click
/// yields `ClickedRight`, a pressed trigger key yields `PressedKey` and
/// `Triggered`. Elements with id 0 emit nothing.
pub open spec fn own_messages<T: Copy + Eq + Hash + PartialEqSpec>(
    e: UiElement<T>,
    input: FrameInput,
) -> Set<UiMessage<T>> {
    let hovered = spec_hovered(e, input);
    let s0 = Set::<UiMessage<T>>::empty();
    let s1 = if e.id != 0 && hovered && input.mouse_pressed_left {
        s0.insert(UiMessage::Clicked(e.id)).insert(UiMessage::Triggered(e.id))
    } else {
        s0
    };
    let s2 = if e.id != 0 && hovered && input.mouse_pressed_right {
        s1.insert(UiMessage::ClickedRight(e.id))
    } else {
        s1
    };
    if e.id != 0 && spec_key_hit(e, input) {
        s2.insert(UiMessage::PressedKey(e.id)).insert(UiMessage::Triggered(e.id))
    } else {
        s2
    }
}

/// The trigger sounds one element asks to play this frame: its own trigger
/// sound exactly when it was clicked with the left button.
pub open spec fn own_sounds<T: Copy + Eq + Hash + PartialEqSpec>(
    e: UiElement<T>,
    input: FrameInput,
) -> Seq<u64> {
    if e.id != 0 && spec_hovered(e, input) && input.mouse_pressed_left && e.trigger_sound
        is Some {
        seq![e.trigger_sound->0]
    } else {
        Seq::empty()
    }
}

/// All messages emitted by an element and its descendants this frame.
pub open spec fn spec_collect<T: Copy + Eq + Hash + PartialEqSpec>(
    e: UiElement<T>,
    input: FrameInput,
) -> Set<UiMessage<T>>
    decreases e, 1int, 0int,
{
    own_messages(e, input).union(children_collect(e.content, input))
}

/// All messages emitted by the children of a content value.
pub open spec fn children_collect<T: Copy + Eq + Hash + PartialEqSpec>(
    c: UiContent<T>,
    input: FrameInput,
) -> Set<UiMessage<T>>
    decreases c, 0int, 0int,
{
    match c {
        UiContent::Empty => Set::empty(),
        UiContent::Leaf(_) => Set::empty(),
        UiContent::Vertical(b) => seq_collect(b.children@, b.children@.len() as int, input),
        UiContent::Horizontal(b) => seq_collect(b.children@, b.children@.len() as int, input),
        UiContent::Stack(b) => seq_collect(b.children@, b.children@.len() as int, input),
        UiContent::Grid(b) => seq_collect(b.children@, b.children@.len() as int, input),
        UiContent::Duration(b) => spec_collect(*b.child, input),
    }
}

/// All messages emitted by the first `k` elements of a sequence.
pub open spec fn seq_collect<T: Copy + Eq + Hash + PartialEqSpec>(
    s: Seq<UiElement<T>>,
    k: int,
    input: FrameInput,
) -> Set<UiMessage<T>>
    decreases s, 2int, k,
{
    if k <= 0 || k > s.len() {
        Set::empty()
    } else {
        seq_collect(s, k - 1, input).union(spec_collect(s[k - 1], input))
    }
}

/// All trigger sounds requested by an element and its descendants, in
/// traversal order.
pub open spec fn spec_collect_sounds<T: Copy + Eq + Hash + PartialEqSpec>(
    e: UiElement<T>,
    input: FrameInput,
) -> Seq<u64>
    decreases e, 1int, 0int,
{
    own_sounds(e, input) + children_sounds(e.content, input)
}

/// All trigger sounds requested by the children of a content value.
pub open spec fn children_sounds<T: Copy + Eq + Hash + PartialEqSpec>(
    c: UiContent<T>,
    input: FrameInput,
) -> Seq<u64>
    decreases c, 0int, 0int,
{
    match c {
        UiContent::Empty => Seq::empty(),
        UiContent::Leaf(_) => Seq::empty(),
        UiContent::Vertical(b) => seq_sounds(b.children@, b.children@.len() as int, input),
        UiContent::Horizontal(b) => seq_sounds(b.children@, b.children@.len() as int, input),
        UiContent::Stack(b) => seq_sounds(b.children@, b.children@.len() as int, input),
        UiContent::Grid(b) => seq_sounds(b.children@, b.children@.len() as int, input),
        UiContent::Duration(b) => spec_collect_sounds(*b.child, input),
    }
}

/// All trigger sounds requested by the first `k` elements of a sequence.
pub open spec fn seq_sounds<T: Copy + Eq + Hash + PartialEqSpec>(
    s: Seq<UiElement<T>>,
    k: int,
    input: FrameInput,
) -> Seq<u64>
    decreases s, 2int, k,
{
    if k <= 0 || k > s.len() {
        Seq::empty()
    } else {
        seq_sounds(s, k - 1, input) + spec_collect_sounds(s[k - 1], input)
    }
}

/// The transition a handler rule enqueues when its trigger message arrives.
pub open spec fn rule_transition<T: Copy + Eq + Hash + PartialEqSpec>(rule: HandlerRule<T>)
    -> Transition<T> {
    Transition {
        new_layout: rule.new_layout,
        new_visuals: rule.new_visuals,
        new_hover_visuals: rule.new_hover_visuals,
        new_content: None,
        new_tooltip: None,
        total_duration: rule.duration,
        progressed_duration: 0,
    }
}

/// The transitions enqueued by the first `k` handler rules for the given
/// frame messages, in rule order.
pub open spec fn rules_transitions<T: Copy + Eq + Hash + PartialEqSpec>(
    rules: Seq<HandlerRule<T>>,
    msgs: Set<UiMessage<T>>,
    k: int,
) -> Seq<Transition<T>>
    decreases k,
{
    if k <= 0 || k > rules.len() {
        Seq::empty()
    } else {
        rules_transitions(rules, msgs, k - 1) + if msgs.contains(rules[k - 1].on) {
            seq![rule_transition(rules[k - 1])]
        } else {
            Seq::empty()
        }
    }
}

/// The elements of a sequence that are not expired, in order.
pub open spec fn filter_unexpired<T: Copy + Eq + Hash + PartialEqSpec>(
    s: Seq<UiElement<T>>,
) -> Seq<UiElement<T>>
    decreases s.len(),
{
    if s.len() == 0 {
        Seq::empty()
    } else if s[0].spec_expired() {
        filter_unexpired(s.drop_first())
    } else {
        seq![s[0]] + filter_unexpired(s.drop_first())
    }
}

/// How message distribution transforms one element: its handler rules whose
/// trigger is among the frame's messages append their transitions, in rule
/// order, to its queue; everything else of the element itself stays; its
/// children are distributed to in order, and the children that report
/// themselves expired afterwards are removed (a grid or duration box
/// replaces them with fresh empty cells instead).
pub open spec fn distributes_to<T: Copy + Eq + Hash + PartialEqSpec>(
    e1: UiElement<T>,
    e2: UiElement<T>,
    msgs: Set<UiMessage<T>>,
) -> bool
    decreases e1, 1int, 0int,
{
    &&& e2.layout == e1.layout
    &&& e2.visuals == e1.visuals
    &&& e2.hover_visuals == e1.hover_visuals
    &&& e2.trigger_sound == e1.trigger_sound
    &&& e2.id == e1.id
    &&& e2.draw_cache == e1.draw_cache
    &&& e2.tooltip == e1.tooltip
    &&& e2.keys == e1.keys
    &&& e2.message_handler == e1.message_handler
    &&& e2.transitions@ == e1.transitions@ + rules_transitions(
        e1.message_handler@,
        msgs,
        e1.message_handler@.len() as int,
    )
    &&& contents_distribute(e1.content, e2.content, msgs)
}

/// The child-distribution relation between the old and new content.
pub open spec fn contents_distribute<T: Copy + Eq + Hash + PartialEqSpec>(
    c1: UiContent<T>,
    c2: UiContent<T>,
    msgs: Set<UiMessage<T>>,
) -> bool
    decreases c1, 0int, 0int,
{
    match (c1, c2) {
        (UiContent::Empty, UiContent::Empty) => true,
        (UiContent::Leaf(a), UiContent::Leaf(b)) => a == b,
        (UiContent::Vertical(b1), UiContent::Vertical(b2)) => b2.spacing == b1.spacing
            && children_distribute(b1.children@, b2.children@, msgs),
        (UiContent::Horizontal(b1), UiContent::Horizontal(b2)) => b2.spacing == b1.spacing
            && children_distribute(b1.children@, b2.children@, msgs),
        (UiContent::Stack(b1), UiContent::Stack(b2)) => children_distribute(
            b1.children@,
            b2.children@,
            msgs,
        ),
        (UiContent::Grid(g1), UiContent::Grid(g2)) => {
            &&& g2.cols == g1.cols
            &&& g2.rows == g1.rows
            &&& g2.vertical_spacing == g1.vertical_spacing
            &&& g2.horizontal_spacing == g1.horizontal_spacing
            &&& g2.children@.len() == g1.children@.len()
            &&& forall|i: int|
                0 <= i < g1.children@.len() ==> cell_distribute(
                    g1.children@[i],
                    #[trigger] g2.children@[i],
                    msgs,
                )
        },
        (UiContent::Duration(d1), UiContent::Duration(d2)) => d2.duration == d1.duration
            && cell_distribute(*d1.child, *d2.child, msgs),
        _ => false,
    }
}

/// One cell of a grid (or the child of a duration box) after distribution:
/// distributed to, then replaced by a fresh empty cell if it expired.
pub open spec fn cell_distribute<T: Copy + Eq + Hash + PartialEqSpec>(
    e1: UiElement<T>,
    e2: UiElement<T>,
    msgs: Set<UiMessage<T>>,
) -> bool
    decreases e1, 2int, 0int,
{
    if e1.spec_expired() {
        crate::containers::is_empty_cell(e2)
    } else {
        distributes_to(e1, e2, msgs)
    }
}

/// A child list after distribution: every child was distributed to in
/// order, and the children that report themselves expired were removed.
pub open spec fn children_distribute<T: Copy + Eq + Hash + PartialEqSpec>(
    s1: Seq<UiElement<T>>,
    s2: Seq<UiElement<T>>,
    msgs: Set<UiMessage<T>>,
) -> bool
    decreases s1, 2int, 0int,
{
    if s1.len() == 0 {
        s2.len() == 0
    } else if s1[0].spec_expired() {
        children_distribute(s1.drop_first(), s2, msgs)
    } else {
        s2.len() > 0 && distributes_to(s1[0], s2[0], msgs) && children_distribute(
            s1.drop_first(),
            s2.drop_first(),
            msgs,
        )
    }
}


/// Collects the messages and trigger sounds of every element of a list.
fn collect_from<T: Copy + Eq + Hash + PartialEqSpec>(
    children: &Vec<UiElement<T>>,
    input: &FrameInput,
    msgs: &mut UiMessageSet<T>,
    sounds: &mut Vec<u64>,
)
    requires
        elems_wf(children@),
        input.wf(),
    ensures
        reflects_eq::<T>() ==> final(msgs)@ == old(msgs)@.union(
            seq_collect(children@, children@.len() as int, *input),
        ),
        final(sounds)@ == old(sounds)@ + seq_sounds(children@, children@.len() as int, *input),
    decreases *children, 5int, 0int,
{
    let n = children.len();
    proof {
        assert(old(sounds)@ + seq_sounds(children@, 0, *input) =~= old(sounds)@);
        if reflects_eq::<T>() {
            assert(old(msgs)@.union(seq_collect(children@, 0, *input)) =~= old(msgs)@);
        }
    }
    let mut i: usize = 0;
    while i < n
        invariant
            0 <= i <= n,
            n == children@.len(),
            elems_wf(children@),
            input.wf(),
            reflects_eq::<T>() ==> msgs@ == old(msgs)@.union(
                seq_collect(children@, i as int, *input),
            ),
            sounds@ == old(sounds)@ + seq_sounds(children@, i as int, *input),
        decreases n - i,
    {
        proof {
            assert(ewf(children@[i as int]));
        }
        let (cm, cs) = children[i].collect_messages(input);
        let mut cs = cs;
        msgs.union_with(&cm);
        sounds.append(&mut cs);
        proof {
            assert(sounds@ =~= old(sounds)@ + seq_sounds(children@, i + 1, *input));
            if reflects_eq::<T>() {
                assert(msgs@ =~= old(msgs)@.union(seq_collect(children@, i + 1, *input)));
            }
        }
        i = i + 1;
    }
}


/// Distribution preserves whether an element reports itself expired.
proof fn lemma_distribute_keeps_expired<T: Copy + Eq + Hash + PartialEqSpec>(
    e1: UiElement<T>,
    e2: UiElement<T>,
    msgs: Set<UiMessage<T>>,
)
    requires
        distributes_to(e1, e2, msgs),
    ensures
        e2.spec_expired() == e1.spec_expired(),
{
}

/// Distributing to every element of a list in place and then dropping the
/// expired ones yields the child-distribution relation.
proof fn lemma_children_distribute<T: Copy + Eq + Hash + PartialEqSpec>(
    s1: Seq<UiElement<T>>,
    mid: Seq<UiElement<T>>,
    fin: Seq<UiElement<T>>,
    msgs: Set<UiMessage<T>>,
)
    requires
        s1.len() == mid.len(),
        forall|j: int| 0 <= j < s1.len() ==> distributes_to(s1[j], #[trigger] mid[j], msgs),
        fin == filter_unexpired(mid),
    ensures
        children_distribute(s1, fin, msgs),
    decreases s1.len(),
{
    if s1.len() > 0 {
        lemma_distribute_keeps_expired(s1[0], mid[0], msgs);
        assert forall|j: int|
            0 <= j < s1.drop_first().len() implies distributes_to(
            s1.drop_first()[j],
            #[trigger] mid.drop_first()[j],
            msgs,
        ) by {
            assert(mid.drop_first()[j] == mid[j + 1]);
            assert(s1.drop_first()[j] == s1[j + 1]);
        }
        if s1[0].spec_expired() {
            lemma_children_distribute(s1.drop_first(), mid.drop_first(), fin, msgs);
        } else {
            assert(fin == seq![mid[0]] + filter_unexpired(mid.drop_first()));
            assert(fin[0] == mid[0]);
            assert(fin.drop_first() =~= filter_unexpired(mid.drop_first()));
            lemma_children_distribute(
                s1.drop_first(),
                mid.drop_first(),
                fin.drop_first(),
                msgs,
            );
        }
    }
}

/// Distributes the frame's messages to every element of a list and removes
/// the elements that report themselves expired afterwards.
fn distribute_and_prune<T: Copy + Eq + Hash + PartialEqSpec>(
    children: &mut Vec<UiElement<T>>,
    messages: &UiMessageSet<T>,
    Ghost(budget): Ghost<nat>,
)
    requires
        elems_wf(old(children)@),
        elems_size(old(children)@) < budget,
    ensures
        elems_wf(final(children)@),
        elems_size(final(children)@) <= elems_size(old(children)@),
        reflects_eq::<T>() ==> children_distribute(old(children)@, final(children)@, messages@),
    decreases budget, 0int,
{
    let n = children.len();
    let mut i: usize = 0;
    while i < n
        invariant
            0 <= i <= n,
            n == children@.len(),
            elems_wf(children@),
            elems_size(children@) <= elems_size(old(children)@),
            elems_size(old(children)@) < budget,
            forall|j: int| i <= j < n ==> #[trigger] children@[j] == old(children)@[j],
            reflects_eq::<T>() ==> forall|j: int|
                0 <= j < i ==> distributes_to(old(children)@[j], #[trigger] children@[j],
                    messages@),
        decreases n - i,
    {
        proof {
            lemma_elems_size_le(children@, i as int);
            assert(ewf(children@[i as int]));
        }
        let ghost pre = children@;
        let ghost mc = esize(children@[i as int]);
        children[i].distribute_messages(messages, Ghost(mc));
        proof {
            assert(children@ =~= pre.update(i as int, children@[i as int]));
            lemma_elems_size_update(pre, i as int, children@[i as int]);
        }
        i = i + 1;
    }
    let ghost mid = children@;
    // Drop the children that have expired, preserving the order of the
    // survivors.
    let mut taken: Vec<UiElement<T>> = Vec::new();
    core::mem::swap(children, &mut taken);
    proof {
        assert(filter_unexpired(mid) =~= children@ + filter_unexpired(taken@));
    }
    while taken.len() > 0
        invariant
            elems_wf(children@),
            elems_wf(taken@),
            elems_size(children@) + elems_size(taken@) <= elems_size(mid),
            filter_unexpired(mid) == children@ + filter_unexpired(taken@),
        decreases taken.len(),
    {
        let ghost tpre = taken@;
        let e = taken.remove(0);
        proof {
            assert(taken@ =~= tpre.drop_first());
        }
        if !e.expired() {
            let ghost cpre = children@;
            children.push(e);
            proof {
                assert(filter_unexpired(tpre) =~= seq![tpre[0]] + filter_unexpired(
                    tpre.drop_first(),
                ));
                assert(children@ =~= cpre + seq![tpre[0]]);
                assert(filter_unexpired(mid) =~= children@ + filter_unexpired(taken@));
                lemma_elems_push(cpre, tpre[0]);
            }
        } else {
            proof {
                assert(filter_unexpired(tpre) =~= filter_unexpired(tpre.drop_first()));
            }
        }
    }
    proof {
        assert(children@ + filter_unexpired(taken@) =~= children@);
        if reflects_eq::<T>() {
            lemma_children_distribute(old(children)@, mid, children@, messages@);
        }
    }
}

/// Appending an element adds its measure to the list's.
pub proof fn lemma_elems_push<T: Copy + Eq + Hash + PartialEqSpec>(
    s: Seq<UiElement<T>>,
    e: UiElement<T>,
)
    ensures
        elems_size(s.push(e)) == elems_size(s) + esize(e),
    decreases s.len(),
{
    if s.len() == 0 {
        assert(s.push(e)[0] == e);
        assert(s.push(e).drop_first() =~= Seq::<UiElement<T>>::empty());
        assert(elems_size(s.push(e)) == esize(s.push(e)[0]) + elems_size(
            s.push(e).drop_first(),
        ));
        assert(elems_size(Seq::<UiElement<T>>::empty()) == 0);
        assert(elems_size(s) == 0);
    } else {
        lemma_elems_push(s.drop_first(), e);
        assert(s.push(e)[0] == s[0]);
        assert(s.push(e).drop_first() =~= s.drop_first().push(e));
        assert(elems_size(s.push(e)) == esize(s.push(e)[0]) + elems_size(
            s.push(e).drop_first(),
        ));
        assert(elems_size(s) == esize(s[0]) + elems_size(s.drop_first()));
    }
}

/// Distributes the frame's messages to every cell of a grid and replaces
/// the cells that report themselves expired afterwards with fresh empty
/// cells.
fn distribute_cells<T: Copy + Eq + Hash + PartialEqSpec>(
    children: &mut Vec<UiElement<T>>,
    messages: &UiMessageSet<T>,
    Ghost(budget): Ghost<nat>,
)
    requires
        elems_wf(old(children)@),
        elems_size(old(children)@) < budget,
    ensures
        elems_wf(final(children)@),
        elems_size(final(children)@) <= elems_size(old(children)@),
        final(children)@.len() == old(children)@.len(),
        reflects_eq::<T>() ==> forall|j: int|
            0 <= j < old(children)@.len() ==> cell_distribute(
                old(children)@[j],
                #[trigger] final(children)@[j],
                messages@,
            ),
    decreases budget, 0int,
{
    let n = children.len();
    let mut i: usize = 0;
    while i < n
        invariant
            0 <= i <= n,
            n == children@.len(),
            elems_wf(children@),
            elems_size(children@) <= elems_size(old(children)@),
            elems_size(old(children)@) < budget,
            forall|j: int| i <= j < n ==> #[trigger] children@[j] == old(children)@[j],
            reflects_eq::<T>() ==> forall|j: int|
                0 <= j < i ==> cell_distribute(old(children)@[j], #[trigger] children@[j],
                    messages@),
        decreases n - i,
    {
        proof {
            lemma_elems_size_le(children@, i as int);
            assert(ewf(children@[i as int]));
        }
        let ghost pre = children@;
        let ghost mc = esize(children@[i as int]);
        children[i].distribute_messages(messages, Ghost(mc));
        proof {
            assert(children@ =~= pre.update(i as int, children@[i as int]));
            lemma_elems_size_update(pre, i as int, children@[i as int]);
        }
        if children[i].expired() {
            let ghost pre2 = children@;
            let empty = UiElement::new(0, UiContent::Empty);
            children[i] = empty;
            proof {
                assert(children@ =~= pre2.update(i as int, children@[i as int]));
                lemma_elems_size_update(pre2, i as int, children@[i as int]);
                if reflects_eq::<T>() {
                    lemma_distribute_keeps_expired(
                        old(children)@[i as int],
                        pre2[i as int],
                        messages@,
                    );
                }
            }
        } else {
            proof {
                if reflects_eq::<T>() {
                    lemma_distribute_keeps_expired(
                        old(children)@[i as int],
                        children@[i as int],
                        messages@,
                    );
                }
            }
        }
        i = i + 1;
    }
}


/// Whether the tree rooted at `e` holds a node with the given id whose
/// content can take an added child: any container except a grid (grids only
/// accept indexed insertion).
pub open spec fn spec_accepts<T: Copy + Eq + Hash + PartialEqSpec>(e: UiElement<T>, id: u32)
    -> bool
    decreases e, 1int, 0int,
{
    ||| (e.id == id && match e.content {
        UiContent::Empty => false,
        UiContent::Leaf(_) => false,
        UiContent::Grid(_) => false,
        _ => true,
    })
    ||| children_accept(e.content, id)
}

/// Whether any child of a content value accepts an added element.
pub open spec fn children_accept<T: Copy + Eq + Hash + PartialEqSpec>(c: UiContent<T>, id: u32)
    -> bool
    decreases c, 0int, 0int,
{
    match c {
        UiContent::Empty => false,
        UiContent::Leaf(_) => false,
        UiContent::Vertical(b) => seq_accepts(b.children@, b.children@.len() as int, id),
        UiContent::Horizontal(b) => seq_accepts(b.children@, b.children@.len() as int, id),
        UiContent::Stack(b) => seq_accepts(b.children@, b.children@.len() as int, id),
        UiContent::Grid(b) => seq_accepts(b.children@, b.children@.len() as int, id),
        UiContent::Duration(b) => spec_accepts(*b.child, id),
    }
}

/// Whether any of the first `k` elements of a sequence accepts.
pub open spec fn seq_accepts<T: Copy + Eq + Hash + PartialEqSpec>(
    s: Seq<UiElement<T>>,
    k: int,
    id: u32,
) -> bool
    decreases s, 2int, k,
{
    if k <= 0 || k > s.len() {
        false
    } else {
        seq_accepts(s, k - 1, id) || spec_accepts(s[k - 1], id)
    }
}

/// Whether no node of the tree with the given id holds a grid, so that an
/// id-addressed insertion can never reach a grid (which only accepts
/// indexed insertion).
pub open spec fn no_grid_with_id<T: Copy + Eq + Hash + PartialEqSpec>(e: UiElement<T>, id: u32)
    -> bool
    decreases e, 1int, 0int,
{
    &&& !(e.id == id && e.content is Grid)
    &&& match e.content {
        UiContent::Vertical(b) => seq_no_grid(b.children@, b.children@.len() as int, id),
        UiContent::Horizontal(b) => seq_no_grid(b.children@, b.children@.len() as int, id),
        UiContent::Stack(b) => seq_no_grid(b.children@, b.children@.len() as int, id),
        UiContent::Grid(b) => seq_no_grid(b.children@, b.children@.len() as int, id),
        UiContent::Duration(b) => no_grid_with_id(*b.child, id),
        _ => true,
    }
}

/// Whether none of the first `k` elements of a sequence holds a grid under
/// the given id.
pub open spec fn seq_no_grid<T: Copy + Eq + Hash + PartialEqSpec>(
    s: Seq<UiElement<T>>,
    k: int,
    id: u32,
) -> bool
    decreases s, 2int, k,
{
    if k <= 0 || k > s.len() {
        true
    } else {
        seq_no_grid(s, k - 1, id) && no_grid_with_id(s[k - 1], id)
    }
}

/// Whether no descendant of `e` (through container children) carries the
/// given id.
pub open spec fn desc_id_absent<T: Copy + Eq + Hash + PartialEqSpec>(e: UiElement<T>, id: u32)
    -> bool
    decreases e, 1int, 0int,
{
    match e.content {
        UiContent::Vertical(b) => seq_id_absent(b.children@, b.children@.len() as int, id),
        UiContent::Horizontal(b) => seq_id_absent(b.children@, b.children@.len() as int, id),
        UiContent::Stack(b) => seq_id_absent(b.children@, b.children@.len() as int, id),
        UiContent::Grid(b) => seq_id_absent(b.children@, b.children@.len() as int, id),
        UiContent::Duration(b) => b.child.id != id && desc_id_absent(*b.child, id),
        _ => true,
    }
}

/// Whether none of the first `k` elements of a sequence carries the id,
/// nor any of their descendants.
pub open spec fn seq_id_absent<T: Copy + Eq + Hash + PartialEqSpec>(
    s: Seq<UiElement<T>>,
    k: int,
    id: u32,
) -> bool
    decreases s, 2int, k,
{
    if k <= 0 || k > s.len() {
        true
    } else {
        seq_id_absent(s, k - 1, id) && s[k - 1].id != id && desc_id_absent(s[k - 1], id)
    }
}

/// The elements of a sequence whose id differs from the given one.
pub open spec fn filter_keep_id<T: Copy + Eq + Hash + PartialEqSpec>(
    s: Seq<UiElement<T>>,
    id: u32,
) -> Seq<UiElement<T>>
    decreases s.len(),
{
    if s.len() == 0 {
        Seq::empty()
    } else if s[0].id == id {
        filter_keep_id(s.drop_first(), id)
    } else {
        seq![s[0]] + filter_keep_id(s.drop_first(), id)
    }
}


/// Tries to add `element` to the first accepting node among the elements
/// of a list, in order.
fn add_to_children<T: Copy + Eq + Hash + PartialEqSpec>(
    children: &mut Vec<UiElement<T>>,
    id: u32,
    element: UiElement<T>,
    Ghost(budget): Ghost<nat>,
) -> (r: Option<UiElement<T>>)
    requires
        elems_wf(old(children)@),
        ewf(element),
        seq_no_grid(old(children)@, old(children)@.len() as int, id),
        elems_size(old(children)@) < budget,
    ensures
        elems_wf(final(children)@),
        final(children)@.len() == old(children)@.len(),
        r is None <==> seq_accepts(old(children)@, old(children)@.len() as int, id),
        r is None ==> children_add(old(children)@, final(children)@, id, element),
        r is Some ==> r->0 == element && elems_size(final(children)@) == elems_size(
            old(children)@,
        ) && (forall|j: int|
            0 <= j < old(children)@.len() ==> same_tree(
                old(children)@[j],
                #[trigger] final(children)@[j],
            )),
        elems_size(final(children)@) <= elems_size(old(children)@) + esize(element),
    decreases budget, 0int,
{
    let n = children.len();
    let mut element_option = Some(element);
    let ghost mut acc_idx: int = -1;
    let mut i: usize = 0;
    while i < n
        invariant
            0 <= i <= n,
            n == children@.len(),
            n == old(children)@.len(),
            elems_wf(children@),
            elems_size(old(children)@) < budget,
            ewf(element),
            seq_no_grid(old(children)@, n as int, id),
            forall|j: int| i <= j < n ==> #[trigger] children@[j] == old(children)@[j],
            element_option is Some ==> element_option->0 == element,
            element_option is Some ==> elems_size(children@) == elems_size(old(children)@),
            element_option is Some ==> !seq_accepts(old(children)@, i as int, id),
            element_option is Some ==> acc_idx == -1,
            element_option is Some ==> (forall|j: int|
                0 <= j < i ==> same_tree(old(children)@[j], #[trigger] children@[j])),
            element_option is None ==> seq_accepts(old(children)@, i as int, id),
            element_option is None ==> elems_size(children@) <= elems_size(old(children)@)
                + esize(element),
            element_option is None ==> 0 <= acc_idx < i,
            element_option is None ==> spec_accepts(old(children)@[acc_idx], id) && adds_to(
                old(children)@[acc_idx],
                children@[acc_idx],
                id,
                element,
            ),
            element_option is None ==> (forall|j: int|
                0 <= j < acc_idx ==> !spec_accepts(#[trigger] old(children)@[j], id)),
            element_option is None ==> (forall|j: int|
                0 <= j < acc_idx ==> #[trigger] same_tree(old(children)@[j], children@[j])),
            element_option is None ==> (forall|j: int|
                acc_idx < j < n ==> #[trigger] children@[j] == old(children)@[j]),
        decreases n - i,
    {
        match element_option {
            Some(el) => {
                proof {
                    lemma_elems_size_le(children@, i as int);
                    assert(ewf(children@[i as int]));
                    lemma_seq_no_grid_at(old(children)@, n as int, i as int, id);
                }
                let ghost pre = children@;
                let ghost mc = esize(children@[i as int]);
                element_option = children[i].add_element_inner(id, el, Ghost(mc));
                proof {
                    assert(children@ =~= pre.update(i as int, children@[i as int]));
                    lemma_elems_size_update(pre, i as int, children@[i as int]);
                    assert(seq_accepts(old(children)@, i + 1, id) == (seq_accepts(
                        old(children)@,
                        i as int,
                        id,
                    ) || spec_accepts(old(children)@[i as int], id)));
                    if element_option is None {
                        acc_idx = i as int;
                        lemma_seq_not_accepts_pointwise(old(children)@, i as int, id);
                        assert forall|j: int|
                            0 <= j < i implies same_tree(
                            old(children)@[j],
                            #[trigger] children@[j],
                        ) by {
                            assert(children@[j] == pre[j]);
                        }
                        assert forall|j: int|
                            i < j < n implies #[trigger] children@[j] == old(children)@[j] by {
                            assert(children@[j] == pre[j]);
                        }
                    } else {
                        assert(same_tree(old(children)@[i as int], children@[i as int]));
                        assert(!spec_accepts(old(children)@[i as int], id));
                        assert(!seq_accepts(old(children)@, i + 1, id));
                        assert(esize(children@[i as int]) == esize(pre[i as int]));
                        assert(elems_size(children@) == elems_size(old(children)@));
                        assert(element_option->0 == element);
                        assert(acc_idx == -1);
                        assert forall|j: int|
                            0 <= j < i + 1 implies same_tree(
                            old(children)@[j],
                            #[trigger] children@[j],
                        ) by {
                            if j < i {
                                assert(children@[j] == pre[j]);
                            }
                        }
                    }
                }
            },
            None => {
                proof {
                    lemma_seq_accepts_mono(old(children)@, i as int, i + 1, id);
                }
            },
        }
        i = i + 1;
    }
    proof {
        if element_option is None {
            assert forall|j: int|
                0 <= j < acc_idx implies !spec_accepts(#[trigger] old(children)@[j], id)
                && same_tree(old(children)@[j], children@[j]) by {
                assert(same_tree(old(children)@[j], #[trigger] children@[j]));
            }
            assert forall|j: int|
                acc_idx < j < old(children)@.len() implies #[trigger] children@[j] == old(
                children,
            )@[j] by {
                assert(children@[j] == old(children)@[j]);
            }
            lemma_children_add_build(old(children)@, children@, acc_idx, id, element);
        }
    }
    element_option
}

/// Accepting among a prefix implies accepting among a longer prefix.
proof fn lemma_seq_accepts_mono<T: Copy + Eq + Hash + PartialEqSpec>(
    s: Seq<UiElement<T>>,
    j: int,
    k: int,
    id: u32,
)
    requires
        0 <= j <= k,
        seq_accepts(s, j, id),
    ensures
        k <= s.len() ==> seq_accepts(s, k, id),
    decreases k,
{
    if j < k && k <= s.len() {
        lemma_seq_accepts_mono(s, j, k - 1, id);
    }
}

/// Every element of a grid-free prefix is grid-free.
proof fn lemma_seq_no_grid_at<T: Copy + Eq + Hash + PartialEqSpec>(
    s: Seq<UiElement<T>>,
    k: int,
    i: int,
    id: u32,
)
    requires
        seq_no_grid(s, k, id),
        0 <= i < k,
        k <= s.len(),
    ensures
        no_grid_with_id(s[i], id),
    decreases k,
{
    if i < k - 1 {
        lemma_seq_no_grid_at(s, k - 1, i, id);
    }
}

/// Removes every element with the given id from a list, then removes the
/// id recursively inside the remaining elements.
fn remove_id_from_children<T: Copy + Eq + Hash + PartialEqSpec>(
    children: &mut Vec<UiElement<T>>,
    id: u32,
    Ghost(budget): Ghost<nat>,
)
    requires
        elems_wf(old(children)@),
        elems_size(old(children)@) < budget,
    ensures
        elems_wf(final(children)@),
        elems_size(final(children)@) <= elems_size(old(children)@),
        id != 0 ==> seq_id_absent(final(children)@, final(children)@.len() as int, id),
        children_removed(old(children)@, final(children)@, id),
    decreases budget, 0int,
{
    // Drop the direct children with the id, preserving order.
    let ghost orig = children@;
    let mut taken: Vec<UiElement<T>> = Vec::new();
    core::mem::swap(children, &mut taken);
    proof {
        assert(filter_keep_id(orig, id) =~= children@ + filter_keep_id(taken@, id));
    }
    while taken.len() > 0
        invariant
            elems_wf(children@),
            elems_wf(taken@),
            elems_size(children@) + elems_size(taken@) <= elems_size(orig),
            filter_keep_id(orig, id) == children@ + filter_keep_id(taken@, id),
            forall|j: int| 0 <= j < children@.len() ==> (#[trigger] children@[j]).id != id,
        decreases taken.len(),
    {
        let ghost tpre = taken@;
        let e = taken.remove(0);
        proof {
            assert(taken@ =~= tpre.drop_first());
        }
        if e.get_id() != id {
            let ghost cpre = children@;
            children.push(e);
            proof {
                assert(filter_keep_id(tpre, id) =~= seq![tpre[0]] + filter_keep_id(
                    tpre.drop_first(),
                    id,
                ));
                assert(children@ =~= cpre + seq![tpre[0]]);
                assert(filter_keep_id(orig, id) =~= children@ + filter_keep_id(taken@, id));
                lemma_elems_push(cpre, tpre[0]);
            }
        } else {
            proof {
                assert(filter_keep_id(tpre, id) =~= filter_keep_id(tpre.drop_first(), id));
            }
        }
    }
    // Recurse into the remaining children.
    let n = children.len();
    let ghost mid = children@;
    let mut i: usize = 0;
    while i < n
        invariant
            0 <= i <= n,
            n == children@.len(),
            n == mid.len(),
            elems_wf(children@),
            elems_size(children@) <= elems_size(mid),
            elems_size(mid) <= elems_size(orig),
            elems_size(orig) < budget,
            forall|j: int| i <= j < n ==> #[trigger] children@[j] == mid[j],
            forall|j: int| 0 <= j < n ==> (#[trigger] children@[j]).id == mid[j].id,
            forall|j: int| 0 <= j < mid.len() ==> (#[trigger] mid[j]).id != id,
            forall|j: int| 0 <= j < i ==> removes_to(mid[j], #[trigger] children@[j], id),
            id != 0 ==> forall|j: int|
                0 <= j < i ==> desc_id_absent(#[trigger] children@[j], id),
        decreases n - i,
    {
        proof {
            lemma_elems_size_le(children@, i as int);
            assert(ewf(children@[i as int]));
        }
        let ghost pre = children@;
        let ghost mc = esize(children@[i as int]);
        children[i].remove_elements_inner(id, Ghost(mc));
        proof {
            assert(children@ =~= pre.update(i as int, children@[i as int]));
            lemma_elems_size_update(pre, i as int, children@[i as int]);
        }
        i = i + 1;
    }
    proof {
        if id != 0 {
            lemma_seq_id_absent_from_pointwise(children@, n as int, id);
        }
        lemma_children_removed_build(old(children)@, mid, children@, id);
    }
}

/// Pointwise id-absence over a list gives the prefix form.
proof fn lemma_seq_id_absent_from_pointwise<T: Copy + Eq + Hash + PartialEqSpec>(
    s: Seq<UiElement<T>>,
    k: int,
    id: u32,
)
    requires
        k <= s.len(),
        forall|j: int| 0 <= j < s.len() ==> (#[trigger] s[j]).id != id,
        forall|j: int| 0 <= j < s.len() ==> desc_id_absent(#[trigger] s[j], id),
    ensures
        seq_id_absent(s, k, id),
    decreases k,
{
    if k > 0 {
        lemma_seq_id_absent_from_pointwise(s, k - 1, id);
    }
}

/// Replaces every grid cell with the given id by a fresh empty cell, then
/// removes the id recursively inside every cell.
fn remove_id_from_cells<T: Copy + Eq + Hash + PartialEqSpec>(
    children: &mut Vec<UiElement<T>>,
    id: u32,
    Ghost(budget): Ghost<nat>,
)
    requires
        elems_wf(old(children)@),
        elems_size(old(children)@) < budget,
    ensures
        elems_wf(final(children)@),
        elems_size(final(children)@) <= elems_size(old(children)@),
        final(children)@.len() == old(children)@.len(),
        id != 0 ==> seq_id_absent(final(children)@, final(children)@.len() as int, id),
        forall|i: int|
            0 <= i < old(children)@.len() ==> cell_removed(
                old(children)@[i],
                #[trigger] final(children)@[i],
                id,
            ),
    decreases budget, 0int,
{
    let n = children.len();
    let mut i: usize = 0;
    while i < n
        invariant
            0 <= i <= n,
            n == children@.len(),
            n == old(children)@.len(),
            elems_wf(children@),
            elems_size(children@) <= elems_size(old(children)@),
            elems_size(old(children)@) < budget,
            forall|j: int| i <= j < n ==> #[trigger] children@[j] == old(children)@[j],
            forall|j: int|
                0 <= j < i ==> cell_removed(old(children)@[j], #[trigger] children@[j], id),
            id != 0 ==> forall|j: int|
                0 <= j < i ==> (#[trigger] children@[j]).id != id && desc_id_absent(
                    children@[j],
                    id,
                ),
        decreases n - i,
    {
        if children[i].get_id() == id {
            let ghost pre0 = children@;
            let fresh = UiElement::new(0, UiContent::Empty);
            proof {
                lemma_fresh_wf(fresh);
                lemma_elems_size_le(children@, i as int);
                assert(esize(children@[i as int]) == 1 + csize(children@[i as int].content)
                    + osize(children@[i as int].tooltip) + qsize(
                    children@[i as int].transitions@,
                ));
            }
            children[i] = fresh;
            proof {
                assert(children@ =~= pre0.update(i as int, children@[i as int]));
                lemma_elems_size_update(pre0, i as int, children@[i as int]);
            }
        }
        proof {
            lemma_elems_size_le(children@, i as int);
            assert(ewf(children@[i as int]));
        }
        let ghost pre = children@;
        let ghost mc = esize(children@[i as int]);
        children[i].remove_elements_inner(id, Ghost(mc));
        proof {
            assert(children@ =~= pre.update(i as int, children@[i as int]));
            lemma_elems_size_update(pre, i as int, children@[i as int]);
        }
        i = i + 1;
    }
    proof {
        if id != 0 {
            lemma_seq_id_absent_from_pointwise(children@, n as int, id);
        }
    }
}


/// A freshly created empty element is well formed and weighs one node.
pub proof fn lemma_fresh_wf<T: Copy + Eq + Hash + PartialEqSpec>(e: UiElement<T>)
    requires
        e.layout == Layout::spec_default(),
        e.visuals == Visuals::spec_default(),
        e.hover_visuals is None,
        e.draw_cache == DrawCache::Invalid,
        e.content is Empty,
        e.tooltip is None,
        e.transitions@.len() == 0,
        e.message_handler@.len() == 0,
    ensures
        ewf(e),
        esize(e) == 1,
{
    assert(e.layout.wf());
    assert(e.visuals.wf());
    assert(cwf(e.content));
    assert(qwf(e.transitions@));
    assert(e.draw_cache.wf());
    assert(ewf(e));
    assert(csize(e.content) == 0);
    assert(osize(e.tooltip) == 0);
    assert(qsize(e.transitions@) == 0);
    assert(esize(e) == 1 + csize(e.content) + osize(e.tooltip) + qsize(e.transitions@));
}


/// When an element's cache is valid for the target of this frame — the
/// cached geometry was computed for exactly this target, no layout-changing
/// transition is pending, and every child cache is usable — validating the
/// cache recomputes nothing: the cache, with its outer and inner
/// rectangles, stays exactly as it was.
pub proof fn lemma_cache_reuse<T: Copy + Eq + Hash + PartialEqSpec>(
    e: UiElement<T>,
    target: Rect,
)
    requires
        spec_cache_valid(e, target),
    ensures
        spec_update_draw_cache(e, target) == e.draw_cache,
{
}


/// What one frame's draw does to one element: relates the element's state
/// before (`e1`) and after (`e2`) and the command stream around its draw.
/// The transition queue ticks, the cache is validated against the target,
/// and — when usable geometry came out of it — the background command with
/// the element's effective visuals is appended first, with further
/// commands (content, children, tooltip) after it; without usable geometry
/// nothing is appended and the subtree below stays untouched.
pub open spec fn draws_to<T: Copy + Eq + Hash + PartialEqSpec>(
    e1: UiElement<T>,
    e2: UiElement<T>,
    input: FrameInput,
    param: UiDrawParam,
    pre: Seq<DrawCommand>,
    post: Seq<DrawCommand>,
) -> bool {
    let e_mid = UiElement { transitions: e2.transitions, ..spec_progress_transitions(e1, input.delta) };
    let cache = spec_update_draw_cache(e_mid, param.target);
    let e_vis = UiElement { draw_cache: cache, ..e_mid };
    let bg = DrawCommand::Background {
        rect: cache_outer(cache),
        visuals: spec_current_visual(
            e_vis,
            input.mouse_x as int,
            input.mouse_y as int,
            param.mouse_listen,
        ),
        z: param.z,
    };
    &&& e2.transitions@ == spec_progressed_queue(e1.transitions@, input.delta)
    &&& e2.draw_cache == cache
    &&& e2.layout == e_mid.layout
    &&& e2.visuals == e_mid.visuals
    &&& e2.hover_visuals == e_mid.hover_visuals
    &&& e2.trigger_sound == e_mid.trigger_sound
    &&& e2.id == e_mid.id
    &&& e2.keys == e_mid.keys
    &&& e2.message_handler == e_mid.message_handler
    &&& pre.is_prefix_of(post)
    &&& (cache is Invalid ==> post == pre && e2.content == e_mid.content && e2.tooltip
        == e_mid.tooltip)
    &&& (cache is Valid ==> post.len() > pre.len() && post[pre.len() as int] == bg)
}

/// The children at positions `from .. to` each drawn once, in ascending
/// order, child `j` into `targets[j]`, the commands of each appended after
/// those of the previous.
pub open spec fn children_drawn<T: Copy + Eq + Hash + PartialEqSpec>(
    s1: Seq<UiElement<T>>,
    s2: Seq<UiElement<T>>,
    targets: Seq<Rect>,
    from: int,
    to: int,
    input: FrameInput,
    mouse_listen: bool,
    z: i32,
    pre: Seq<DrawCommand>,
    post: Seq<DrawCommand>,
) -> bool
    decreases to - from,
{
    if from >= to {
        post == pre
    } else {
        exists|mid: Seq<DrawCommand>|
            #![auto]
            {
                &&& draws_to(
                    s1[from],
                    s2[from],
                    input,
                    UiDrawParam { target: targets[from], mouse_listen, z },
                    pre,
                    mid,
                )
                &&& children_drawn(
                    s1,
                    s2,
                    targets,
                    from + 1,
                    to,
                    input,
                    mouse_listen,
                    z,
                    mid,
                    post,
                )
            }
    }
}

/// The children at positions `to .. from` each drawn once, in descending
/// order (position `from - 1` first, position `to` last), every child into
/// the same target.
pub open spec fn children_drawn_desc<T: Copy + Eq + Hash + PartialEqSpec>(
    s1: Seq<UiElement<T>>,
    s2: Seq<UiElement<T>>,
    param: UiDrawParam,
    from: int,
    to: int,
    input: FrameInput,
    pre: Seq<DrawCommand>,
    post: Seq<DrawCommand>,
) -> bool
    decreases from - to,
{
    if from <= to {
        post == pre
    } else {
        exists|mid: Seq<DrawCommand>|
            #![auto]
            {
                &&& draws_to(s1[from - 1], s2[from - 1], input, param, pre, mid)
                &&& children_drawn_desc(s1, s2, param, from - 1, to, input, pre_of(mid), post)
            }
    }
}

/// Identity on command sequences, used as the trigger anchor of the
/// descending relation.
pub open spec fn pre_of(s: Seq<DrawCommand>) -> Seq<DrawCommand> {
    s
}

/// A drawn block extends by one more drawn child at its end.
pub proof fn lemma_children_drawn_snoc<T: Copy + Eq + Hash + PartialEqSpec>(
    s1: Seq<UiElement<T>>,
    s2: Seq<UiElement<T>>,
    targets: Seq<Rect>,
    from: int,
    k: int,
    input: FrameInput,
    mouse_listen: bool,
    z: i32,
    pre: Seq<DrawCommand>,
    cur: Seq<DrawCommand>,
    post: Seq<DrawCommand>,
)
    requires
        from <= k,
        children_drawn(s1, s2, targets, from, k, input, mouse_listen, z, pre, cur),
        draws_to(
            s1[k],
            s2[k],
            input,
            UiDrawParam { target: targets[k], mouse_listen, z },
            cur,
            post,
        ),
    ensures
        children_drawn(s1, s2, targets, from, k + 1, input, mouse_listen, z, pre, post),
    decreases k - from,
{
    if from >= k {
        assert(cur == pre);
        assert(draws_to(
            s1[from],
            s2[from],
            input,
            UiDrawParam { target: targets[from], mouse_listen, z },
            pre,
            post,
        ));
        assert(children_drawn(s1, s2, targets, from + 1, k + 1, input, mouse_listen, z, post,
            post));
        assert(children_drawn(s1, s2, targets, from, k + 1, input, mouse_listen, z, pre, post));
    } else {
        let mid = choose|mid: Seq<DrawCommand>|
            #![auto]
            {
                &&& draws_to(
                    s1[from],
                    s2[from],
                    input,
                    UiDrawParam { target: targets[from], mouse_listen, z },
                    pre,
                    mid,
                )
                &&& children_drawn(
                    s1,
                    s2,
                    targets,
                    from + 1,
                    k,
                    input,
                    mouse_listen,
                    z,
                    mid,
                    cur,
                )
            };
        lemma_children_drawn_snoc(s1, s2, targets, from + 1, k, input, mouse_listen, z, mid,
            cur, post);
        assert(children_drawn(s1, s2, targets, from + 1, k + 1, input, mouse_listen, z, mid,
            post));
    }
}

/// The drawn relation reads only the entries inside its range, so changes
/// outside the range do not disturb it.
pub proof fn lemma_children_drawn_congruence<T: Copy + Eq + Hash + PartialEqSpec>(
    s1: Seq<UiElement<T>>,
    s2a: Seq<UiElement<T>>,
    s2b: Seq<UiElement<T>>,
    targets: Seq<Rect>,
    from: int,
    to: int,
    input: FrameInput,
    mouse_listen: bool,
    z: i32,
    pre: Seq<DrawCommand>,
    post: Seq<DrawCommand>,
)
    requires
        children_drawn(s1, s2a, targets, from, to, input, mouse_listen, z, pre, post),
        forall|j: int| from <= j < to ==> s2b[j] == #[trigger] s2a[j],
    ensures
        children_drawn(s1, s2b, targets, from, to, input, mouse_listen, z, pre, post),
    decreases to - from,
{
    if from < to {
        let mid = choose|mid: Seq<DrawCommand>|
            #![auto]
            {
                &&& draws_to(
                    s1[from],
                    s2a[from],
                    input,
                    UiDrawParam { target: targets[from], mouse_listen, z },
                    pre,
                    mid,
                )
                &&& children_drawn(
                    s1,
                    s2a,
                    targets,
                    from + 1,
                    to,
                    input,
                    mouse_listen,
                    z,
                    mid,
                    post,
                )
            };
        lemma_children_drawn_congruence(s1, s2a, s2b, targets, from + 1, to, input,
            mouse_listen, z, mid, post);
        assert(children_drawn(s1, s2b, targets, from + 1, to, input, mouse_listen, z, mid,
            post));
    }
}

/// A descending drawn block extends by one more drawn child below it.
pub proof fn lemma_children_drawn_desc_snoc<T: Copy + Eq + Hash + PartialEqSpec>(
    s1: Seq<UiElement<T>>,
    s2: Seq<UiElement<T>>,
    param: UiDrawParam,
    from: int,
    k: int,
    input: FrameInput,
    pre: Seq<DrawCommand>,
    cur: Seq<DrawCommand>,
    post: Seq<DrawCommand>,
)
    requires
        k <= from,
        children_drawn_desc(s1, s2, param, from, k, input, pre, cur),
        draws_to(s1[k - 1], s2[k - 1], input, param, cur, post),
    ensures
        children_drawn_desc(s1, s2, param, from, k - 1, input, pre, post),
    decreases from - k,
{
    if from <= k {
        assert(cur == pre);
        assert(children_drawn_desc(s1, s2, param, k - 1, k - 1, input, pre_of(post), post));
    } else {
        let mid = choose|mid: Seq<DrawCommand>|
            #![auto]
            {
                &&& draws_to(s1[from - 1], s2[from - 1], input, param, pre, mid)
                &&& children_drawn_desc(s1, s2, param, from - 1, k, input, pre_of(mid), cur)
            };
        lemma_children_drawn_desc_snoc(s1, s2, param, from - 1, k, input, mid, cur, post);
        assert(children_drawn_desc(s1, s2, param, from - 1, k - 1, input, pre_of(mid), post));
    }
}

/// The descending drawn relation also reads only its range.
pub proof fn lemma_children_drawn_desc_congruence<T: Copy + Eq + Hash + PartialEqSpec>(
    s1: Seq<UiElement<T>>,
    s2a: Seq<UiElement<T>>,
    s2b: Seq<UiElement<T>>,
    param: UiDrawParam,
    from: int,
    to: int,
    input: FrameInput,
    pre: Seq<DrawCommand>,
    post: Seq<DrawCommand>,
)
    requires
        children_drawn_desc(s1, s2a, param, from, to, input, pre, post),
        forall|j: int| to <= j < from ==> s2b[j] == #[trigger] s2a[j],
    ensures
        children_drawn_desc(s1, s2b, param, from, to, input, pre, post),
    decreases from - to,
{
    if from > to {
        let mid = choose|mid: Seq<DrawCommand>|
            #![auto]
            {
                &&& draws_to(s1[from - 1], s2a[from - 1], input, param, pre, mid)
                &&& children_drawn_desc(s1, s2a, param, from - 1, to, input, pre_of(mid), post)
            };
        lemma_children_drawn_desc_congruence(s1, s2a, s2b, param, from - 1, to, input, mid,
            post);
        assert(children_drawn_desc(s1, s2b, param, from - 1, to, input, pre_of(mid), post));
    }
}


/// How removal of an id transforms one element: everything of the element
/// itself stays; in its content, direct children carrying the id are
/// dropped (order preserved), grid cells and a duration box's child
/// carrying it are replaced by fresh empty cells, and removal recurses
/// into what remains.
pub open spec fn removes_to<T: Copy + Eq + Hash + PartialEqSpec>(
    e1: UiElement<T>,
    e2: UiElement<T>,
    id: u32,
) -> bool
    decreases e1, 1int, 0int,
{
    &&& e2.layout == e1.layout
    &&& e2.visuals == e1.visuals
    &&& e2.hover_visuals == e1.hover_visuals
    &&& e2.trigger_sound == e1.trigger_sound
    &&& e2.id == e1.id
    &&& e2.draw_cache == e1.draw_cache
    &&& e2.tooltip == e1.tooltip
    &&& e2.transitions == e1.transitions
    &&& e2.keys == e1.keys
    &&& e2.message_handler == e1.message_handler
    &&& contents_removed(e1.content, e2.content, id)
}

/// The removal relation between the old and new content.
pub open spec fn contents_removed<T: Copy + Eq + Hash + PartialEqSpec>(
    c1: UiContent<T>,
    c2: UiContent<T>,
    id: u32,
) -> bool
    decreases c1, 0int, 0int,
{
    match (c1, c2) {
        (UiContent::Empty, UiContent::Empty) => true,
        (UiContent::Leaf(a), UiContent::Leaf(b)) => a == b,
        (UiContent::Vertical(b1), UiContent::Vertical(b2)) => b2.spacing == b1.spacing
            && children_removed(b1.children@, b2.children@, id),
        (UiContent::Horizontal(b1), UiContent::Horizontal(b2)) => b2.spacing == b1.spacing
            && children_removed(b1.children@, b2.children@, id),
        (UiContent::Stack(b1), UiContent::Stack(b2)) => children_removed(
            b1.children@,
            b2.children@,
            id,
        ),
        (UiContent::Grid(g1), UiContent::Grid(g2)) => {
            &&& g2.cols == g1.cols
            &&& g2.rows == g1.rows
            &&& g2.vertical_spacing == g1.vertical_spacing
            &&& g2.horizontal_spacing == g1.horizontal_spacing
            &&& g2.children@.len() == g1.children@.len()
            &&& forall|i: int|
                0 <= i < g1.children@.len() ==> cell_removed(
                    g1.children@[i],
                    #[trigger] g2.children@[i],
                    id,
                )
        },
        (UiContent::Duration(d1), UiContent::Duration(d2)) => d2.duration == d1.duration
            && cell_removed(*d1.child, *d2.child, id),
        _ => false,
    }
}

/// One grid cell (or a duration box's child) after removal: replaced by a
/// fresh empty cell when its id matched, removed-from recursively
/// otherwise.
pub open spec fn cell_removed<T: Copy + Eq + Hash + PartialEqSpec>(
    e1: UiElement<T>,
    e2: UiElement<T>,
    id: u32,
) -> bool
    decreases e1, 2int, 0int,
{
    if e1.id == id {
        crate::containers::is_empty_cell(e2)
    } else {
        removes_to(e1, e2, id)
    }
}

/// A child list after removal: the children carrying the id are dropped in
/// place, the survivors keep their order and are removed-from recursively.
pub open spec fn children_removed<T: Copy + Eq + Hash + PartialEqSpec>(
    s1: Seq<UiElement<T>>,
    s2: Seq<UiElement<T>>,
    id: u32,
) -> bool
    decreases s1, 2int, 0int,
{
    if s1.len() == 0 {
        s2.len() == 0
    } else if s1[0].id == id {
        children_removed(s1.drop_first(), s2, id)
    } else {
        s2.len() > 0 && removes_to(s1[0], s2[0], id) && children_removed(
            s1.drop_first(),
            s2.drop_first(),
            id,
        )
    }
}

/// Filtering the id out and then removing inside every survivor yields the
/// child-removal relation.
pub proof fn lemma_children_removed_build<T: Copy + Eq + Hash + PartialEqSpec>(
    s1: Seq<UiElement<T>>,
    mid: Seq<UiElement<T>>,
    fin: Seq<UiElement<T>>,
    id: u32,
)
    requires
        mid == filter_keep_id(s1, id),
        fin.len() == mid.len(),
        forall|i: int| 0 <= i < mid.len() ==> removes_to(mid[i], #[trigger] fin[i], id),
    ensures
        children_removed(s1, fin, id),
    decreases s1.len(),
{
    if s1.len() > 0 {
        if s1[0].id == id {
            assert(filter_keep_id(s1, id) =~= filter_keep_id(s1.drop_first(), id));
            lemma_children_removed_build(s1.drop_first(), mid, fin, id);
        } else {
            assert(filter_keep_id(s1, id) =~= seq![s1[0]] + filter_keep_id(
                s1.drop_first(),
                id,
            ));
            assert(mid[0] == s1[0]);
            assert(removes_to(s1[0], fin[0], id));
            assert forall|i: int|
                0 <= i < mid.drop_first().len() implies removes_to(
                mid.drop_first()[i],
                #[trigger] fin.drop_first()[i],
                id,
            ) by {
                assert(mid.drop_first()[i] == mid[i + 1]);
                assert(fin.drop_first()[i] == fin[i + 1]);
            }
            assert(mid.drop_first() =~= filter_keep_id(s1.drop_first(), id));
            lemma_children_removed_build(s1.drop_first(), mid.drop_first(), fin.drop_first(),
                id);
        }
    }
}


/// Two trees of identical shape and identical fields. Used where an
/// id-addressed insertion descended but placed nothing: the tree it leaves
/// behind is the tree it found.
pub open spec fn same_tree<T: Copy + Eq + Hash + PartialEqSpec>(
    e1: UiElement<T>,
    e2: UiElement<T>,
) -> bool
    decreases e1, 1int, 0int,
{
    &&& e2.layout == e1.layout
    &&& e2.visuals == e1.visuals
    &&& e2.hover_visuals == e1.hover_visuals
    &&& e2.trigger_sound == e1.trigger_sound
    &&& e2.id == e1.id
    &&& e2.draw_cache == e1.draw_cache
    &&& e2.tooltip == e1.tooltip
    &&& e2.transitions == e1.transitions
    &&& e2.keys == e1.keys
    &&& e2.message_handler == e1.message_handler
    &&& contents_same(e1.content, e2.content)
}

/// Content equality up to the tree relation on children.
pub open spec fn contents_same<T: Copy + Eq + Hash + PartialEqSpec>(
    c1: UiContent<T>,
    c2: UiContent<T>,
) -> bool
    decreases c1, 0int, 0int,
{
    match (c1, c2) {
        (UiContent::Empty, UiContent::Empty) => true,
        (UiContent::Leaf(a), UiContent::Leaf(b)) => a == b,
        (UiContent::Vertical(b1), UiContent::Vertical(b2)) => b2.spacing == b1.spacing
            && b2.children@.len() == b1.children@.len() && (forall|i: int|
            0 <= i < b1.children@.len() ==> same_tree(
                b1.children@[i],
                #[trigger] b2.children@[i],
            )),
        (UiContent::Horizontal(b1), UiContent::Horizontal(b2)) => b2.spacing == b1.spacing
            && b2.children@.len() == b1.children@.len() && (forall|i: int|
            0 <= i < b1.children@.len() ==> same_tree(
                b1.children@[i],
                #[trigger] b2.children@[i],
            )),
        (UiContent::Stack(b1), UiContent::Stack(b2)) => b2.children@.len()
            == b1.children@.len() && (forall|i: int|
            0 <= i < b1.children@.len() ==> same_tree(
                b1.children@[i],
                #[trigger] b2.children@[i],
            )),
        (UiContent::Grid(g1), UiContent::Grid(g2)) => {
            &&& g2.cols == g1.cols
            &&& g2.rows == g1.rows
            &&& g2.vertical_spacing == g1.vertical_spacing
            &&& g2.horizontal_spacing == g1.horizontal_spacing
            &&& g2.children@.len() == g1.children@.len()
            &&& forall|i: int|
                0 <= i < g1.children@.len() ==> same_tree(
                    g1.children@[i],
                    #[trigger] g2.children@[i],
                )
        },
        (UiContent::Duration(d1), UiContent::Duration(d2)) => d2.duration == d1.duration
            && same_tree(*d1.child, *d2.child),
        _ => false,
    }
}

/// Whether this node itself takes an id-addressed insertion: its id
/// matches and its content is a container other than a grid.
pub open spec fn accepts_here<T: Copy + Eq + Hash + PartialEqSpec>(e: UiElement<T>, id: u32)
    -> bool {
    e.id == id && match e.content {
        UiContent::Empty => false,
        UiContent::Leaf(_) => false,
        UiContent::Grid(_) => false,
        _ => true,
    }
}

/// How an id-addressed insertion transforms one element: the first node in
/// depth-first preorder whose id matches and whose content takes children
/// receives the element (a linear or stack box appends it, a duration box
/// replaces its child); every other node stays as it was, children tried
/// earlier and found wanting included.
pub open spec fn adds_to<T: Copy + Eq + Hash + PartialEqSpec>(
    e1: UiElement<T>,
    e2: UiElement<T>,
    id: u32,
    elem: UiElement<T>,
) -> bool
    decreases e1, 1int, 0int,
{
    &&& e2.layout == e1.layout
    &&& e2.visuals == e1.visuals
    &&& e2.hover_visuals == e1.hover_visuals
    &&& e2.trigger_sound == e1.trigger_sound
    &&& e2.id == e1.id
    &&& e2.draw_cache == e1.draw_cache
    &&& e2.tooltip == e1.tooltip
    &&& e2.transitions == e1.transitions
    &&& e2.keys == e1.keys
    &&& e2.message_handler == e1.message_handler
    &&& if accepts_here(e1, id) {
        match (e1.content, e2.content) {
            (UiContent::Vertical(b1), UiContent::Vertical(b2)) => b2.spacing == b1.spacing
                && b2.children@ == b1.children@.push(elem),
            (UiContent::Horizontal(b1), UiContent::Horizontal(b2)) => b2.spacing == b1.spacing
                && b2.children@ == b1.children@.push(elem),
            (UiContent::Stack(b1), UiContent::Stack(b2)) => b2.children@ == b1.children@.push(
                elem,
            ),
            (UiContent::Duration(d1), UiContent::Duration(d2)) => d2.duration == d1.duration
                && *d2.child == elem,
            _ => false,
        }
    } else {
        match (e1.content, e2.content) {
            (UiContent::Empty, UiContent::Empty) => true,
            (UiContent::Leaf(a), UiContent::Leaf(b)) => a == b,
            (UiContent::Vertical(b1), UiContent::Vertical(b2)) => b2.spacing == b1.spacing
                && children_add(b1.children@, b2.children@, id, elem),
            (UiContent::Horizontal(b1), UiContent::Horizontal(b2)) => b2.spacing == b1.spacing
                && children_add(b1.children@, b2.children@, id, elem),
            (UiContent::Stack(b1), UiContent::Stack(b2)) => children_add(
                b1.children@,
                b2.children@,
                id,
                elem,
            ),
            (UiContent::Grid(g1), UiContent::Grid(g2)) => {
                &&& g2.cols == g1.cols
                &&& g2.rows == g1.rows
                &&& g2.vertical_spacing == g1.vertical_spacing
                &&& g2.horizontal_spacing == g1.horizontal_spacing
                &&& children_add(g1.children@, g2.children@, id, elem)
            },
            (UiContent::Duration(d1), UiContent::Duration(d2)) => d2.duration == d1.duration
                && adds_to(*d1.child, *d2.child, id, elem),
            _ => false,
        }
    }
}

/// A child list after an id-addressed insertion: the children before the
/// first accepting one were tried and left as found, the first accepting
/// one received the element, and the children after it were never touched.
pub open spec fn children_add<T: Copy + Eq + Hash + PartialEqSpec>(
    s1: Seq<UiElement<T>>,
    s2: Seq<UiElement<T>>,
    id: u32,
    elem: UiElement<T>,
) -> bool
    decreases s1, 2int, 0int,
{
    if s1.len() == 0 {
        s2.len() == 0
    } else if spec_accepts(s1[0], id) {
        &&& s2.len() == s1.len()
        &&& adds_to(s1[0], s2[0], id, elem)
        &&& forall|j: int| 1 <= j < s1.len() ==> #[trigger] s2[j] == s1[j]
    } else {
        &&& s2.len() == s1.len()
        &&& same_tree(s1[0], s2[0])
        &&& children_add(s1.drop_first(), s2.drop_first(), id, elem)
    }
}

/// A prefix of tried-but-not-accepting children, one accepting child with
/// the insertion, and an untouched tail make the child-insertion relation.
pub proof fn lemma_children_add_build<T: Copy + Eq + Hash + PartialEqSpec>(
    s1: Seq<UiElement<T>>,
    s2: Seq<UiElement<T>>,
    k: int,
    id: u32,
    elem: UiElement<T>,
)
    requires
        s1.len() == s2.len(),
        0 <= k < s1.len(),
        forall|j: int|
            0 <= j < k ==> !spec_accepts(#[trigger] s1[j], id) && same_tree(s1[j], s2[j]),
        spec_accepts(s1[k], id),
        adds_to(s1[k], s2[k], id, elem),
        forall|j: int| k < j < s1.len() ==> #[trigger] s2[j] == s1[j],
    ensures
        children_add(s1, s2, id, elem),
    decreases k,
{
    if k == 0 {
        assert forall|j: int| 1 <= j < s1.len() implies #[trigger] s2[j] == s1[j] by {}
    } else {
        assert forall|j: int|
            0 <= j < k - 1 implies !spec_accepts(#[trigger] s1.drop_first()[j], id)
            && same_tree(s1.drop_first()[j], s2.drop_first()[j]) by {
            assert(s1.drop_first()[j] == s1[j + 1]);
            assert(s2.drop_first()[j] == s2[j + 1]);
        }
        assert(s1.drop_first()[k - 1] == s1[k]);
        assert(s2.drop_first()[k - 1] == s2[k]);
        assert forall|j: int|
            k - 1 < j < s1.drop_first().len() implies #[trigger] s2.drop_first()[j]
            == s1.drop_first()[j] by {
            assert(s1.drop_first()[j] == s1[j + 1]);
            assert(s2.drop_first()[j] == s2[j + 1]);
        }
        lemma_children_add_build(s1.drop_first(), s2.drop_first(), k - 1, id, elem);
    }
}

/// A list of tried-but-not-accepting children, each left as found, also
/// makes the relation's "nothing inserted" shape vacuously false — what it
/// does make is the pointwise tree relation, used on the hand-back path.
pub proof fn lemma_seq_not_accepts_pointwise<T: Copy + Eq + Hash + PartialEqSpec>(
    s: Seq<UiElement<T>>,
    k: int,
    id: u32,
)
    requires
        0 <= k <= s.len(),
        !seq_accepts(s, k, id),
    ensures
        forall|j: int| 0 <= j < k ==> !spec_accepts(#[trigger] s[j], id),
    decreases k,
{
    if k > 0 {
        lemma_seq_not_accepts_pointwise(s, k - 1, id);
    }
}

impl<T: Copy + Eq + Hash + PartialEqSpec> UiElement<T> {
    /// Whether this element asks to be removed from its parent container:
    /// true exactly for a duration box whose lifetime has run out.
    pub open spec fn spec_expired(self) -> bool {
        match self.content {
            UiContent::Duration(b) => b.duration == 0,
            _ => false,
        }
    }

    /// Creates a new element with the given content and id. Layout and
    /// visuals take their default values; there are no hover visuals, no
    /// tooltip, no queued transitions, no keys and no handler rules.
    /// Use id 0 for an element that should never send messages.
    pub fn new(id: u32, content: UiContent<T>) -> (r: Self)
        ensures
            r.id == id,
            r.content == content,
            r.layout == Layout::spec_default(),
            r.visuals == Visuals::spec_default(),
            r.hover_visuals is None,
            r.trigger_sound is None,
            r.draw_cache == DrawCache::Invalid,
            r.tooltip is None,
            r.transitions@ == Seq::<Transition<T>>::empty(),
            crate::tiny::keys_view(r.keys) == Seq::<u32>::empty(),
            r.message_handler@ == Seq::<HandlerRule<T>>::empty(),
    {
        UiElement {
            layout: Default::default(),
            visuals: Default::default(),
            hover_visuals: None,
            trigger_sound: None,
            id,
            draw_cache: DrawCache::Invalid,
            content,
            tooltip: None,
            transitions: Vec::new(),
            keys: KeyList::new(),
            message_handler: Vec::new(),
        }
    }

    /// Returns this element's (not necessarily unique) id, used to identify
    /// the source of internal messages.
    pub fn get_id(&self) -> (r: u32)
        ensures
            r == self.id,
    {
        self.id
    }

    /// Returns this element's current layout.
    pub fn get_layout(&self) -> (r: Layout)
        ensures
            r == self.layout,
    {
        self.layout
    }

    /// Whether this element asks to be removed by its parent.
    pub fn expired(&self) -> (r: bool)
        ensures
            r == self.spec_expired(),
    {
        match &self.content {
            UiContent::Duration(b) => b.duration == 0,
            _ => false,
        }
    }


    /// Returns the minimum and maximum width this element can take:
    /// the content's minimum width clamped into the element's own
    /// horizontal bounds plus padding, and the horizontal maximum plus
    /// padding.
    pub fn width_range(&self) -> (r: (u64, u64))
        requires
            ewf(*self),
        ensures
            r.0 == spec_range(*self, true).0,
            r.1 == spec_range(*self, true).1,
            len_ok(r.0),
            len_ok(r.1),
        decreases *self, 4int, 0int,
    {
        let inner_min = match &self.content {
            UiContent::Vertical(b) => b.content_width_range().0,
            UiContent::Horizontal(b) => b.content_width_range().0,
            UiContent::Stack(b) => b.content_width_range().0,
            UiContent::Grid(b) => b.content_width_range().0,
            UiContent::Duration(b) => b.content_width_range().0,
            _ => 0,
        };
        let size_min = self.layout.x_size.min();
        let size_max = self.layout.x_size.max();
        let lo = ladd(
            ladd(lclamp(inner_min, size_min, size_max), self.layout.padding.right),
            self.layout.padding.left,
        );
        let hi = ladd(ladd(size_max, self.layout.padding.right), self.layout.padding.left);
        (lo, hi)
    }

    /// Returns the minimum and maximum height this element can take,
    /// analogous to [`UiElement::width_range`].
    pub fn height_range(&self) -> (r: (u64, u64))
        requires
            ewf(*self),
        ensures
            r.0 == spec_range(*self, false).0,
            r.1 == spec_range(*self, false).1,
            len_ok(r.0),
            len_ok(r.1),
        decreases *self, 4int, 1int,
    {
        let inner_min = match &self.content {
            UiContent::Vertical(b) => b.content_height_range().0,
            UiContent::Horizontal(b) => b.content_height_range().0,
            UiContent::Stack(b) => b.content_height_range().0,
            UiContent::Grid(b) => b.content_height_range().0,
            UiContent::Duration(b) => b.content_height_range().0,
            _ => 0,
        };
        let size_min = self.layout.y_size.min();
        let size_max = self.layout.y_size.max();
        let lo = ladd(
            ladd(lclamp(inner_min, size_min, size_max), self.layout.padding.top),
            self.layout.padding.bottom,
        );
        let hi = ladd(ladd(size_max, self.layout.padding.top), self.layout.padding.bottom);
        (lo, hi)
    }

    /// Returns the minimum size required by this element's content.
    pub fn content_min(&self) -> (r: (u64, u64))
        requires
            ewf(*self),
        ensures
            r == spec_content_min(*self),
            len_ok(r.0),
            len_ok(r.1),
        decreases *self, 5int, 0int,
    {
        let x = match &self.content {
            UiContent::Vertical(b) => b.content_width_range().0,
            UiContent::Horizontal(b) => b.content_width_range().0,
            UiContent::Stack(b) => b.content_width_range().0,
            UiContent::Grid(b) => b.content_width_range().0,
            UiContent::Duration(b) => b.content_width_range().0,
            _ => 0,
        };
        let y = match &self.content {
            UiContent::Vertical(b) => b.content_height_range().0,
            UiContent::Horizontal(b) => b.content_height_range().0,
            UiContent::Stack(b) => b.content_height_range().0,
            UiContent::Grid(b) => b.content_height_range().0,
            UiContent::Duration(b) => b.content_height_range().0,
            _ => 0,
        };
        (x, y)
    }


    /// Whether every cache in this subtree is usable as it stands.
    fn cache_fresh(&self) -> (r: bool)
        ensures
            r == spec_cache_fresh(*self),
        decreases *self, 1int, 0int,
    {
        let own = match &self.draw_cache {
            DrawCache::Valid { .. } => true,
            DrawCache::Invalid => false,
        };
        let no_layout_change = self.transitions.len() == 0 || matches!(
            self.transitions[0].new_layout,
            None,
        );
        own && no_layout_change && (match &self.content {
            UiContent::Vertical(b) => elems_fresh(&b.children),
            UiContent::Horizontal(b) => elems_fresh(&b.children),
            UiContent::Stack(b) => elems_fresh(&b.children),
            UiContent::Grid(b) => elems_fresh(&b.children),
            UiContent::Duration(b) => b.child.cache_fresh(),
            _ => true,
        })
    }

    /// Whether this element's cache may be reused for a draw into `target`.
    /// The cache may have been invalidated directly, by a target that
    /// differs from the cached one, by a layout-changing transition at the
    /// head of the queue, or by any child whose own cache is unusable.
    fn cache_valid(&self, target: Rect) -> (r: bool)
        ensures
            r == spec_cache_valid(*self, target),
        decreases *self, 2int, 0int,
    {
        let own = match &self.draw_cache {
            DrawCache::Valid { outer: _, inner: _, target: cached } => *cached == target,
            DrawCache::Invalid => false,
        };
        let no_layout_change = self.transitions.len() == 0 || matches!(
            self.transitions[0].new_layout,
            None,
        );
        own && no_layout_change && (match &self.content {
            UiContent::Vertical(b) => elems_fresh(&b.children),
            UiContent::Horizontal(b) => elems_fresh(&b.children),
            UiContent::Stack(b) => elems_fresh(&b.children),
            UiContent::Grid(b) => elems_fresh(&b.children),
            UiContent::Duration(b) => b.child.cache_fresh(),
            _ => true,
        })
    }

    /// Validates this element's draw cache against `target` and recomputes
    /// it when it cannot be reused. The recomputed geometry blends the
    /// current layout with the pending layout of an active transition; it
    /// is kept only when the outer rectangle fits the target with a
    /// non-negative origin, otherwise the cache stays invalid and the
    /// element is skipped this frame.
    pub fn update_draw_cache(&mut self, target: Rect)
        requires
            ewf(*old(self)),
            target.wf(),
        ensures
            *final(self) == (UiElement { draw_cache: final(self).draw_cache, ..*old(self) }),
            final(self).draw_cache == spec_update_draw_cache(*old(self), target),
            final(self).draw_cache.wf(),
            // A cache this call wrote (rather than kept) passed the bounds
            // check: its outer rectangle fits the target it remembers.
            !spec_cache_valid(*old(self), target) ==> crate::draw_cache::cache_fits(
                final(self).draw_cache,
            ),
            // Whatever is valid afterwards remembers this frame's target.
            match final(self).draw_cache {
                DrawCache::Valid { outer: _, inner: _, target: stored } => stored == target,
                DrawCache::Invalid => true,
            },
            ewf(*final(self)),
    {
        if self.cache_valid(target) {
            return ;
        }
        let cmin = self.content_min();
        let (own_outer, own_inner) = self.layout.get_outer_inner_bounds_in_target(&target, cmin);
        let (outer, inner) = if self.transitions.len() > 0 {
            let has_new_layout = match &self.transitions[0].new_layout {
                Some(_) => true,
                None => false,
            };
            if has_new_layout {
                let nl = match &self.transitions[0].new_layout {
                    Some(l) => *l,
                    None => self.layout,
                };
                assert(qwf(self.transitions@));
                assert(twf(self.transitions@[0]));
                let (trans_outer, trans_inner) = nl.get_outer_inner_bounds_in_target(
                    &target,
                    cmin,
                );
                let ratio = self.transitions[0].get_progress_ratio();
                (
                    crate::transition::average_rect(&own_outer, &trans_outer, ratio),
                    crate::transition::average_rect(&own_inner, &trans_inner, ratio),
                )
            } else {
                (own_outer, own_inner)
            }
        } else {
            (own_outer, own_inner)
        };
        if outer.w > target.w || outer.h > target.h || outer.x < 0 || outer.y < 0 {
            self.draw_cache = DrawCache::Invalid;
        } else {
            self.draw_cache = DrawCache::Valid { outer, inner, target };
        }
    }

    /// Returns the visuals this element displays this frame: hover visuals
    /// while the pointer rests inside last frame's outer rectangle (falling
    /// back to the base visuals), blended against the goal of an active
    /// visuals-changing transition by its progress ratio.
    pub fn get_current_visual(&self, input: &FrameInput, param: UiDrawParam) -> (r: Visuals)
        requires
            ewf(*self),
        ensures
            r == spec_current_visual(
                *self,
                input.mouse_x as int,
                input.mouse_y as int,
                param.mouse_listen,
            ),
            r.wf(),
    {
        let hovered = param.mouse_listen && (match &self.draw_cache {
            DrawCache::Valid { outer, inner: _, target: _ } => outer.contains(
                input.mouse_x,
                input.mouse_y,
            ),
            DrawCache::Invalid => false,
        });
        if hovered {
            let own_vis = match &self.hover_visuals {
                Some(v) => *v,
                None => self.visuals,
            };
            if self.transitions.len() == 0 {
                own_vis
            } else {
                assert(ewf(*self));
                assert(qwf(self.transitions@));
                assert(twf(self.transitions@[0]));
                match &self.transitions[0].new_hover_visuals {
                    Some(vis) => {
                        let trans_vis = match vis {
                            Some(hv) => *hv,
                            None => self.visuals,
                        };
                        own_vis.average(trans_vis, self.transitions[0].get_progress_ratio())
                    },
                    None => own_vis,
                }
            }
        } else {
            if self.transitions.len() == 0 {
                self.visuals
            } else {
                assert(qwf(self.transitions@));
                assert(twf(self.transitions@[0]));
                match &self.transitions[0].new_visuals {
                    Some(vis) => self.visuals.average(
                        *vis,
                        self.transitions[0].get_progress_ratio(),
                    ),
                    None => self.visuals,
                }
            }
        }
    }

    /// Advances the transition at the head of the queue by the time of the
    /// last frame. When this completes the transition, it is popped and
    /// every change it carries is committed to the element exactly once:
    /// fields it does not carry stay untouched, and committing a new layout
    /// invalidates the draw cache.
    pub fn progress_transitions(&mut self, delta: u64)
        requires
            ewf(*old(self)),
        ensures
            ewf(*final(self)),
            esize(*final(self)) <= esize(*old(self)),
            *final(self) == (UiElement {
                transitions: final(self).transitions,
                ..spec_progress_transitions(*old(self), delta)
            }),
            final(self).transitions@ == spec_progressed_queue(old(self).transitions@, delta),
            old(self).transitions@.len() == 0 ==> *final(self) == *old(self),
            old(self).transitions@.len() > 0 ==> ({
                let q = old(self).transitions@;
                let h = q[0];
                let progressed = if h.progressed_duration + delta <= u64::MAX {
                    (h.progressed_duration + delta) as u64
                } else {
                    u64::MAX
                };
                if progressed >= h.total_duration {
                    // Completed: pop the head and commit its changes.
                    &&& final(self).transitions@ == q.drop_first()
                    &&& final(self).layout == (match h.new_layout {
                        Some(l) => l,
                        None => old(self).layout,
                    })
                    &&& final(self).draw_cache == (if h.new_layout is Some {
                        DrawCache::Invalid
                    } else {
                        old(self).draw_cache
                    })
                    &&& final(self).visuals == (match h.new_visuals {
                        Some(v) => v,
                        None => old(self).visuals,
                    })
                    &&& final(self).hover_visuals == (match h.new_hover_visuals {
                        Some(hv) => hv,
                        None => old(self).hover_visuals,
                    })
                    &&& final(self).content == (match h.new_content {
                        Some(c) => c,
                        None => old(self).content,
                    })
                    &&& final(self).tooltip == (match h.new_tooltip {
                        Some(tt) => tt,
                        None => old(self).tooltip,
                    })
                    &&& final(self).id == old(self).id
                    &&& final(self).trigger_sound == old(self).trigger_sound
                    &&& final(self).keys == old(self).keys
                    &&& final(self).message_handler == old(self).message_handler
                } else {
                    // Still running: only the head's elapsed time advances.
                    *final(self) == (UiElement {
                        transitions: final(self).transitions,
                        ..*old(self)
                    }) && final(self).transitions@ == q.update(
                        0,
                        Transition { progressed_duration: progressed, ..h },
                    )
                }
            }),
    {
        if self.transitions.len() == 0 {
            return ;
        }
        proof {
            assert(qwf(old(self).transitions@));
            assert(twf(old(self).transitions@[0]));
        }
        let ghost q = self.transitions@;
        let complete = self.transitions[0].progress(delta);
        proof {
            assert(self.transitions@ =~= q.update(0, self.transitions@[0]));
            lemma_qsize_update_head(q, self.transitions@[0]);
        }
        if complete {
            let trans = self.transitions.remove(0);
            let ghost q2 = q.update(0, trans);
            proof {
                assert(self.transitions@ =~= q2.drop_first());
                assert(self.transitions@ =~= q.drop_first());
                assert(qsize(q2) == tsize(q2[0]) + qsize(q2.drop_first()));
            }
            if let Some(layout) = trans.new_layout {
                self.layout = layout;
                self.draw_cache = DrawCache::Invalid;
            }
            if let Some(visuals) = trans.new_visuals {
                self.visuals = visuals;
            }
            if let Some(hover_visuals) = trans.new_hover_visuals {
                self.hover_visuals = hover_visuals;
            }
            if let Some(content) = trans.new_content {
                self.content = content;
            }
            if let Some(tooltip) = trans.new_tooltip {
                self.tooltip = tooltip;
            }
            proof {
                assert forall|i: int|
                    0 <= i < self.transitions@.len() implies twf(
                    #[trigger] self.transitions@[i],
                ) by {
                    assert(self.transitions@[i] == q[i + 1]);
                }
                assert(qwf(self.transitions@));
                assert(esize(*old(self)) == 1 + csize(old(self).content) + osize(
                    old(self).tooltip,
                ) + qsize(q));
                assert(esize(*self) == 1 + csize(self.content) + osize(self.tooltip) + qsize(
                    self.transitions@,
                ));
            }
        } else {
            proof {
                assert forall|i: int|
                    0 <= i < self.transitions@.len() implies twf(
                    #[trigger] self.transitions@[i],
                ) by {
                    if i > 0 {
                        assert(self.transitions@[i] == q[i]);
                    }
                }
                assert(qwf(self.transitions@));
            }
        }
    }


    /// Draws this element into the rectangle of `param`, appending the
    /// resulting draw commands to `out`. The element first progresses its
    /// transition queue and validates its draw cache; if no valid geometry
    /// fits the target, nothing is drawn and the whole subtree is skipped
    /// for this frame. Otherwise the background is emitted with the
    /// element's effective visuals, the content follows (children recurse
    /// with the rectangles the distribution algorithm assigns them inside
    /// the inner rectangle), and a hovered element's tooltip is drawn last,
    /// near the pointer and flipped away from the closer screen edges, one
    /// paint priority above its owner.
    #[verifier::rlimit(80)]
    pub(crate) fn draw_to_rectangle(
        &mut self,
        input: &FrameInput,
        param: UiDrawParam,
        out: &mut Vec<DrawCommand>,
        Ghost(m): Ghost<nat>,
    )
        requires
            ewf(*old(self)),
            esize(*old(self)) <= m,
            param.target.wf(),
            input.wf(),
        ensures
            ewf(*final(self)),
            esize(*final(self)) <= m,
            draws_to(*old(self), *final(self), *input, param, old(out)@, final(out)@),
            ({
                let e1 = UiElement {
                    transitions: final(self).transitions,
                    ..spec_progress_transitions(*old(self), input.delta)
                };
                let cache = spec_update_draw_cache(e1, param.target);
                let e2 = UiElement { draw_cache: cache, ..e1 };
                let bg = DrawCommand::Background {
                    rect: cache_outer(cache),
                    visuals: spec_current_visual(
                        e2,
                        input.mouse_x as int,
                        input.mouse_y as int,
                        param.mouse_listen,
                    ),
                    z: param.z,
                };
                &&& (cache is Valid && e1.content is Leaf && e1.tooltip is None ==> final(out)@
                    == old(out)@.push(bg).push(
                    DrawCommand::Content {
                        handle: e1.content->Leaf_0,
                        rect: cache_inner(cache),
                        z: param.z,
                    },
                ))
                &&& (cache is Valid && e1.content is Empty && e1.tooltip is None ==> final(out)@
                    == old(out)@.push(bg))
            }),
        decreases m, 1int,
    {
        self.progress_transitions(input.delta);
        self.update_draw_cache(param.target);

        // If the cache is still invalid, skip this element (and its whole
        // subtree) for this frame; it is retried next frame.
        let (outer, inner) = match &self.draw_cache {
            DrawCache::Invalid => {
                proof {
                    assert(out@.is_prefix_of(out@)) by {
                        assert(out@ =~= out@.subrange(0, out@.len() as int));
                    }
                }
                return ;
            },
            DrawCache::Valid { outer, inner, target: _ } => (*outer, *inner),
        };

        // Paint the background with the effective visuals.
        let vis = self.get_current_visual(input, param);
        out.push(DrawCommand::Background { rect: outer, visuals: vis, z: param.z });
        let ghost out1 = out@;
        let ghost e_mid = *self;
        proof {
            assert(old(out)@.is_prefix_of(out1)) by {
                assert(old(out)@ =~= out1.subrange(0, old(out)@.len() as int));
            }
            assert(esize(e_mid) == 1 + csize(e_mid.content) + osize(e_mid.tooltip) + qsize(
                e_mid.transitions@,
            ));
            assert(esize(e_mid) <= m);
        }

        // Delegate to the content: leaves render into the inner rectangle,
        // containers recurse into their children.
        match &mut self.content {
            UiContent::Empty => {},
            UiContent::Leaf(handle) => {
                let h = *handle;
                out.push(DrawCommand::Content { handle: h, rect: inner, z: param.z });
            },
            UiContent::Vertical(b) => {
                b.draw_content(input, param.target(inner), out, Ghost(m));
            },
            UiContent::Horizontal(b) => {
                b.draw_content(input, param.target(inner), out, Ghost(m));
            },
            UiContent::Stack(b) => {
                b.draw_content(input, param.target(inner), out, Ghost(m));
            },
            UiContent::Grid(b) => {
                b.draw_content(input, param.target(inner), out, Ghost(m));
            },
            UiContent::Duration(b) => {
                b.draw_content(input, param.target(inner), out, Ghost(m));
            },
        }
        proof {
            lemma_prefix_trans(old(out)@, out1, out@);
            assert(out1.is_prefix_of(out@)) by {
                assert(out1 =~= out@.subrange(0, out1.len() as int));
            }
            assert(esize(*self) == 1 + csize(self.content) + osize(self.tooltip) + qsize(
                self.transitions@,
            ));
            assert(csize(self.content) <= csize(e_mid.content));
            assert(esize(*self) <= m);
            assert(ewf(*self));
        }

        // Draw the tooltip of a hovered element near the pointer, flipped
        // away from whichever screen edge is closer, one priority higher.
        if param.mouse_listen && outer.contains(input.mouse_x, input.mouse_y) {
            let ghost out2 = out@;
            let ghost self2 = *self;
            if let Some(tt) = &mut self.tooltip {
                let tw = tt.width_range().0;
                let th = tt.height_range().0;
                let mut tx = if 2 * inner.x + (inner.w as i64) > (input.screen_w as i64) {
                    input.mouse_x - (tw as i64) - 10
                } else {
                    input.mouse_x + 10
                };
                let hi_x = (input.screen_w as i64) - (tw as i64);
                if tx < 0 {
                    tx = 0;
                }
                if tx > hi_x {
                    tx = hi_x;
                }
                let mut ty = if 2 * inner.y + (inner.h as i64) > (input.screen_h as i64) {
                    input.mouse_y - (th as i64)
                } else {
                    input.mouse_y
                };
                ty = ty - 10;
                if ty < 0 {
                    ty = 0;
                }
                let ttrect = Rect { x: tx, y: ty, w: tw, h: th };
                let z2 = if param.z < i32::MAX {
                    param.z + 1
                } else {
                    param.z
                };
                let ghost mtt = esize(**tt);
                proof {
                    assert(esize(self2) == 1 + csize(self2.content) + osize(self2.tooltip)
                        + qsize(self2.transitions@));
                    assert(osize(self2.tooltip) == esize(**tt));
                    assert(mtt < m);
                }
                tt.draw_to_rectangle(
                    input,
                    param.target(ttrect).z_level(z2),
                    out,
                    Ghost(mtt),
                );
                proof {
                    lemma_prefix_trans(old(out)@, out2, out@);
                    lemma_prefix_trans(out1, out2, out@);
                    assert(esize(*self) == 1 + csize(self.content) + osize(self.tooltip)
                        + qsize(self.transitions@));
                }
            }
        }
        proof {
            assert(out@[old(out)@.len() as int] == out1[old(out)@.len() as int]);
            assert(out1[old(out)@.len() as int] == (DrawCommand::Background {
                rect: outer,
                visuals: vis,
                z: param.z,
            }));
        }
    }

    /// Draws this element as the root of the tree, into the full render
    /// target described by the frame input. Call this on the root element
    /// every frame; the commands appended to `out` are executed in order by
    /// the render backend. `mouse_listen` controls whether hover visuals
    /// and tooltips react to the pointer this frame.
    pub fn draw_to_screen(
        &mut self,
        input: &FrameInput,
        mouse_listen: bool,
        out: &mut Vec<DrawCommand>,
    )
        requires
            ewf(*old(self)),
            input.wf(),
        ensures
            ewf(*final(self)),
            old(out)@.is_prefix_of(final(out)@),
            final(self).transitions@ == spec_progressed_queue(
                old(self).transitions@,
                input.delta,
            ),
            ({
                let screen = Rect { x: 0, y: 0, w: input.screen_w, h: input.screen_h };
                let e1 = UiElement {
                    transitions: final(self).transitions,
                    ..spec_progress_transitions(*old(self), input.delta)
                };
                let cache = spec_update_draw_cache(e1, screen);
                &&& final(self).draw_cache == cache
                &&& (cache is Invalid ==> final(out)@ == old(out)@)
                &&& (cache is Valid ==> final(out)@.len() > old(out)@.len())
            }),
    {
        let target = Rect { x: 0, y: 0, w: input.screen_w, h: input.screen_h };
        let param = UiDrawParam { target, mouse_listen, z: 0 };
        let ghost m = esize(*self);
        self.draw_to_rectangle(input, param, out, Ghost(m));
    }


    /// Walks this element and its descendants and collects the internal
    /// messages of the frame: clicks inside last frame's outer rectangles
    /// and presses of registered trigger keys. Also returns, in traversal
    /// order, the trigger sounds of the clicked elements.
    pub(crate) fn collect_messages(&self, input: &FrameInput) -> (r: (UiMessageSet<T>, Vec<u64>))
        requires
            ewf(*self),
            input.wf(),
        ensures
            reflects_eq::<T>() ==> r.0@ == spec_collect(*self, *input),
            r.1@ == spec_collect_sounds(*self, *input),
        decreases *self, 6int, 0int,
    {
        let mut msgs: UiMessageSet<T> = UiMessageSet::new();
        let mut sounds: Vec<u64> = Vec::new();
        let hovered = match &self.draw_cache {
            DrawCache::Valid { outer, inner: _, target: _ } => outer.contains(
                input.mouse_x,
                input.mouse_y,
            ),
            DrawCache::Invalid => false,
        };
        if self.id != 0 && hovered && input.mouse_pressed_left {
            msgs.insert(UiMessage::Clicked(self.id));
            msgs.insert(UiMessage::Triggered(self.id));
            if let Some(snd) = &self.trigger_sound {
                sounds.push(*snd);
            }
        }
        if self.id != 0 && hovered && input.mouse_pressed_right {
            msgs.insert(UiMessage::ClickedRight(self.id));
        }
        let nk = self.keys.len();
        let mut hit = false;
        let mut ki: usize = 0;
        while ki < nk
            invariant
                0 <= ki <= nk,
                nk == crate::tiny::keys_view(self.keys).len(),
                hit ==> spec_key_hit(*self, *input),
                !hit ==> forall|j: int|
                    0 <= j < ki ==> !input.keys_pressed@.contains(
                        #[trigger] crate::tiny::keys_view(self.keys)[j],
                    ),
            decreases nk - ki,
        {
            if input.key_pressed(self.keys.get(ki)) {
                hit = true;
            }
            ki = ki + 1;
        }
        if self.id != 0 && hit {
            msgs.insert(UiMessage::PressedKey(self.id));
            msgs.insert(UiMessage::Triggered(self.id));
        }
        proof {
            if reflects_eq::<T>() {
                assert(msgs@ =~= own_messages(*self, *input));
            }
            assert(sounds@ =~= own_sounds(*self, *input));
            assert(cwf(self.content));
        }
        match &self.content {
            UiContent::Vertical(b) => {
                collect_from(&b.children, input, &mut msgs, &mut sounds);
            },
            UiContent::Horizontal(b) => {
                collect_from(&b.children, input, &mut msgs, &mut sounds);
            },
            UiContent::Stack(b) => {
                collect_from(&b.children, input, &mut msgs, &mut sounds);
            },
            UiContent::Grid(b) => {
                collect_from(&b.children, input, &mut msgs, &mut sounds);
            },
            UiContent::Duration(b) => {
                let (cm, cs) = b.child.collect_messages(input);
                let mut cs = cs;
                msgs.union_with(&cm);
                sounds.append(&mut cs);
            },
            _ => {},
        }
        proof {
            if reflects_eq::<T>() {
                assert(msgs@ =~= spec_collect(*self, *input));
            }
            assert(sounds@ =~= spec_collect_sounds(*self, *input));
        }
        (msgs, sounds)
    }


    /// Applies the frame's messages to this element and every descendant:
    /// each handler rule whose trigger message is present appends its
    /// transition to the element's queue (in rule order), and children that
    /// report themselves expired afterwards are removed from their
    /// container (grids and duration boxes replace them with fresh empty
    /// cells).
    pub(crate) fn distribute_messages(
        &mut self,
        messages: &UiMessageSet<T>,
        Ghost(m): Ghost<nat>,
    )
        requires
            ewf(*old(self)),
            esize(*old(self)) <= m,
        ensures
            ewf(*final(self)),
            esize(*final(self)) <= esize(*old(self)),
            reflects_eq::<T>() ==> distributes_to(*old(self), *final(self), messages@),
        decreases m, 1int,
    {
        // Apply the handler rules to this element's own queue.
        let n = self.message_handler.len();
        let mut i: usize = 0;
        proof {
            assert(self.transitions@ =~= old(self).transitions@ + rules_transitions(
                old(self).message_handler@,
                messages@,
                0,
            ));
        }
        while i < n
            invariant
                0 <= i <= n,
                n == self.message_handler@.len(),
                *self == (UiElement { transitions: self.transitions, ..*old(self) }),
                qwf(self.transitions@),
                qsize(self.transitions@) == qsize(old(self).transitions@),
                ewf(*old(self)),
                reflects_eq::<T>() ==> self.transitions@ == old(self).transitions@
                    + rules_transitions(old(self).message_handler@, messages@, i as int),
            decreases n - i,
        {
            let rule = self.message_handler[i];
            if messages.contains(&rule.on) {
                let t = Transition {
                    new_layout: rule.new_layout,
                    new_visuals: rule.new_visuals,
                    new_hover_visuals: rule.new_hover_visuals,
                    new_content: None,
                    new_tooltip: None,
                    total_duration: rule.duration,
                    progressed_duration: 0,
                };
                proof {
                    lemma_qsize_push(self.transitions@, t);
                    assert((old(self).message_handler@[i as int]).wf());
                }
                self.transitions.push(t);
                proof {
                    if reflects_eq::<T>() {
                        assert(self.transitions@ =~= old(self).transitions@
                            + rules_transitions(old(self).message_handler@, messages@, i + 1));
                    }
                }
            } else {
                proof {
                    if reflects_eq::<T>() {
                        assert(self.transitions@ =~= old(self).transitions@
                            + rules_transitions(old(self).message_handler@, messages@, i + 1));
                    }
                }
            }
            i = i + 1;
        }
        // Distribute to the children and drop what has expired.
        proof {
            assert(esize(*old(self)) == 1 + csize(old(self).content) + osize(old(self).tooltip)
                + qsize(old(self).transitions@));
            assert(esize(*self) == 1 + csize(self.content) + osize(self.tooltip) + qsize(
                self.transitions@,
            ));
            assert(cwf(self.content));
        }
        match &mut self.content {
            UiContent::Vertical(b) => {
                distribute_and_prune(&mut b.children, messages, Ghost(m));
            },
            UiContent::Horizontal(b) => {
                distribute_and_prune(&mut b.children, messages, Ghost(m));
            },
            UiContent::Stack(b) => {
                distribute_and_prune(&mut b.children, messages, Ghost(m));
            },
            UiContent::Grid(b) => {
                distribute_cells(&mut b.children, messages, Ghost(m));
            },
            UiContent::Duration(b) => {
                let ghost mc = esize(*b.child);
                b.child.distribute_messages(messages, Ghost(mc));
                if b.child.expired() {
                    let ghost before = *b.child;
                    let fresh = UiElement::new(0, UiContent::Empty);
                    *b.child = fresh;
                    proof {
                        assert((*b.child).layout.wf());
                        assert((*b.child).visuals.wf());
                        assert(cwf((*b.child).content));
                        assert(qwf((*b.child).transitions@));
                        assert(forall|j: int|
                            0 <= j < (*b.child).message_handler@.len() ==> (
                            #[trigger] (*b.child).message_handler@[j]).wf());
                        assert((*b.child).draw_cache.wf());
                        assert(ewf(*b.child));
                        assert(esize(*b.child) == 1 + csize(UiContent::<T>::Empty) + osize(
                            Option::<Box<UiElement<T>>>::None,
                        ) + qsize(Seq::<Transition<T>>::empty()));
                        assert(esize(before) >= 1);
                        if reflects_eq::<T>() {
                            lemma_distribute_keeps_expired(
                                *old(self).content->Duration_0.child,
                                before,
                                messages@,
                            );
                        }
                    }
                } else {
                    proof {
                        if reflects_eq::<T>() {
                            lemma_distribute_keeps_expired(
                                *old(self).content->Duration_0.child,
                                *b.child,
                                messages@,
                            );
                        }
                    }
                }
            },
            _ => {},
        }
        proof {
            assert(esize(*self) == 1 + csize(self.content) + osize(self.tooltip) + qsize(
                self.transitions@,
            ));
            assert(csize(self.content) <= csize(old(self).content));
            assert(self.layout.wf());
            assert(self.visuals.wf());
            assert(match self.hover_visuals {
                Some(v) => v.wf(),
                None => true,
            });
            assert(self.draw_cache.wf());
            assert(cwf(self.content));
            assert(match self.tooltip {
                Some(b) => ewf(*b),
                None => true,
            });
            assert(qwf(self.transitions@));
            assert(forall|j: int|
                0 <= j < self.message_handler@.len() ==> (
                #[trigger] self.message_handler@[j]).wf());
            assert(ewf(*self));
        }
    }

    /// Receives the messages triggered by the host application this frame
    /// (or `None`), collects the messages and trigger sounds this tree
    /// generated, and distributes the union of both message sets to every
    /// element's handler rules, removing expired children along the way.
    /// Returns the internally generated messages and the trigger sounds.
    pub fn update(&mut self, input: &FrameInput, extern_messages: Option<UiMessageSet<T>>) -> (r:
        (UiMessageSet<T>, Vec<u64>))
        requires
            ewf(*old(self)),
            input.wf(),
        ensures
            ewf(*final(self)),
            reflects_eq::<T>() ==> r.0@ == spec_collect(*old(self), *input),
            r.1@ == spec_collect_sounds(*old(self), *input),
            reflects_eq::<T>() ==> distributes_to(
                *old(self),
                *final(self),
                spec_collect(*old(self), *input).union(
                    match extern_messages {
                        Some(ext) => ext@,
                        None => Set::empty(),
                    },
                ),
            ),
    {
        let (intern, sounds) = self.collect_messages(input);
        let mut all: UiMessageSet<T> = UiMessageSet::new();
        all.union_with(&intern);
        match &extern_messages {
            Some(ext) => {
                all.union_with(ext);
            },
            None => {
                proof {
                    if reflects_eq::<T>() {
                        assert(all@ =~= intern@.union(Set::empty()));
                    }
                }
            },
        }
        proof {
            if reflects_eq::<T>() {
                assert(all@ =~= spec_collect(*old(self), *input).union(
                    match extern_messages {
                        Some(ext) => ext@,
                        None => Set::empty(),
                    },
                ));
            }
        }
        let ghost m = esize(*self);
        self.distribute_messages(&all, Ghost(m));
        (intern, sounds)
    }

    /// An alias of [`UiElement::update`], kept for callers of the older
    /// name; it returns the same sets and applies the same effects.
    pub fn manage_messages(
        &mut self,
        input: &FrameInput,
        extern_messages: Option<UiMessageSet<T>>,
    ) -> (r: (UiMessageSet<T>, Vec<u64>))
        requires
            ewf(*old(self)),
            input.wf(),
        ensures
            ewf(*final(self)),
            reflects_eq::<T>() ==> r.0@ == spec_collect(*old(self), *input),
            r.1@ == spec_collect_sounds(*old(self), *input),
            reflects_eq::<T>() ==> distributes_to(
                *old(self),
                *final(self),
                spec_collect(*old(self), *input).union(
                    match extern_messages {
                        Some(ext) => ext@,
                        None => Set::empty(),
                    },
                ),
            ),
    {
        self.update(input, extern_messages)
    }


    /// Adds `element` to the first node (in depth-first order) whose id
    /// matches and whose content is a container, and returns `None`; when
    /// no such node exists the element is handed back. A grid never takes
    /// id-addressed insertions, so the tree must hold no grid under the
    /// given id.
    pub fn add_element(&mut self, id: u32, element: UiElement<T>) -> (r: Option<UiElement<T>>)
        requires
            ewf(*old(self)),
            ewf(element),
            no_grid_with_id(*old(self), id),
        ensures
            ewf(*final(self)),
            r is None <==> spec_accepts(*old(self), id),
            r is None ==> adds_to(*old(self), *final(self), id, element),
            r is Some ==> r->0 == element && same_tree(*old(self), *final(self)) && esize(
                *final(self),
            ) == esize(*old(self)),
            esize(*final(self)) <= esize(*old(self)) + esize(element),
    {
        let ghost m = esize(*self);
        self.add_element_inner(id, element, Ghost(m))
    }

    /// The recursive worker of [`UiElement::add_element`].
    fn add_element_inner(
        &mut self,
        id: u32,
        element: UiElement<T>,
        Ghost(m): Ghost<nat>,
    ) -> (r: Option<UiElement<T>>)
        requires
            ewf(*old(self)),
            ewf(element),
            no_grid_with_id(*old(self), id),
            esize(*old(self)) <= m,
        ensures
            ewf(*final(self)),
            r is None <==> spec_accepts(*old(self), id),
            r is None ==> adds_to(*old(self), *final(self), id, element),
            r is Some ==> r->0 == element && same_tree(*old(self), *final(self)) && esize(
                *final(self),
            ) == esize(*old(self)),
            esize(*final(self)) <= esize(*old(self)) + esize(element),
        decreases m, 1int,
    {
        proof {
            assert(esize(*self) == 1 + csize(self.content) + osize(self.tooltip) + qsize(
                self.transitions@,
            ));
            assert(cwf(self.content));
        }
        let my_id = self.id;
        let r = match &mut self.content {
            UiContent::Empty => Some(element),
            UiContent::Leaf(_) => Some(element),
            UiContent::Grid(b) => {
                // A grid only accepts indexed insertion; search its cells.
                add_to_children(&mut b.children, id, element, Ghost(m))
            },
            UiContent::Vertical(b) => {
                if my_id == id {
                    proof {
                        lemma_elems_push(b.children@, element);
                    }
                    b.children.push(element);
                    proof {
                        assert(b.children@.drop_last() =~= old(self).content->Vertical_0
                            .children@);
                    }
                    None
                } else {
                    add_to_children(&mut b.children, id, element, Ghost(m))
                }
            },
            UiContent::Horizontal(b) => {
                if my_id == id {
                    proof {
                        lemma_elems_push(b.children@, element);
                    }
                    b.children.push(element);
                    proof {
                        assert(b.children@.drop_last() =~= old(self).content->Horizontal_0
                            .children@);
                    }
                    None
                } else {
                    add_to_children(&mut b.children, id, element, Ghost(m))
                }
            },
            UiContent::Stack(b) => {
                if my_id == id {
                    proof {
                        lemma_elems_push(b.children@, element);
                    }
                    b.children.push(element);
                    proof {
                        assert(b.children@.drop_last() =~= old(self).content->Stack_0.children@);
                    }
                    None
                } else {
                    add_to_children(&mut b.children, id, element, Ghost(m))
                }
            },
            UiContent::Duration(b) => {
                if my_id == id {
                    *b.child = element;
                    None
                } else {
                    let ghost mc = esize(*b.child);
                    b.child.add_element_inner(id, element, Ghost(mc))
                }
            },
        };
        proof {
            assert(esize(*self) == 1 + csize(self.content) + osize(self.tooltip) + qsize(
                self.transitions@,
            ));
            assert(cwf(self.content));
            assert(ewf(*self));
            if r is Some {
                assert(csize(self.content) == csize(old(self).content));
                assert(same_tree(*old(self), *self));
            } else {
                assert(adds_to(*old(self), *self, id, element));
            }
        }
        r
    }

    /// Removes every element with the given id from this element and,
    /// recursively, from all its children. Grid cells and the child of a
    /// duration box are replaced by fresh empty cells instead of removed.
    pub fn remove_elements(&mut self, id: u32)
        requires
            ewf(*old(self)),
        ensures
            ewf(*final(self)),
            esize(*final(self)) <= esize(*old(self)),
            final(self).id == old(self).id,
            id != 0 ==> desc_id_absent(*final(self), id),
            removes_to(*old(self), *final(self), id),
    {
        let ghost m = esize(*self);
        self.remove_elements_inner(id, Ghost(m))
    }

    /// The recursive worker of [`UiElement::remove_elements`].
    fn remove_elements_inner(&mut self, id: u32, Ghost(m): Ghost<nat>)
        requires
            ewf(*old(self)),
            esize(*old(self)) <= m,
        ensures
            ewf(*final(self)),
            esize(*final(self)) <= esize(*old(self)),
            final(self).id == old(self).id,
            id != 0 ==> desc_id_absent(*final(self), id),
            removes_to(*old(self), *final(self), id),
        decreases m, 1int,
    {
        proof {
            assert(esize(*self) == 1 + csize(self.content) + osize(self.tooltip) + qsize(
                self.transitions@,
            ));
            assert(cwf(self.content));
        }
        match &mut self.content {
            UiContent::Vertical(b) => {
                remove_id_from_children(&mut b.children, id, Ghost(m));
            },
            UiContent::Horizontal(b) => {
                remove_id_from_children(&mut b.children, id, Ghost(m));
            },
            UiContent::Stack(b) => {
                remove_id_from_children(&mut b.children, id, Ghost(m));
            },
            UiContent::Grid(b) => {
                remove_id_from_cells(&mut b.children, id, Ghost(m));
            },
            UiContent::Duration(b) => {
                if b.child.get_id() == id {
                    let ghost prev = *b.child;
                    *b.child = UiElement::new(0, UiContent::Empty);
                    proof {
                        lemma_fresh_wf(*b.child);
                        assert(crate::containers::is_empty_cell(*b.child));
                        assert(esize(prev) == 1 + csize(prev.content) + osize(prev.tooltip)
                            + qsize(prev.transitions@));
                    }
                }
                let ghost before = *b.child;
                let ghost mc = esize(*b.child);
                b.child.remove_elements_inner(id, Ghost(mc));
                proof {
                    if before.id != id && old(self).content->Duration_0.child.id == id {
                        assert(crate::containers::is_empty_cell(before));
                        assert(crate::containers::is_empty_cell(*b.child));
                    }
                }
            },
            _ => {},
        }
        proof {
            assert(esize(*self) == 1 + csize(self.content) + osize(self.tooltip) + qsize(
                self.transitions@,
            ));
            assert(cwf(self.content));
            assert(qwf(self.transitions@));
            assert(ewf(*self));
            assert(contents_removed(old(self).content, self.content, id));
            assert(removes_to(*old(self), *self, id));
        }
    }

    /// Appends a transition to the end of the queue. It runs once all
    /// transitions queued before it have completed.
    pub fn add_transition(&mut self, transition: Transition<T>)
        ensures
            *final(self) == (UiElement {
                transitions: final(self).transitions,
                ..*old(self)
            }),
            final(self).transitions@ == old(self).transitions@.push(transition),
    {
        self.transitions.push(transition);
    }
}

} // verus!
