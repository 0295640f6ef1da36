//! The container contents: boxes that own an ordered list of child
//! elements and split their space among them.

use vstd::prelude::*;
use vstd::std_specs::cmp::PartialEqSpec;

use core::hash::Hash;

use crate::distribution::{distribute_to_fitting, seq_sum};
use crate::layout::{Rect, Size};
use crate::tiny::{lens_view, LenList};
use crate::ui_element::{
    children_drawn, children_drawn_desc, cwf, draws_to, elems_size, elems_wf, esize, ewf,
    lemma_children_drawn_congruence, lemma_children_drawn_desc_congruence,
    lemma_children_drawn_desc_snoc, lemma_children_drawn_snoc, lemma_elems_size_le,
    lemma_elems_size_update, lemma_prefix_trans, pre_of, spec_range, DrawCommand, FrameInput,
    UiDrawParam, fold_max_min, fold_min_max, line_max_min, line_min_max, spacing_total,
    spec_content_range, spec_spacing_total, sum_line_max, sum_line_min, sum_range_max,
    sum_range_min, UiContent, UiElement, UiError,
};
use crate::units::{cadd, cap_len, ladd, len_ok, lmax, lmin, lsub, LEN_MAX};

verus! {

/// A box that stacks its children vertically, in vector order from top to
/// bottom. Children keep their own alignment within the strip each is
/// offered.
pub struct VerticalBox<T: Copy + Eq + Hash + PartialEqSpec> {
    /// The children, in top-to-bottom order.
    pub children: Vec<UiElement<T>>,
    /// Vertical space between two neighboring children.
    pub spacing: u64,
}

impl<T: Copy + Eq + Hash + PartialEqSpec> VerticalBox<T> {
    /// Returns an empty vertical box with the default spacing of five units.
    pub fn new() -> (r: Self)
        ensures
            r.children@ == Seq::<UiElement<T>>::empty(),
            r.spacing == 5,
    {
        VerticalBox { children: Vec::new(), spacing: 5 }
    }

    /// Returns an empty vertical box with the given spacing.
    pub fn new_spaced(spacing: u64) -> (r: Self)
        requires
            len_ok(spacing),
        ensures
            r.children@ == Seq::<UiElement<T>>::empty(),
            r.spacing == spacing,
    {
        VerticalBox { children: Vec::new(), spacing }
    }

    /// Appends a child at the bottom.
    pub fn add(&mut self, element: UiElement<T>)
        ensures
            final(self).children@ == old(self).children@.push(element),
            final(self).spacing == old(self).spacing,
    {
        self.children.push(element);
    }
}

impl<T: Copy + Eq + Hash + PartialEqSpec> Default for VerticalBox<T> {
    /// The default vertical box equals [`VerticalBox::new`].
    fn default() -> (r: Self)
        ensures
            r.children@ == Seq::<UiElement<T>>::empty(),
            r.spacing == 5,
    {
        VerticalBox::new()
    }
}

/// A box that lays its children out horizontally, in vector order from left
/// to right. Children keep their own alignment within the strip each is
/// offered.
pub struct HorizontalBox<T: Copy + Eq + Hash + PartialEqSpec> {
    /// The children, in left-to-right order.
    pub children: Vec<UiElement<T>>,
    /// Horizontal space between two neighboring children.
    pub spacing: u64,
}

impl<T: Copy + Eq + Hash + PartialEqSpec> HorizontalBox<T> {
    /// Returns an empty horizontal box with the default spacing of five
    /// units.
    pub fn new() -> (r: Self)
        ensures
            r.children@ == Seq::<UiElement<T>>::empty(),
            r.spacing == 5,
    {
        HorizontalBox { children: Vec::new(), spacing: 5 }
    }

    /// Returns an empty horizontal box with the given spacing.
    pub fn new_spaced(spacing: u64) -> (r: Self)
        requires
            len_ok(spacing),
        ensures
            r.children@ == Seq::<UiElement<T>>::empty(),
            r.spacing == spacing,
    {
        HorizontalBox { children: Vec::new(), spacing }
    }

    /// Appends a child at the right end.
    pub fn add(&mut self, element: UiElement<T>)
        ensures
            final(self).children@ == old(self).children@.push(element),
            final(self).spacing == old(self).spacing,
    {
        self.children.push(element);
    }
}

impl<T: Copy + Eq + Hash + PartialEqSpec> Default for HorizontalBox<T> {
    /// The default horizontal box equals [`HorizontalBox::new`].
    fn default() -> (r: Self)
        ensures
            r.children@ == Seq::<UiElement<T>>::empty(),
            r.spacing == 5,
    {
        HorizontalBox::new()
    }
}

/// A box that draws its children on top of one another; every child
/// receives the full rectangle of the box. The child at position zero is
/// painted last, on top.
pub struct StackBox<T: Copy + Eq + Hash + PartialEqSpec> {
    /// The children, in front-to-back order.
    pub children: Vec<UiElement<T>>,
}

impl<T: Copy + Eq + Hash + PartialEqSpec> StackBox<T> {
    /// Returns an empty stack box.
    pub fn new() -> (r: Self)
        ensures
            r.children@ == Seq::<UiElement<T>>::empty(),
    {
        StackBox { children: Vec::new() }
    }

    /// Adds a child to the top of the stack (the ordinary `add` appends at
    /// the bottom).
    pub fn add_top(&mut self, element: UiElement<T>)
        ensures
            final(self).children@ == old(self).children@.insert(0, element),
    {
        self.children.insert(0, element);
    }

    /// Appends a child at the bottom of the stack.
    pub fn add(&mut self, element: UiElement<T>)
        ensures
            final(self).children@ == old(self).children@.push(element),
    {
        self.children.push(element);
    }
}

impl<T: Copy + Eq + Hash + PartialEqSpec> Default for StackBox<T> {
    /// The default stack box equals [`StackBox::new`].
    fn default() -> (r: Self)
        ensures
            r.children@ == Seq::<UiElement<T>>::empty(),
    {
        StackBox::new()
    }
}

/// A box wrapping a single child together with a lifetime. Each drawn frame
/// shortens the lifetime by the frame's delta; once it reaches zero the box
/// reports itself expired and is removed by its parent container.
pub struct DurationBox<T: Copy + Eq + Hash + PartialEqSpec> {
    /// The wrapped child.
    pub child: Box<UiElement<T>>,
    /// Remaining lifetime in milliseconds.
    pub duration: u64,
}

impl<T: Copy + Eq + Hash + PartialEqSpec> DurationBox<T> {
    /// Wraps the given element with the given lifetime in milliseconds.
    pub fn new(duration: u64, element: UiElement<T>) -> (r: Self)
        ensures
            *r.child == element,
            r.duration == duration,
    {
        DurationBox { child: Box::new(element), duration }
    }
}

/// A grid with a fixed number of columns and rows; every cell holds one
/// element (an id-0 empty element when nothing was placed there). Children
/// are stored row by row.
pub struct GridBox<T: Copy + Eq + Hash + PartialEqSpec> {
    /// The cells, row by row; always exactly `rows * cols` entries.
    pub children: Vec<UiElement<T>>,
    /// Vertical space between two rows.
    pub vertical_spacing: u64,
    /// Horizontal space between two columns.
    pub horizontal_spacing: u64,
    /// The number of rows.
    pub rows: usize,
    /// The number of columns.
    pub cols: usize,
}

impl<T: Copy + Eq + Hash + PartialEqSpec> GridBox<T> {
    /// Returns a grid of the given dimensions with the default spacing of
    /// five units, every cell filled with an empty element. Both dimensions
    /// must be positive: the grid addresses its cells by dividing indices
    /// through the column count, so a zero-dimension grid has no cells to
    /// address.
    pub fn new(columns: usize, rows: usize) -> (r: Self)
        requires
            columns >= 1,
            rows >= 1,
            columns * rows <= usize::MAX,
        ensures
            r.cols == columns,
            r.rows == rows,
            r.vertical_spacing == 5,
            r.horizontal_spacing == 5,
            r.children@.len() == columns * rows,
            forall|i: int|
                0 <= i < r.children@.len() ==> is_empty_cell(#[trigger] r.children@[i]),
    {
        GridBox {
            children: empty_cells(columns, rows),
            vertical_spacing: 5,
            horizontal_spacing: 5,
            cols: columns,
            rows,
        }
    }

    /// Returns a grid of the given dimensions and spacings, every cell
    /// filled with an empty element.
    pub fn new_spaced(columns: usize, rows: usize, horizontal_spacing: u64, vertical_spacing: u64)
        -> (r: Self)
        requires
            columns >= 1,
            rows >= 1,
            columns * rows <= usize::MAX,
            len_ok(horizontal_spacing),
            len_ok(vertical_spacing),
        ensures
            r.cols == columns,
            r.rows == rows,
            r.vertical_spacing == vertical_spacing,
            r.horizontal_spacing == horizontal_spacing,
            r.children@.len() == columns * rows,
            forall|i: int|
                0 <= i < r.children@.len() ==> is_empty_cell(#[trigger] r.children@[i]),
    {
        GridBox {
            children: empty_cells(columns, rows),
            vertical_spacing,
            horizontal_spacing,
            cols: columns,
            rows,
        }
    }

    /// Places an element in the cell at column `x` and row `y`, replacing
    /// whatever the cell held. Returns an error, leaving the grid
    /// unchanged, exactly when the cell lies outside the grid.
    pub fn add(&mut self, element: UiElement<T>, x: usize, y: usize) -> (r: Result<(), UiError>)
        requires
            old(self).children@.len() == old(self).rows * old(self).cols,
        ensures
            final(self).cols == old(self).cols,
            final(self).rows == old(self).rows,
            final(self).vertical_spacing == old(self).vertical_spacing,
            final(self).horizontal_spacing == old(self).horizontal_spacing,
            x < old(self).cols && y < old(self).rows ==> r == Result::<(), UiError>::Ok(())
                && final(self).children@ == old(self).children@.update(
                x + old(self).cols * y,
                element,
            ),
            !(x < old(self).cols && y < old(self).rows) ==> r == Result::<(), UiError>::Err(
                UiError::IndexOutOfBounds,
            ) && final(self).children@ == old(self).children@,
    {
        if x >= self.cols || y >= self.rows {
            Err(UiError::IndexOutOfBounds)
        } else {
            let c = self.cols;
            let rows_n = self.rows;
            let n = self.children.len();
            assert(c * y + x < rows_n * c) by (nonlinear_arith)
                requires
                    x < c,
                    y < rows_n,
            ;
            let idx = x + c * y;
            self.children[idx] = element;
            Ok(())
        }
    }
}

/// Whether an element is the kind placed in every untouched grid cell: an
/// empty element with id 0, default layout and visuals, and nothing else.
pub open spec fn is_empty_cell<T: Copy + Eq + Hash + PartialEqSpec>(e: UiElement<T>) -> bool {
    &&& e.id == 0
    &&& e.content is Empty
    &&& e.layout == crate::layout::Layout::spec_default()
    &&& e.visuals == crate::visuals::Visuals::spec_default()
    &&& e.hover_visuals is None
    &&& e.trigger_sound is None
    &&& e.draw_cache == crate::draw_cache::DrawCache::Invalid
    &&& e.tooltip is None
    &&& e.transitions@.len() == 0
    &&& crate::tiny::keys_view(e.keys).len() == 0
    &&& e.message_handler@.len() == 0
}

/// Builds the initial cell vector of a grid: `columns * rows` empty
/// elements.
fn empty_cells<T: Copy + Eq + Hash + PartialEqSpec>(columns: usize, rows: usize) -> (r: Vec<
    UiElement<T>>)
    requires
        columns * rows <= usize::MAX,
    ensures
        r@.len() == columns * rows,
        forall|i: int| 0 <= i < r@.len() ==> is_empty_cell(#[trigger] r@[i]),
{
    let count = columns * rows;
    let mut v: Vec<UiElement<T>> = Vec::new();
    let mut i: usize = 0;
    while i < count
        invariant
            0 <= i <= count,
            v@.len() == i,
            forall|j: int| 0 <= j < i ==> is_empty_cell(#[trigger] v@[j]),
        decreases count - i,
    {
        v.push(UiElement::new(0, UiContent::Empty));
        i = i + 1;
    }
    v
}


// ---------------------------------------------------------------------------
// Content size ranges of the containers.
// ---------------------------------------------------------------------------

/// Folds the cross-axis range of a child list: the largest child minimum
/// (seeded at one) and the smallest child maximum (seeded unbounded).
fn cross_range<T: Copy + Eq + Hash + PartialEqSpec>(
    children: &Vec<UiElement<T>>,
    horiz: bool,
) -> (r: (u64, u64))
    requires
        elems_wf(children@),
    ensures
        r.0 == fold_max_min(children@, children@.len() as int, horiz),
        r.1 == fold_min_max(children@, children@.len() as int, horiz),
        len_ok(r.0),
        len_ok(r.1),
    decreases *children, 1int, 0int,
{
    let n = children.len();
    let mut lo: u64 = 1;
    let mut hi: u64 = LEN_MAX;
    let mut i: usize = 0;
    while i < n
        invariant
            0 <= i <= n,
            n == children.len(),
            elems_wf(children@),
            lo == fold_max_min(children@, i as int, horiz),
            hi == fold_min_max(children@, i as int, horiz),
            len_ok(lo),
            len_ok(hi),
        decreases n - i,
    {
        assert(ewf(children@[i as int]));
        let cr = if horiz {
            children[i].width_range()
        } else {
            children[i].height_range()
        };
        lo = lmax(lo, cr.0);
        hi = lmin(hi, cr.1);
        i = i + 1;
    }
    (lo, hi)
}

/// Folds the main-axis range of a child list: the capped sums of the child
/// minima and maxima, plus the spacing between neighbors.
fn main_range<T: Copy + Eq + Hash + PartialEqSpec>(
    children: &Vec<UiElement<T>>,
    spacing: u64,
    horiz: bool,
) -> (r: (u64, u64))
    requires
        elems_wf(children@),
        len_ok(spacing),
    ensures
        r.0 == cap_len(
            sum_range_min(children@, children@.len() as int, horiz) + spec_spacing_total(
                spacing as int,
                children@.len() as int,
            ),
        ),
        r.1 == cap_len(
            sum_range_max(children@, children@.len() as int, horiz) + spec_spacing_total(
                spacing as int,
                children@.len() as int,
            ),
        ),
        len_ok(r.0),
        len_ok(r.1),
    decreases *children, 1int, 0int,
{
    let n = children.len();
    let mut lo: u64 = 0;
    let mut hi: u64 = 0;
    let mut i: usize = 0;
    while i < n
        invariant
            0 <= i <= n,
            n == children.len(),
            elems_wf(children@),
            lo == sum_range_min(children@, i as int, horiz),
            hi == sum_range_max(children@, i as int, horiz),
            len_ok(lo),
            len_ok(hi),
        decreases n - i,
    {
        assert(ewf(children@[i as int]));
        let cr = if horiz {
            children[i].width_range()
        } else {
            children[i].height_range()
        };
        lo = ladd(lo, cr.0);
        hi = ladd(hi, cr.1);
        i = i + 1;
    }
    let sp = spacing_total(spacing, n);
    (ladd(lo, sp), ladd(hi, sp))
}

/// Folds the range of one grid line: the largest minimum and smallest
/// maximum among the children whose index falls on the line.
fn line_range<T: Copy + Eq + Hash + PartialEqSpec>(
    children: &Vec<UiElement<T>>,
    stride: usize,
    line: usize,
    by_rem: bool,
    horiz: bool,
) -> (r: (u64, u64))
    requires
        elems_wf(children@),
        stride >= 1,
    ensures
        r.0 == line_max_min(children@, children@.len() as int, stride as int, line as int, by_rem,
            horiz),
        r.1 == line_min_max(children@, children@.len() as int, stride as int, line as int, by_rem,
            horiz),
        len_ok(r.0),
        len_ok(r.1),
    decreases *children, 1int, 0int,
{
    let n = children.len();
    let mut lo: u64 = 1;
    let mut hi: u64 = LEN_MAX;
    let mut i: usize = 0;
    while i < n
        invariant
            0 <= i <= n,
            n == children.len(),
            elems_wf(children@),
            stride >= 1,
            lo == line_max_min(children@, i as int, stride as int, line as int, by_rem, horiz),
            hi == line_min_max(children@, i as int, stride as int, line as int, by_rem, horiz),
            len_ok(lo),
            len_ok(hi),
        decreases n - i,
    {
        let sel = if by_rem {
            i % stride == line
        } else {
            i / stride == line
        };
        if sel {
            assert(ewf(children@[i as int]));
            let cr = if horiz {
                children[i].width_range()
            } else {
                children[i].height_range()
            };
            lo = lmax(lo, cr.0);
            hi = lmin(hi, cr.1);
        }
        i = i + 1;
    }
    (lo, hi)
}

impl<T: Copy + Eq + Hash + PartialEqSpec> VerticalBox<T> {
    /// The width range induced by the children: all children share the
    /// box's width, so their minima and maxima are intersected.
    pub fn content_width_range(&self) -> (r: (u64, u64))
        requires
            cwf(UiContent::Vertical(*self)),
        ensures
            r.0 == spec_content_range(UiContent::Vertical(*self), true).0,
            r.1 == spec_content_range(UiContent::Vertical(*self), true).1,
            len_ok(r.0),
            len_ok(r.1),
        decreases *self, 2int, 0int,
    {
        cross_range(&self.children, true)
    }

    /// The height range induced by the children: heights add up along the
    /// stacking axis, plus the spacing between neighbors.
    pub fn content_height_range(&self) -> (r: (u64, u64))
        requires
            cwf(UiContent::Vertical(*self)),
        ensures
            r.0 == spec_content_range(UiContent::Vertical(*self), false).0,
            r.1 == spec_content_range(UiContent::Vertical(*self), false).1,
            len_ok(r.0),
            len_ok(r.1),
        decreases *self, 2int, 0int,
    {
        main_range(&self.children, self.spacing, false)
    }
}

impl<T: Copy + Eq + Hash + PartialEqSpec> HorizontalBox<T> {
    /// The width range induced by the children: widths add up along the
    /// layout axis, plus the spacing between neighbors.
    pub fn content_width_range(&self) -> (r: (u64, u64))
        requires
            cwf(UiContent::Horizontal(*self)),
        ensures
            r.0 == spec_content_range(UiContent::Horizontal(*self), true).0,
            r.1 == spec_content_range(UiContent::Horizontal(*self), true).1,
            len_ok(r.0),
            len_ok(r.1),
        decreases *self, 2int, 0int,
    {
        main_range(&self.children, self.spacing, true)
    }

    /// The height range induced by the children: all children share the
    /// box's height, so their minima and maxima are intersected.
    pub fn content_height_range(&self) -> (r: (u64, u64))
        requires
            cwf(UiContent::Horizontal(*self)),
        ensures
            r.0 == spec_content_range(UiContent::Horizontal(*self), false).0,
            r.1 == spec_content_range(UiContent::Horizontal(*self), false).1,
            len_ok(r.0),
            len_ok(r.1),
        decreases *self, 2int, 0int,
    {
        cross_range(&self.children, false)
    }
}

impl<T: Copy + Eq + Hash + PartialEqSpec> StackBox<T> {
    /// The width range induced by the children: every child receives the
    /// full rectangle, so the minima and maxima are intersected.
    pub fn content_width_range(&self) -> (r: (u64, u64))
        requires
            cwf(UiContent::Stack(*self)),
        ensures
            r.0 == spec_content_range(UiContent::Stack(*self), true).0,
            r.1 == spec_content_range(UiContent::Stack(*self), true).1,
            len_ok(r.0),
            len_ok(r.1),
        decreases *self, 2int, 0int,
    {
        cross_range(&self.children, true)
    }

    /// The height range induced by the children, analogous to
    /// [`StackBox::content_width_range`].
    pub fn content_height_range(&self) -> (r: (u64, u64))
        requires
            cwf(UiContent::Stack(*self)),
        ensures
            r.0 == spec_content_range(UiContent::Stack(*self), false).0,
            r.1 == spec_content_range(UiContent::Stack(*self), false).1,
            len_ok(r.0),
            len_ok(r.1),
        decreases *self, 2int, 0int,
    {
        cross_range(&self.children, false)
    }
}

impl<T: Copy + Eq + Hash + PartialEqSpec> DurationBox<T> {
    /// The width range of the wrapped child.
    pub fn content_width_range(&self) -> (r: (u64, u64))
        requires
            cwf(UiContent::Duration(*self)),
        ensures
            r.0 == spec_content_range(UiContent::Duration(*self), true).0,
            r.1 == spec_content_range(UiContent::Duration(*self), true).1,
            len_ok(r.0),
            len_ok(r.1),
        decreases *self, 2int, 0int,
    {
        self.child.width_range()
    }

    /// The height range of the wrapped child.
    pub fn content_height_range(&self) -> (r: (u64, u64))
        requires
            cwf(UiContent::Duration(*self)),
        ensures
            r.0 == spec_content_range(UiContent::Duration(*self), false).0,
            r.1 == spec_content_range(UiContent::Duration(*self), false).1,
            len_ok(r.0),
            len_ok(r.1),
        decreases *self, 2int, 0int,
    {
        self.child.height_range()
    }
}

impl<T: Copy + Eq + Hash + PartialEqSpec> GridBox<T> {
    /// Returns the width range of every column: the largest minimum and
    /// smallest maximum over the cells of each column, as two parallel
    /// lists.
    pub fn get_column_ranges(&self) -> (r: (LenList, LenList))
        requires
            cwf(UiContent::Grid(*self)),
        ensures
            lens_view(r.0).len() == self.cols,
            lens_view(r.1).len() == self.cols,
            forall|c: int|
                0 <= c < self.cols ==> #[trigger] lens_view(r.0)[c] == line_max_min(
                    self.children@,
                    self.children@.len() as int,
                    self.cols as int,
                    c,
                    true,
                    true,
                ),
            forall|c: int|
                0 <= c < self.cols ==> #[trigger] lens_view(r.1)[c] == line_min_max(
                    self.children@,
                    self.children@.len() as int,
                    self.cols as int,
                    c,
                    true,
                    true,
                ),
            forall|c: int| 0 <= c < self.cols ==> len_ok(#[trigger] lens_view(r.0)[c]),
            forall|c: int| 0 <= c < self.cols ==> len_ok(#[trigger] lens_view(r.1)[c]),
        decreases *self, 2int, 0int,
    {
        let mut mins = LenList::new();
        let mut maxs = LenList::new();
        let mut col: usize = 0;
        while col < self.cols
            invariant
                0 <= col <= self.cols,
                cwf(UiContent::Grid(*self)),
                lens_view(mins).len() == col,
                lens_view(maxs).len() == col,
                forall|c: int|
                    0 <= c < col ==> #[trigger] lens_view(mins)[c] == line_max_min(
                        self.children@,
                        self.children@.len() as int,
                        self.cols as int,
                        c,
                        true,
                        true,
                    ),
                forall|c: int|
                    0 <= c < col ==> #[trigger] lens_view(maxs)[c] == line_min_max(
                        self.children@,
                        self.children@.len() as int,
                        self.cols as int,
                        c,
                        true,
                        true,
                    ),
                forall|c: int| 0 <= c < col ==> len_ok(#[trigger] lens_view(mins)[c]),
                forall|c: int| 0 <= c < col ==> len_ok(#[trigger] lens_view(maxs)[c]),
            decreases self.cols - col,
        {
            let lr = line_range(&self.children, self.cols, col, true, true);
            mins.push(lr.0);
            maxs.push(lr.1);
            col = col + 1;
        }
        (mins, maxs)
    }

    /// Returns the height range of every row: the largest minimum and
    /// smallest maximum over the cells of each row, as two parallel lists.
    pub fn get_row_ranges(&self) -> (r: (LenList, LenList))
        requires
            cwf(UiContent::Grid(*self)),
        ensures
            lens_view(r.0).len() == self.rows,
            lens_view(r.1).len() == self.rows,
            forall|c: int|
                0 <= c < self.rows ==> #[trigger] lens_view(r.0)[c] == line_max_min(
                    self.children@,
                    self.children@.len() as int,
                    self.cols as int,
                    c,
                    false,
                    false,
                ),
            forall|c: int|
                0 <= c < self.rows ==> #[trigger] lens_view(r.1)[c] == line_min_max(
                    self.children@,
                    self.children@.len() as int,
                    self.cols as int,
                    c,
                    false,
                    false,
                ),
            forall|c: int| 0 <= c < self.rows ==> len_ok(#[trigger] lens_view(r.0)[c]),
            forall|c: int| 0 <= c < self.rows ==> len_ok(#[trigger] lens_view(r.1)[c]),
        decreases *self, 2int, 0int,
    {
        let mut mins = LenList::new();
        let mut maxs = LenList::new();
        let mut row: usize = 0;
        while row < self.rows
            invariant
                0 <= row <= self.rows,
                cwf(UiContent::Grid(*self)),
                lens_view(mins).len() == row,
                lens_view(maxs).len() == row,
                forall|c: int|
                    0 <= c < row ==> #[trigger] lens_view(mins)[c] == line_max_min(
                        self.children@,
                        self.children@.len() as int,
                        self.cols as int,
                        c,
                        false,
                        false,
                    ),
                forall|c: int|
                    0 <= c < row ==> #[trigger] lens_view(maxs)[c] == line_min_max(
                        self.children@,
                        self.children@.len() as int,
                        self.cols as int,
                        c,
                        false,
                        false,
                    ),
                forall|c: int| 0 <= c < row ==> len_ok(#[trigger] lens_view(mins)[c]),
                forall|c: int| 0 <= c < row ==> len_ok(#[trigger] lens_view(maxs)[c]),
            decreases self.rows - row,
        {
            let lr = line_range(&self.children, self.cols, row, false, false);
            mins.push(lr.0);
            maxs.push(lr.1);
            row = row + 1;
        }
        (mins, maxs)
    }

    /// The width range induced by the cells: the capped sum of the column
    /// ranges plus the spacing between columns.
    pub fn content_width_range(&self) -> (r: (u64, u64))
        requires
            cwf(UiContent::Grid(*self)),
        ensures
            r.0 == spec_content_range(UiContent::Grid(*self), true).0,
            r.1 == spec_content_range(UiContent::Grid(*self), true).1,
            len_ok(r.0),
            len_ok(r.1),
        decreases *self, 3int, 0int,
    {
        let (mins, maxs) = self.get_column_ranges();
        let mut lo: u64 = 0;
        let mut hi: u64 = 0;
        let mut c: usize = 0;
        while c < self.cols
            invariant
                0 <= c <= self.cols,
                cwf(UiContent::Grid(*self)),
                lens_view(mins).len() == self.cols,
                lens_view(maxs).len() == self.cols,
                forall|k: int|
                    0 <= k < self.cols ==> #[trigger] lens_view(mins)[k] == line_max_min(
                        self.children@,
                        self.children@.len() as int,
                        self.cols as int,
                        k,
                        true,
                        true,
                    ),
                forall|k: int|
                    0 <= k < self.cols ==> #[trigger] lens_view(maxs)[k] == line_min_max(
                        self.children@,
                        self.children@.len() as int,
                        self.cols as int,
                        k,
                        true,
                        true,
                    ),
                forall|k: int| 0 <= k < self.cols ==> len_ok(#[trigger] lens_view(mins)[k]),
                forall|k: int| 0 <= k < self.cols ==> len_ok(#[trigger] lens_view(maxs)[k]),
                lo == sum_line_min(self.children@, c as int, self.cols as int, true, true),
                hi == sum_line_max(self.children@, c as int, self.cols as int, true, true),
                len_ok(lo),
                len_ok(hi),
            decreases self.cols - c,
        {
            lo = ladd(lo, mins.get(c));
            hi = ladd(hi, maxs.get(c));
            c = c + 1;
        }
        let sp = spacing_total(self.horizontal_spacing, self.cols);
        (ladd(lo, sp), ladd(hi, sp))
    }

    /// The height range induced by the cells: the capped sum of the row
    /// ranges plus the spacing between rows.
    pub fn content_height_range(&self) -> (r: (u64, u64))
        requires
            cwf(UiContent::Grid(*self)),
        ensures
            r.0 == spec_content_range(UiContent::Grid(*self), false).0,
            r.1 == spec_content_range(UiContent::Grid(*self), false).1,
            len_ok(r.0),
            len_ok(r.1),
        decreases *self, 3int, 0int,
    {
        let (mins, maxs) = self.get_row_ranges();
        let mut lo: u64 = 0;
        let mut hi: u64 = 0;
        let mut c: usize = 0;
        while c < self.rows
            invariant
                0 <= c <= self.rows,
                cwf(UiContent::Grid(*self)),
                lens_view(mins).len() == self.rows,
                lens_view(maxs).len() == self.rows,
                forall|k: int|
                    0 <= k < self.rows ==> #[trigger] lens_view(mins)[k] == line_max_min(
                        self.children@,
                        self.children@.len() as int,
                        self.cols as int,
                        k,
                        false,
                        false,
                    ),
                forall|k: int|
                    0 <= k < self.rows ==> #[trigger] lens_view(maxs)[k] == line_min_max(
                        self.children@,
                        self.children@.len() as int,
                        self.cols as int,
                        k,
                        false,
                        false,
                    ),
                forall|k: int| 0 <= k < self.rows ==> len_ok(#[trigger] lens_view(mins)[k]),
                forall|k: int| 0 <= k < self.rows ==> len_ok(#[trigger] lens_view(maxs)[k]),
                lo == sum_line_min(self.children@, c as int, self.cols as int, false, false),
                hi == sum_line_max(self.children@, c as int, self.cols as int, false, false),
                len_ok(lo),
                len_ok(hi),
            decreases self.rows - c,
        {
            lo = ladd(lo, mins.get(c));
            hi = ladd(hi, maxs.get(c));
            c = c + 1;
        }
        let sp = spacing_total(self.vertical_spacing, self.rows);
        (ladd(lo, sp), ladd(hi, sp))
    }
}


/// The per-child minimum extents of a child list along an axis.
pub open spec fn mins_seq<T: Copy + Eq + Hash + PartialEqSpec>(
    s: Seq<UiElement<T>>,
    horiz: bool,
) -> Seq<u64> {
    Seq::new(s.len(), |i: int| spec_range(s[i], horiz).0 as u64)
}

/// The per-child maximum extents of a child list along an axis.
pub open spec fn maxs_seq<T: Copy + Eq + Hash + PartialEqSpec>(
    s: Seq<UiElement<T>>,
    horiz: bool,
) -> Seq<u64> {
    Seq::new(s.len(), |i: int| spec_range(s[i], horiz).1 as u64)
}

/// Whether a child's sizing policy along an axis is `Fill`.
pub open spec fn is_fill<T: Copy + Eq + Hash + PartialEqSpec>(e: UiElement<T>, horiz: bool)
    -> bool {
    crate::ui_element::axis_size(e.layout, horiz) is Fill
}

/// Whether a child's sizing policy along an axis is `Shrink`.
pub open spec fn is_shrink<T: Copy + Eq + Hash + PartialEqSpec>(e: UiElement<T>, horiz: bool)
    -> bool {
    crate::ui_element::axis_size(e.layout, horiz) is Shrink
}

/// What the extents handed to the children of a linear box must satisfy:
/// every child receives at least its minimum and at most its maximum;
/// children that neither fill nor shrink stay at their minimum; the total
/// handed out never exceeds the minima plus the distributable space; and
/// the distributable space is spent in full unless every fill and shrink
/// child stands at its maximum.
pub open spec fn distributed_ok<T: Copy + Eq + Hash + PartialEqSpec>(
    r: Seq<u64>,
    s: Seq<UiElement<T>>,
    horiz: bool,
    avail: int,
) -> bool {
    &&& r.len() == s.len()
    &&& forall|i: int|
        0 <= i < s.len() ==> mins_seq(s, horiz)[i] <= #[trigger] r[i] <= maxs_seq(s, horiz)[i]
    &&& forall|i: int|
        0 <= i < s.len() && !is_fill(#[trigger] s[i], horiz) && !is_shrink(s[i], horiz)
            ==> r[i] == mins_seq(s, horiz)[i]
    &&& seq_sum(r) <= seq_sum(mins_seq(s, horiz)) + avail
    &&& (seq_sum(r) == seq_sum(mins_seq(s, horiz)) + avail || (forall|i: int|
        0 <= i < s.len() && (is_fill(#[trigger] s[i], horiz) || is_shrink(s[i], horiz))
            ==> r[i] == maxs_seq(s, horiz)[i]))
    // Round priority: a shrink child grows beyond its minimum only when
    // every fill child has reached its maximum.
    &&& ((exists|i: int|
        0 <= i < s.len() && is_shrink(#[trigger] s[i], horiz) && r[i] > mins_seq(s, horiz)[i])
        ==> (forall|j: int|
        0 <= j < s.len() && is_fill(#[trigger] s[j], horiz) ==> r[j] == maxs_seq(s, horiz)[j]))
    // Even sharing: when the box has fill children and none of them ran
    // into its maximum, they absorbed the distributable space in equal
    // shares (up to one unit) and every other child stayed at its minimum.
    &&& (((exists|i: int| 0 <= i < s.len() && is_fill(#[trigger] s[i], horiz)) && (forall|i: int|
        0 <= i < s.len() && is_fill(#[trigger] s[i], horiz) ==> r[i] < maxs_seq(s, horiz)[i]))
        ==> ((forall|i: int, j: int|
        0 <= i < s.len() && 0 <= j < s.len() && is_fill(#[trigger] s[i], horiz) && is_fill(
            #[trigger] s[j],
            horiz,
        ) ==> r[i] - mins_seq(s, horiz)[i] <= r[j] - mins_seq(s, horiz)[j] + 1) && (forall|i: int|
        0 <= i < s.len() && !is_fill(#[trigger] s[i], horiz) ==> r[i] == mins_seq(s, horiz)[i])))
}

/// Gathers the per-child minima, maxima and policy flags of a child list
/// along one axis.
fn gather_ranges<T: Copy + Eq + Hash + PartialEqSpec>(
    children: &Vec<UiElement<T>>,
    horiz: bool,
) -> (r: (Vec<u64>, Vec<u64>, Vec<bool>, Vec<bool>))
    requires
        elems_wf(children@),
    ensures
        r.0@ == mins_seq(children@, horiz),
        r.1@ == maxs_seq(children@, horiz),
        r.2@.len() == children@.len(),
        r.3@.len() == children@.len(),
        forall|i: int|
            0 <= i < children@.len() ==> #[trigger] r.2@[i] == is_fill(children@[i], horiz),
        forall|i: int|
            0 <= i < children@.len() ==> #[trigger] r.3@[i] == is_shrink(children@[i], horiz),
    decreases *children, 1int, 1int,
{
    let n = children.len();
    let mut mins: Vec<u64> = Vec::new();
    let mut maxs: Vec<u64> = Vec::new();
    let mut fills: Vec<bool> = Vec::new();
    let mut shrinks: Vec<bool> = Vec::new();
    let mut i: usize = 0;
    while i < n
        invariant
            0 <= i <= n,
            n == children.len(),
            elems_wf(children@),
            mins@.len() == i,
            maxs@.len() == i,
            fills@.len() == i,
            shrinks@.len() == i,
            forall|j: int| 0 <= j < i ==> #[trigger] mins@[j] == mins_seq(children@, horiz)[j],
            forall|j: int| 0 <= j < i ==> #[trigger] maxs@[j] == maxs_seq(children@, horiz)[j],
            forall|j: int| 0 <= j < i ==> #[trigger] fills@[j] == is_fill(children@[j], horiz),
            forall|j: int|
                0 <= j < i ==> #[trigger] shrinks@[j] == is_shrink(children@[j], horiz),
        decreases n - i,
    {
        assert(ewf(children@[i as int]));
        let rg = if horiz {
            children[i].width_range()
        } else {
            children[i].height_range()
        };
        mins.push(rg.0);
        maxs.push(rg.1);
        let size = if horiz {
            children[i].get_layout().x_size
        } else {
            children[i].get_layout().y_size
        };
        fills.push(match size {
            Size::Fill(_, _) => true,
            _ => false,
        });
        shrinks.push(match size {
            Size::Shrink(_, _) => true,
            _ => false,
        });
        i = i + 1;
    }
    proof {
        assert(mins@ =~= mins_seq(children@, horiz));
        assert(maxs@ =~= maxs_seq(children@, horiz));
    }
    (mins, maxs, fills, shrinks)
}

/// Splits the given extent among the children of a linear box: every child
/// starts at its minimum, the remaining space is poured first over the
/// `Fill` children and then over the `Shrink` children.
#[verifier::rlimit(60)]
fn split_extent<T: Copy + Eq + Hash + PartialEqSpec>(
    children: &Vec<UiElement<T>>,
    available: u64,
    horiz: bool,
    content_min: u64,
) -> (r: Vec<u64>)
    requires
        elems_wf(children@),
        len_ok(available),
        len_ok(content_min),
    ensures
        distributed_ok(
            r@,
            children@,
            horiz,
            crate::units::sub0(available as int, content_min as int),
        ),
    decreases *children, 1int, 2int,
{
    let (mins, maxs, fills, shrinks) = gather_ranges(children, horiz);
    let mut alloc = mins;
    let mut leftover = lsub(available, content_min);
    proof {
        assert forall|i: int|
            0 <= i < children@.len() implies #[trigger] alloc@[i] <= maxs@[i] && len_ok(
            maxs@[i],
        ) by {
            assert(ewf(children@[i]));
        }
    }
    distribute_to_fitting(&mut leftover, &mut alloc, &maxs, &fills);
    let ghost mid = alloc@;
    let ghost l1 = leftover;
    distribute_to_fitting(&mut leftover, &mut alloc, &maxs, &shrinks);
    proof {
        let sq = children@;
        let n = sq.len() as int;
        // A size is never both fill and shrink, so the second round leaves
        // every fill child exactly where the first round put it.
        assert forall|i: int|
            0 <= i < n && is_fill(#[trigger] sq[i], horiz) implies alloc@[i] == mid[i] by {
            assert(!is_shrink(sq[i], horiz));
        }
        if (exists|i: int| 0 <= i < n && is_fill(#[trigger] sq[i], horiz)) && (forall|i: int|
            0 <= i < n && is_fill(#[trigger] sq[i], horiz) ==> alloc@[i] < maxs_seq(
                sq,
                horiz,
            )[i]) {
            // No fill child is saturated, so the first round spent the
            // whole leftover and the second round had nothing to change.
            assert forall|i: int| 0 <= i < n && fills@[i] implies mid[i] < maxs@[i] by {
                assert(is_fill(sq[i], horiz));
            }
            assert(l1 == 0);
            assert(alloc@ == mid);
        }
        if exists|i: int|
            0 <= i < n && is_shrink(#[trigger] sq[i], horiz) && alloc@[i] > mins_seq(
                sq,
                horiz,
            )[i] {
            let i = choose|i: int|
                0 <= i < n && is_shrink(#[trigger] sq[i], horiz) && alloc@[i] > mins_seq(
                    sq,
                    horiz,
                )[i];
            // The first round does not touch shrink children, so this
            // growth came from the second round: the first round left
            // space over, which means every fill child saturated.
            assert(mid[i] == mins_seq(sq, horiz)[i]);
            assert(l1 != 0);
            assert forall|j: int|
                0 <= j < n && is_fill(#[trigger] sq[j], horiz) implies alloc@[j] == maxs_seq(
                sq,
                horiz,
            )[j] by {
                assert(fills@[j]);
            }
        }
    }
    alloc
}


/// Whether any child on the selected grid line uses the given policy
/// (`true` for `Fill`, `false` for `Shrink`) along the axis, among the
/// first `k` children.
pub open spec fn line_has<T: Copy + Eq + Hash + PartialEqSpec>(
    s: Seq<UiElement<T>>,
    k: int,
    stride: int,
    line: int,
    by_rem: bool,
    horiz: bool,
    want_fill: bool,
) -> bool
    decreases k,
{
    if k <= 0 || k > s.len() || stride <= 0 {
        false
    } else {
        let sel = if by_rem {
            (k - 1) % stride == line
        } else {
            (k - 1) / stride == line
        };
        line_has(s, k - 1, stride, line, by_rem, horiz, want_fill) || (sel && (if want_fill {
            is_fill(s[k - 1], horiz)
        } else {
            is_shrink(s[k - 1], horiz)
        }))
    }
}

/// What the extents handed to the lines of a grid must satisfy, the
/// The minimum extents of the first `lines` grid lines, as a sequence.
pub open spec fn line_mins_of<T: Copy + Eq + Hash + PartialEqSpec>(
    s: Seq<UiElement<T>>,
    lines: int,
    stride: int,
    by_rem: bool,
    horiz: bool,
) -> Seq<u64> {
    Seq::new(lines as nat, |c: int| line_max_min(s, s.len() as int, stride, c, by_rem, horiz)
        as u64)
}

/// The effective maximum extents of the first `lines` grid lines. A line's
/// folded maximum can fall below its folded minimum when the ranges of its
/// cells do not overlap; such a line never grows, which the effective
/// maximum (never below the minimum) expresses.
pub open spec fn line_emaxs_of<T: Copy + Eq + Hash + PartialEqSpec>(
    s: Seq<UiElement<T>>,
    lines: int,
    stride: int,
    by_rem: bool,
    horiz: bool,
) -> Seq<u64> {
    Seq::new(lines as nat, |c: int| {
        let lo = line_max_min(s, s.len() as int, stride, c, by_rem, horiz);
        let hi = line_min_max(s, s.len() as int, stride, c, by_rem, horiz);
        (if hi >= lo { hi } else { lo }) as u64
    })
}

/// The folds of every grid line stay within the representable lengths.
pub proof fn lemma_line_fold_bounds<T: Copy + Eq + Hash + PartialEqSpec>(
    s: Seq<UiElement<T>>,
    k: int,
    stride: int,
    line: int,
    by_rem: bool,
    horiz: bool,
)
    ensures
        0 <= line_max_min(s, k, stride, line, by_rem, horiz) <= LEN_MAX,
        0 <= line_min_max(s, k, stride, line, by_rem, horiz) <= LEN_MAX,
    decreases k,
{
    if k > 0 {
        lemma_line_fold_bounds(s, k - 1, stride, line, by_rem, horiz);
        if k <= s.len() && stride > 0 {
            assert(0 <= spec_range(s[k - 1], horiz).0 <= LEN_MAX);
            assert(0 <= spec_range(s[k - 1], horiz).1 <= LEN_MAX);
        }
    }
}

/// What the extents handed to the lines of a grid must satisfy, the
/// analogue of `distributed_ok` with one extent per column or row.
pub open spec fn lines_distributed_ok<T: Copy + Eq + Hash + PartialEqSpec>(
    r: Seq<u64>,
    s: Seq<UiElement<T>>,
    lines: int,
    stride: int,
    by_rem: bool,
    horiz: bool,
    avail: int,
) -> bool {
    &&& r.len() == lines
    &&& lines_bounded_ok(r, s, lines, stride, by_rem, horiz)
    &&& lines_spent_ok(r, s, lines, stride, by_rem, horiz, avail)
    &&& lines_priority_ok(r, s, lines, stride, by_rem, horiz)
    &&& lines_even_ok(r, s, lines, stride, by_rem, horiz)
}

/// Every line stays within its range, and a line holding neither fill nor
/// shrink cells keeps its minimum.
pub open spec fn lines_bounded_ok<T: Copy + Eq + Hash + PartialEqSpec>(
    r: Seq<u64>,
    s: Seq<UiElement<T>>,
    lines: int,
    stride: int,
    by_rem: bool,
    horiz: bool,
) -> bool {
    let lmins = line_mins_of(s, lines, stride, by_rem, horiz);
    let lmaxs = line_emaxs_of(s, lines, stride, by_rem, horiz);
    &&& forall|c: int| 0 <= c < lines ==> lmins[c] <= #[trigger] r[c] <= lmaxs[c]
    &&& forall|c: int|
        0 <= c < lines && !line_has(s, s.len() as int, stride, c, by_rem, horiz, true)
            && !line_has(s, s.len() as int, stride, c, by_rem, horiz, false) ==> #[trigger] r[c]
            == lmins[c]
}

/// The lines never take more than the distributable space, and they take
/// it in full unless every growable line saturated.
pub open spec fn lines_spent_ok<T: Copy + Eq + Hash + PartialEqSpec>(
    r: Seq<u64>,
    s: Seq<UiElement<T>>,
    lines: int,
    stride: int,
    by_rem: bool,
    horiz: bool,
    avail: int,
) -> bool {
    let lmins = line_mins_of(s, lines, stride, by_rem, horiz);
    let lmaxs = line_emaxs_of(s, lines, stride, by_rem, horiz);
    &&& seq_sum(r) <= seq_sum(lmins) + avail
    &&& (seq_sum(r) == seq_sum(lmins) + avail || (forall|c: int|
        0 <= c < lines && (line_has(s, s.len() as int, stride, c, by_rem, horiz, true)
            || line_has(s, s.len() as int, stride, c, by_rem, horiz, false)) ==> #[trigger] r[c]
            == lmaxs[c]))
}

/// Round priority: a line that holds shrink cells but no fill cell grows
/// beyond its minimum only when every fill-holding line has reached its
/// effective maximum. (A line holding both kinds takes part in both
/// rounds.)
pub open spec fn lines_priority_ok<T: Copy + Eq + Hash + PartialEqSpec>(
    r: Seq<u64>,
    s: Seq<UiElement<T>>,
    lines: int,
    stride: int,
    by_rem: bool,
    horiz: bool,
) -> bool {
    let lmins = line_mins_of(s, lines, stride, by_rem, horiz);
    let lmaxs = line_emaxs_of(s, lines, stride, by_rem, horiz);
    (exists|c: int|
        0 <= c < lines && !line_has(s, s.len() as int, stride, c, by_rem, horiz, true)
            && line_has(s, s.len() as int, stride, c, by_rem, horiz, false) && #[trigger] r[c]
            > lmins[c]) ==> (forall|d: int|
        0 <= d < lines && line_has(s, s.len() as int, stride, d, by_rem, horiz, true)
            ==> #[trigger] r[d] == lmaxs[d])
}

/// Even sharing: when the grid has fill-holding lines and none of them ran
/// into its effective maximum, they absorbed the distributable space in
/// equal shares (up to one unit) and every other line stayed at its
/// minimum.
pub open spec fn lines_even_ok<T: Copy + Eq + Hash + PartialEqSpec>(
    r: Seq<u64>,
    s: Seq<UiElement<T>>,
    lines: int,
    stride: int,
    by_rem: bool,
    horiz: bool,
) -> bool {
    let lmins = line_mins_of(s, lines, stride, by_rem, horiz);
    let lmaxs = line_emaxs_of(s, lines, stride, by_rem, horiz);
    ((exists|c: int|
        0 <= c < lines && line_has(s, s.len() as int, stride, c, by_rem, horiz, true) && 0
            <= #[trigger] r[c]) && (forall|c: int|
        0 <= c < lines && line_has(s, s.len() as int, stride, c, by_rem, horiz, true)
            ==> #[trigger] r[c] < lmaxs[c])) ==> ((forall|c: int, d: int|
        0 <= c < lines && 0 <= d < lines && line_has(s, s.len() as int, stride, c, by_rem,
            horiz, true) && line_has(s, s.len() as int, stride, d, by_rem, horiz, true)
            ==> #[trigger] r[c] - lmins[c] <= #[trigger] r[d] - lmins[d] + 1) && (forall|c: int|
        0 <= c < lines && !line_has(s, s.len() as int, stride, c, by_rem, horiz, true)
            ==> #[trigger] r[c] == lmins[c]))
}

/// Collects, for each grid line, whether it holds a `Fill` child and
/// whether it holds a `Shrink` child along the axis.
fn line_flags<T: Copy + Eq + Hash + PartialEqSpec>(
    children: &Vec<UiElement<T>>,
    lines: usize,
    stride: usize,
    by_rem: bool,
    horiz: bool,
) -> (r: (Vec<bool>, Vec<bool>))
    requires
        stride >= 1,
    ensures
        r.0@.len() == lines,
        r.1@.len() == lines,
        forall|c: int|
            0 <= c < lines ==> #[trigger] r.0@[c] == line_has(
                children@,
                children@.len() as int,
                stride as int,
                c,
                by_rem,
                horiz,
                true,
            ),
        forall|c: int|
            0 <= c < lines ==> #[trigger] r.1@[c] == line_has(
                children@,
                children@.len() as int,
                stride as int,
                c,
                by_rem,
                horiz,
                false,
            ),
{
    let n = children.len();
    let mut fills: Vec<bool> = Vec::new();
    let mut shrinks: Vec<bool> = Vec::new();
    let mut line: usize = 0;
    while line < lines
        invariant
            0 <= line <= lines,
            n == children.len(),
            stride >= 1,
            fills@.len() == line,
            shrinks@.len() == line,
            forall|c: int|
                0 <= c < line ==> #[trigger] fills@[c] == line_has(
                    children@,
                    children@.len() as int,
                    stride as int,
                    c,
                    by_rem,
                    horiz,
                    true,
                ),
            forall|c: int|
                0 <= c < line ==> #[trigger] shrinks@[c] == line_has(
                    children@,
                    children@.len() as int,
                    stride as int,
                    c,
                    by_rem,
                    horiz,
                    false,
                ),
        decreases lines - line,
    {
        let mut has_fill = false;
        let mut has_shrink = false;
        let mut i: usize = 0;
        while i < n
            invariant
                0 <= i <= n,
                n == children.len(),
                stride >= 1,
                has_fill == line_has(children@, i as int, stride as int, line as int, by_rem,
                    horiz, true),
                has_shrink == line_has(children@, i as int, stride as int, line as int, by_rem,
                    horiz, false),
            decreases n - i,
        {
            let sel = if by_rem {
                i % stride == line
            } else {
                i / stride == line
            };
            if sel {
                let size = if horiz {
                    children[i].get_layout().x_size
                } else {
                    children[i].get_layout().y_size
                };
                match size {
                    Size::Fill(_, _) => {
                        has_fill = true;
                    },
                    Size::Shrink(_, _) => {
                        has_shrink = true;
                    },
                    _ => {},
                }
            }
            i = i + 1;
        }
        fills.push(has_fill);
        shrinks.push(has_shrink);
        line = line + 1;
    }
    (fills, shrinks)
}

/// Splits the given extent among the lines of a grid: every line starts at
/// its minimum, the remaining space is poured first over the lines holding
/// a `Fill` child and then over the lines holding a `Shrink` child.
#[verifier::rlimit(80)]
#[verifier::spinoff_prover]
fn split_lines<T: Copy + Eq + Hash + PartialEqSpec>(
    children: &Vec<UiElement<T>>,
    lmins: &LenList,
    lmaxs: &LenList,
    lines: usize,
    stride: usize,
    by_rem: bool,
    horiz: bool,
    available: u64,
    content_min: u64,
) -> (r: LenList)
    requires
        stride >= 1,
        len_ok(available),
        len_ok(content_min),
        lens_view(*lmins).len() == lines,
        lens_view(*lmaxs).len() == lines,
        forall|c: int|
            0 <= c < lines ==> #[trigger] lens_view(*lmins)[c] == line_max_min(
                children@,
                children@.len() as int,
                stride as int,
                c,
                by_rem,
                horiz,
            ),
        forall|c: int|
            0 <= c < lines ==> #[trigger] lens_view(*lmaxs)[c] == line_min_max(
                children@,
                children@.len() as int,
                stride as int,
                c,
                by_rem,
                horiz,
            ),
        forall|c: int| 0 <= c < lines ==> len_ok(#[trigger] lens_view(*lmins)[c]),
        forall|c: int| 0 <= c < lines ==> len_ok(#[trigger] lens_view(*lmaxs)[c]),
    ensures
        lines_distributed_ok(
            lens_view(r),
            children@,
            lines as int,
            stride as int,
            by_rem,
            horiz,
            crate::units::sub0(available as int, content_min as int),
        ),
{
    // Copy the line ranges into plain vectors for the allocator.
    let mut mins_v: Vec<u64> = Vec::new();
    let mut maxs_v: Vec<u64> = Vec::new();
    let mut c: usize = 0;
    while c < lines
        invariant
            0 <= c <= lines,
            lens_view(*lmins).len() == lines,
            lens_view(*lmaxs).len() == lines,
            mins_v@.len() == c,
            maxs_v@.len() == c,
            forall|k: int| 0 <= k < c ==> #[trigger] mins_v@[k] == lens_view(*lmins)[k],
            forall|k: int|
                0 <= k < c ==> #[trigger] maxs_v@[k] == (if lens_view(*lmaxs)[k] >= lens_view(
                    *lmins,
                )[k] {
                    lens_view(*lmaxs)[k]
                } else {
                    lens_view(*lmins)[k]
                }),
        decreases lines - c,
    {
        let lo = lmins.get(c);
        let hi = lmaxs.get(c);
        mins_v.push(lo);
        maxs_v.push(lmax(lo, hi));
        c = c + 1;
    }
    let (fills, shrinks) = line_flags(children, lines, stride, by_rem, horiz);
    let mut alloc = mins_v;
    let mut leftover = lsub(available, content_min);
    distribute_to_fitting(&mut leftover, &mut alloc, &maxs_v, &fills);
    let ghost mid = alloc@;
    let ghost l1 = leftover;
    distribute_to_fitting(&mut leftover, &mut alloc, &maxs_v, &shrinks);
    proof {
        let sq = children@;
        let ln = lines as int;
        let lmins = line_mins_of(sq, ln, stride as int, by_rem, horiz);
        let lmaxs = line_emaxs_of(sq, ln, stride as int, by_rem, horiz);
        if (exists|c: int|
            0 <= c < ln && line_has(sq, sq.len() as int, stride as int, c, by_rem, horiz, true)
                && 0 <= #[trigger] alloc@[c]) && (forall|c: int|
            0 <= c < ln && line_has(sq, sq.len() as int, stride as int, c, by_rem, horiz, true)
                ==> #[trigger] alloc@[c] < lmaxs[c]) {
            // No fill-holding line is saturated: since allocations only
            // grow, none was saturated after the first round either, so
            // that round spent the whole leftover and the second round
            // changed nothing.
            assert forall|c: int| 0 <= c < ln && fills@[c] implies mid[c] < maxs_v@[c] by {
                assert(alloc@[c] < lmaxs[c]);
                assert(mid[c] <= alloc@[c]);
            }
            assert(l1 == 0);
            assert(alloc@ == mid);
            assert forall|c: int| 0 <= c < ln && !line_has(
                sq,
                sq.len() as int,
                stride as int,
                c,
                by_rem,
                horiz,
                true,
            ) implies #[trigger] alloc@[c] == lmins[c] by {
                assert(!fills@[c]);
                assert(mid[c] == mins_v@[c]);
            }
        }
        if exists|c: int|
            0 <= c < ln && !line_has(sq, sq.len() as int, stride as int, c, by_rem, horiz, true)
                && line_has(sq, sq.len() as int, stride as int, c, by_rem, horiz, false)
                && #[trigger] alloc@[c] > lmins[c] {
            let c = choose|c: int|
                0 <= c < ln && !line_has(sq, sq.len() as int, stride as int, c, by_rem, horiz,
                    true) && line_has(sq, sq.len() as int, stride as int, c, by_rem, horiz,
                    false) && #[trigger] alloc@[c] > lmins[c];
            // The first round does not touch a line without fill cells, so
            // this growth came from the second round: the first round left
            // space over, which means every fill-holding line saturated.
            assert(!fills@[c]);
            assert(mid[c] == mins_v@[c]);
            assert(l1 != 0);
            assert forall|d: int|
                0 <= d < ln && line_has(sq, sq.len() as int, stride as int, d, by_rem, horiz,
                    true) implies #[trigger] alloc@[d] == lmaxs[d] by {
                assert(fills@[d]);
                assert(mid[d] == maxs_v@[d]);
                assert(alloc@[d] <= maxs_v@[d]);
            }
        }
    }
    // Pack the result back into a line list.
    let mut res = LenList::new();
    let mut k: usize = 0;
    while k < lines
        invariant
            0 <= k <= lines,
            alloc@.len() == lines,
            lens_view(res).len() == k,
            forall|j: int| 0 <= j < k ==> #[trigger] lens_view(res)[j] == alloc@[j],
        decreases lines - k,
    {
        res.push(alloc[k]);
        k = k + 1;
    }
    proof {
        assert(lens_view(res) =~= alloc@);
        assert(mins_v@ =~= line_mins_of(children@, lines as int, stride as int, by_rem, horiz));
        assert(maxs_v@ =~= line_emaxs_of(children@, lines as int, stride as int, by_rem, horiz));
        assert(lines_bounded_ok(alloc@, children@, lines as int, stride as int, by_rem, horiz));
        assert(lines_spent_ok(
            alloc@,
            children@,
            lines as int,
            stride as int,
            by_rem,
            horiz,
            crate::units::sub0(available as int, content_min as int),
        ));
        assert(lines_priority_ok(alloc@, children@, lines as int, stride as int, by_rem,
            horiz));
        assert(lines_even_ok(alloc@, children@, lines as int, stride as int, by_rem, horiz));
    }
    res
}

impl<T: Copy + Eq + Hash + PartialEqSpec> VerticalBox<T> {
    /// Splits the given height among the children: every child starts at
    /// its minimum height, the rest goes first to the `Fill` children and
    /// then to the `Shrink` children, each round sharing evenly.
    pub fn get_element_heights(&self, height_available: u64) -> (r: Vec<u64>)
        requires
            cwf(UiContent::Vertical(*self)),
            len_ok(height_available),
        ensures
            distributed_ok(
                r@,
                self.children@,
                false,
                crate::units::sub0(
                    height_available as int,
                    spec_content_range(UiContent::Vertical(*self), false).0,
                ),
            ),
        decreases *self, 3int, 0int,
    {
        let content_min = self.content_height_range().0;
        split_extent(&self.children, height_available, false, content_min)
    }
}

impl<T: Copy + Eq + Hash + PartialEqSpec> HorizontalBox<T> {
    /// Splits the given width among the children, the horizontal analogue
    /// of [`VerticalBox::get_element_heights`].
    pub fn get_element_widths(&self, width_available: u64) -> (r: Vec<u64>)
        requires
            cwf(UiContent::Horizontal(*self)),
            len_ok(width_available),
        ensures
            distributed_ok(
                r@,
                self.children@,
                true,
                crate::units::sub0(
                    width_available as int,
                    spec_content_range(UiContent::Horizontal(*self), true).0,
                ),
            ),
        decreases *self, 3int, 0int,
    {
        let content_min = self.content_width_range().0;
        split_extent(&self.children, width_available, true, content_min)
    }
}

impl<T: Copy + Eq + Hash + PartialEqSpec> GridBox<T> {
    /// Splits the given width among the columns: every column starts at
    /// its minimum, the rest goes first to the columns holding a `Fill`
    /// cell and then to the columns holding a `Shrink` cell.
    pub fn get_column_widths(&self, width_available: u64) -> (r: LenList)
        requires
            cwf(UiContent::Grid(*self)),
            len_ok(width_available),
        ensures
            lines_distributed_ok(
                lens_view(r),
                self.children@,
                self.cols as int,
                self.cols as int,
                true,
                true,
                crate::units::sub0(
                    width_available as int,
                    spec_content_range(UiContent::Grid(*self), true).0,
                ),
            ),
        decreases *self, 4int, 0int,
    {
        let (lmins, lmaxs) = self.get_column_ranges();
        let content_min = self.content_width_range().0;
        split_lines(
            &self.children,
            &lmins,
            &lmaxs,
            self.cols,
            self.cols,
            true,
            true,
            width_available,
            content_min,
        )
    }

    /// Splits the given height among the rows, the vertical analogue of
    /// [`GridBox::get_column_widths`].
    pub fn get_row_heights(&self, height_available: u64) -> (r: LenList)
        requires
            cwf(UiContent::Grid(*self)),
            len_ok(height_available),
        ensures
            lines_distributed_ok(
                lens_view(r),
                self.children@,
                self.rows as int,
                self.cols as int,
                false,
                false,
                crate::units::sub0(
                    height_available as int,
                    spec_content_range(UiContent::Grid(*self), false).0,
                ),
            ),
        decreases *self, 4int, 0int,
    {
        let (lmins, lmaxs) = self.get_row_ranges();
        let content_min = self.content_height_range().0;
        split_lines(
            &self.children,
            &lmins,
            &lmaxs,
            self.rows,
            self.cols,
            false,
            false,
            height_available,
            content_min,
        )
    }
}



/// The position of strip `j` along one axis: the target's near edge plus
/// the extents of the earlier strips and the spacing between them.
pub open spec fn strip_pos(p0: int, ls: Seq<u64>, spacing: u64, j: int) -> int
    decreases j,
{
    if j <= 0 {
        p0
    } else {
        crate::units::cap_coord(strip_pos(p0, ls, spacing, j - 1) + ls[j - 1] + spacing)
    }
}

/// The strip rectangles a vertical box assigns its children: the full
/// width of the target, the distributed heights, each strip below the
/// previous plus the spacing.
pub open spec fn vertical_strips(target: Rect, hs: Seq<u64>, spacing: u64) -> Seq<Rect> {
    Seq::new(
        hs.len(),
        |j: int|
            Rect {
                x: target.x,
                y: strip_pos(target.y as int, hs, spacing, j) as i64,
                w: target.w,
                h: hs[j],
            },
    )
}

/// The strip rectangles a horizontal box assigns its children, the
/// horizontal analogue of [`vertical_strips`].
pub open spec fn horizontal_strips(target: Rect, ws: Seq<u64>, spacing: u64) -> Seq<Rect> {
    Seq::new(
        ws.len(),
        |j: int|
            Rect {
                x: strip_pos(target.x as int, ws, spacing, j) as i64,
                y: target.y,
                w: ws[j],
                h: target.h,
            },
    )
}

/// The cell rectangles of a grid, row by row: cell `idx` sits at the
/// accumulated position of its column and row, with the distributed column
/// width and row height.
pub open spec fn grid_cells(
    target: Rect,
    ws: Seq<u64>,
    hs: Seq<u64>,
    hspacing: u64,
    vspacing: u64,
    cols: int,
) -> Seq<Rect> {
    Seq::new(
        (ws.len() * hs.len()) as nat,
        |idx: int|
            Rect {
                x: strip_pos(target.x as int, ws, hspacing, idx % cols) as i64,
                y: strip_pos(target.y as int, hs, vspacing, idx / cols) as i64,
                w: ws[idx % cols],
                h: hs[idx / cols],
            },
    )
}

impl<T: Copy + Eq + Hash + PartialEqSpec> VerticalBox<T> {
    /// Draws the children top to bottom into the given rectangle, each into
    /// a strip whose height the distribution algorithm assigned to it, with
    /// the box's spacing between neighbors.
    pub(crate) fn draw_content(
        &mut self,
        input: &FrameInput,
        param: UiDrawParam,
        out: &mut Vec<DrawCommand>,
        Ghost(budget): Ghost<nat>,
    )
        requires
            cwf(UiContent::Vertical(*old(self))),
            elems_size(old(self).children@) < budget,
            param.target.wf(),
            input.wf(),
        ensures
            cwf(UiContent::Vertical(*final(self))),
            final(self).spacing == old(self).spacing,
            final(self).children@.len() == old(self).children@.len(),
            elems_size(final(self).children@) <= elems_size(old(self).children@),
            old(out)@.is_prefix_of(final(out)@),
            // Every child was drawn once, in order, into the strip the
            // distribution algorithm assigned to it.
            exists|hs: Seq<u64>|
                #![auto]
                {
                    &&& distributed_ok(
                        hs,
                        old(self).children@,
                        false,
                        crate::units::sub0(
                            param.target.h as int,
                            spec_content_range(UiContent::Vertical(*old(self)), false).0,
                        ),
                    )
                    &&& children_drawn(
                        old(self).children@,
                        final(self).children@,
                        vertical_strips(param.target, hs, old(self).spacing),
                        0,
                        old(self).children@.len() as int,
                        *input,
                        param.mouse_listen,
                        param.z,
                        old(out)@,
                        final(out)@,
                    )
                },
        decreases budget, 0int,
    {
        let heights = self.get_element_heights(param.target.h);
        proof {
            assert forall|j: int| 0 <= j < heights@.len() implies #[trigger] heights@[j]
                <= LEN_MAX by {
                assert(heights@[j] <= maxs_seq(old(self).children@, false)[j]);
            }
            assert(out@.is_prefix_of(out@)) by {
                assert(out@ =~= out@.subrange(0, out@.len() as int));
            }
        }
        let ghost s1 = self.children@;
        let ghost targets = vertical_strips(param.target, heights@, self.spacing);
        let n = self.children.len();
        let mut y = param.target.y;
        let mut i: usize = 0;
        while i < n
            invariant
                0 <= i <= n,
                n == self.children@.len(),
                n == s1.len(),
                heights@.len() == n,
                forall|j: int| 0 <= j < n ==> #[trigger] heights@[j] <= LEN_MAX,
                elems_wf(self.children@),
                elems_size(self.children@) <= elems_size(old(self).children@),
                elems_size(old(self).children@) < budget,
                forall|j: int| i <= j < n ==> #[trigger] self.children@[j] == s1[j],
                self.spacing == old(self).spacing,
                len_ok(self.spacing),
                param.target.wf(),
                input.wf(),
                targets == vertical_strips(param.target, heights@, self.spacing),
                y == strip_pos(param.target.y as int, heights@, self.spacing, i as int),
                crate::units::coord_ok(y),
                old(out)@.is_prefix_of(out@),
                children_drawn(
                    s1,
                    self.children@,
                    targets,
                    0,
                    i as int,
                    *input,
                    param.mouse_listen,
                    param.z,
                    old(out)@,
                    out@,
                ),
            decreases n - i,
        {
            let h = heights[i];
            let rect = Rect { x: param.target.x, y, w: param.target.w, h };
            proof {
                lemma_elems_size_le(self.children@, i as int);
                assert(ewf(self.children@[i as int]));
                assert(rect == targets[i as int]);
            }
            let ghost pre = self.children@;
            let ghost outb = out@;
            let ghost mc = esize(self.children@[i as int]);
            self.children[i].draw_to_rectangle(input, param.target(rect), out, Ghost(mc));
            proof {
                assert(self.children@ =~= pre.update(i as int, self.children@[i as int]));
                lemma_elems_size_update(pre, i as int, self.children@[i as int]);
                lemma_prefix_trans(old(out)@, outb, out@);
                lemma_children_drawn_congruence(
                    s1,
                    pre,
                    self.children@,
                    targets,
                    0,
                    i as int,
                    *input,
                    param.mouse_listen,
                    param.z,
                    old(out)@,
                    outb,
                );
                assert(draws_to(
                    s1[i as int],
                    self.children@[i as int],
                    *input,
                    UiDrawParam {
                        target: targets[i as int],
                        mouse_listen: param.mouse_listen,
                        z: param.z,
                    },
                    outb,
                    out@,
                ));
                lemma_children_drawn_snoc(
                    s1,
                    self.children@,
                    targets,
                    0,
                    i as int,
                    *input,
                    param.mouse_listen,
                    param.z,
                    old(out)@,
                    outb,
                    out@,
                );
            }
            let step = h + self.spacing;
            y = cadd(y, step as i64);
            i = i + 1;
        }
    }
}

impl<T: Copy + Eq + Hash + PartialEqSpec> HorizontalBox<T> {
    /// Draws the children left to right into the given rectangle, each into
    /// a strip whose width the distribution algorithm assigned to it, with
    /// the box's spacing between neighbors.
    pub(crate) fn draw_content(
        &mut self,
        input: &FrameInput,
        param: UiDrawParam,
        out: &mut Vec<DrawCommand>,
        Ghost(budget): Ghost<nat>,
    )
        requires
            cwf(UiContent::Horizontal(*old(self))),
            elems_size(old(self).children@) < budget,
            param.target.wf(),
            input.wf(),
        ensures
            cwf(UiContent::Horizontal(*final(self))),
            final(self).spacing == old(self).spacing,
            final(self).children@.len() == old(self).children@.len(),
            elems_size(final(self).children@) <= elems_size(old(self).children@),
            old(out)@.is_prefix_of(final(out)@),
            // Every child was drawn once, in order, into the strip the
            // distribution algorithm assigned to it.
            exists|ws: Seq<u64>|
                #![auto]
                {
                    &&& distributed_ok(
                        ws,
                        old(self).children@,
                        true,
                        crate::units::sub0(
                            param.target.w as int,
                            spec_content_range(UiContent::Horizontal(*old(self)), true).0,
                        ),
                    )
                    &&& children_drawn(
                        old(self).children@,
                        final(self).children@,
                        horizontal_strips(param.target, ws, old(self).spacing),
                        0,
                        old(self).children@.len() as int,
                        *input,
                        param.mouse_listen,
                        param.z,
                        old(out)@,
                        final(out)@,
                    )
                },
        decreases budget, 0int,
    {
        let widths = self.get_element_widths(param.target.w);
        proof {
            assert forall|j: int| 0 <= j < widths@.len() implies #[trigger] widths@[j]
                <= LEN_MAX by {
                assert(widths@[j] <= maxs_seq(old(self).children@, true)[j]);
            }
            assert(out@.is_prefix_of(out@)) by {
                assert(out@ =~= out@.subrange(0, out@.len() as int));
            }
        }
        let ghost s1 = self.children@;
        let ghost targets = horizontal_strips(param.target, widths@, self.spacing);
        let n = self.children.len();
        let mut x = param.target.x;
        let mut i: usize = 0;
        while i < n
            invariant
                0 <= i <= n,
                n == self.children@.len(),
                n == s1.len(),
                widths@.len() == n,
                forall|j: int| 0 <= j < n ==> #[trigger] widths@[j] <= LEN_MAX,
                elems_wf(self.children@),
                elems_size(self.children@) <= elems_size(old(self).children@),
                elems_size(old(self).children@) < budget,
                forall|j: int| i <= j < n ==> #[trigger] self.children@[j] == s1[j],
                self.spacing == old(self).spacing,
                len_ok(self.spacing),
                param.target.wf(),
                input.wf(),
                targets == horizontal_strips(param.target, widths@, self.spacing),
                x == strip_pos(param.target.x as int, widths@, self.spacing, i as int),
                crate::units::coord_ok(x),
                old(out)@.is_prefix_of(out@),
                children_drawn(
                    s1,
                    self.children@,
                    targets,
                    0,
                    i as int,
                    *input,
                    param.mouse_listen,
                    param.z,
                    old(out)@,
                    out@,
                ),
            decreases n - i,
        {
            let w = widths[i];
            let rect = Rect { x, y: param.target.y, w, h: param.target.h };
            proof {
                lemma_elems_size_le(self.children@, i as int);
                assert(ewf(self.children@[i as int]));
                assert(rect == targets[i as int]);
            }
            let ghost pre = self.children@;
            let ghost outb = out@;
            let ghost mc = esize(self.children@[i as int]);
            self.children[i].draw_to_rectangle(input, param.target(rect), out, Ghost(mc));
            proof {
                assert(self.children@ =~= pre.update(i as int, self.children@[i as int]));
                lemma_elems_size_update(pre, i as int, self.children@[i as int]);
                lemma_prefix_trans(old(out)@, outb, out@);
                lemma_children_drawn_congruence(
                    s1,
                    pre,
                    self.children@,
                    targets,
                    0,
                    i as int,
                    *input,
                    param.mouse_listen,
                    param.z,
                    old(out)@,
                    outb,
                );
                assert(draws_to(
                    s1[i as int],
                    self.children@[i as int],
                    *input,
                    UiDrawParam {
                        target: targets[i as int],
                        mouse_listen: param.mouse_listen,
                        z: param.z,
                    },
                    outb,
                    out@,
                ));
                lemma_children_drawn_snoc(
                    s1,
                    self.children@,
                    targets,
                    0,
                    i as int,
                    *input,
                    param.mouse_listen,
                    param.z,
                    old(out)@,
                    outb,
                    out@,
                );
            }
            let step = w + self.spacing;
            x = cadd(x, step as i64);
            i = i + 1;
        }
    }
}

impl<T: Copy + Eq + Hash + PartialEqSpec> StackBox<T> {
    /// Draws the children back to front, every child into the full given
    /// rectangle, so that the child at position zero is painted on top.
    pub(crate) fn draw_content(
        &mut self,
        input: &FrameInput,
        param: UiDrawParam,
        out: &mut Vec<DrawCommand>,
        Ghost(budget): Ghost<nat>,
    )
        requires
            cwf(UiContent::Stack(*old(self))),
            elems_size(old(self).children@) < budget,
            param.target.wf(),
            input.wf(),
        ensures
            cwf(UiContent::Stack(*final(self))),
            final(self).children@.len() == old(self).children@.len(),
            elems_size(final(self).children@) <= elems_size(old(self).children@),
            old(out)@.is_prefix_of(final(out)@),
            // Every child was drawn once into the full target, in reverse
            // storage order, so the child at position zero paints last and
            // on top.
            children_drawn_desc(
                old(self).children@,
                final(self).children@,
                param,
                old(self).children@.len() as int,
                0,
                *input,
                old(out)@,
                final(out)@,
            ),
        decreases budget, 0int,
    {
        proof {
            assert(out@.is_prefix_of(out@)) by {
                assert(out@ =~= out@.subrange(0, out@.len() as int));
            }
        }
        let ghost s1 = self.children@;
        let n = self.children.len();
        let mut i: usize = 0;
        while i < n
            invariant
                0 <= i <= n,
                n == self.children@.len(),
                n == s1.len(),
                elems_wf(self.children@),
                elems_size(self.children@) <= elems_size(old(self).children@),
                elems_size(old(self).children@) < budget,
                forall|j: int| 0 <= j < n - i ==> #[trigger] self.children@[j] == s1[j],
                param.target.wf(),
                input.wf(),
                old(out)@.is_prefix_of(out@),
                children_drawn_desc(
                    s1,
                    self.children@,
                    param,
                    n as int,
                    n - i,
                    *input,
                    old(out)@,
                    out@,
                ),
            decreases n - i,
        {
            let idx = n - 1 - i;
            proof {
                lemma_elems_size_le(self.children@, idx as int);
                assert(ewf(self.children@[idx as int]));
            }
            let ghost pre = self.children@;
            let ghost outb = out@;
            let ghost mc = esize(self.children@[idx as int]);
            self.children[idx].draw_to_rectangle(input, param, out, Ghost(mc));
            proof {
                assert(self.children@ =~= pre.update(idx as int, self.children@[idx as int]));
                lemma_elems_size_update(pre, idx as int, self.children@[idx as int]);
                lemma_prefix_trans(old(out)@, outb, out@);
                lemma_children_drawn_desc_congruence(
                    s1,
                    pre,
                    self.children@,
                    param,
                    n as int,
                    (n - i) as int,
                    *input,
                    old(out)@,
                    outb,
                );
                assert(draws_to(
                    s1[idx as int],
                    self.children@[idx as int],
                    *input,
                    param,
                    outb,
                    out@,
                ));
                lemma_children_drawn_desc_snoc(
                    s1,
                    self.children@,
                    param,
                    n as int,
                    (n - i) as int,
                    *input,
                    old(out)@,
                    outb,
                    out@,
                );
            }
            i = i + 1;
        }
    }
}

impl<T: Copy + Eq + Hash + PartialEqSpec> DurationBox<T> {
    /// Shortens the remaining lifetime by the frame's delta (saturating at
    /// zero) and draws the wrapped child into the full given rectangle.
    pub(crate) fn draw_content(
        &mut self,
        input: &FrameInput,
        param: UiDrawParam,
        out: &mut Vec<DrawCommand>,
        Ghost(budget): Ghost<nat>,
    )
        requires
            cwf(UiContent::Duration(*old(self))),
            esize(*old(self).child) < budget,
            param.target.wf(),
            input.wf(),
        ensures
            cwf(UiContent::Duration(*final(self))),
            esize(*final(self).child) <= esize(*old(self).child),
            final(self).duration == if old(self).duration >= input.delta {
                old(self).duration - input.delta
            } else {
                0
            },
            old(out)@.is_prefix_of(final(out)@),
            // The wrapped child was drawn once, into the full target.
            draws_to(
                *old(self).child,
                *final(self).child,
                *input,
                param,
                old(out)@,
                final(out)@,
            ),
        decreases budget, 0int,
    {
        self.duration = if self.duration >= input.delta {
            self.duration - input.delta
        } else {
            0
        };
        let ghost mc = esize(*self.child);
        self.child.draw_to_rectangle(input, param, out, Ghost(mc));
    }
}

impl<T: Copy + Eq + Hash + PartialEqSpec> GridBox<T> {
    /// Draws the cells row by row into the given rectangle: the columns
    /// share the width and the rows share the height as the distribution
    /// algorithm assigned them, with the grid's spacings in between.
    pub(crate) fn draw_content(
        &mut self,
        input: &FrameInput,
        param: UiDrawParam,
        out: &mut Vec<DrawCommand>,
        Ghost(budget): Ghost<nat>,
    )
        requires
            cwf(UiContent::Grid(*old(self))),
            elems_size(old(self).children@) < budget,
            param.target.wf(),
            input.wf(),
        ensures
            cwf(UiContent::Grid(*final(self))),
            final(self).cols == old(self).cols,
            final(self).rows == old(self).rows,
            final(self).vertical_spacing == old(self).vertical_spacing,
            final(self).horizontal_spacing == old(self).horizontal_spacing,
            final(self).children@.len() == old(self).children@.len(),
            elems_size(final(self).children@) <= elems_size(old(self).children@),
            old(out)@.is_prefix_of(final(out)@),
            // Every cell was drawn once, in row-major order, into the cell
            // rectangle its column widths and row heights assign to it.
            exists|ws: Seq<u64>, hs: Seq<u64>|
                #![auto]
                {
                    &&& lines_distributed_ok(
                        ws,
                        old(self).children@,
                        old(self).cols as int,
                        old(self).cols as int,
                        true,
                        true,
                        crate::units::sub0(
                            param.target.w as int,
                            spec_content_range(UiContent::Grid(*old(self)), true).0,
                        ),
                    )
                    &&& lines_distributed_ok(
                        hs,
                        old(self).children@,
                        old(self).rows as int,
                        old(self).cols as int,
                        false,
                        false,
                        crate::units::sub0(
                            param.target.h as int,
                            spec_content_range(UiContent::Grid(*old(self)), false).0,
                        ),
                    )
                    &&& children_drawn(
                        old(self).children@,
                        final(self).children@,
                        grid_cells(
                            param.target,
                            ws,
                            hs,
                            old(self).horizontal_spacing,
                            old(self).vertical_spacing,
                            old(self).cols as int,
                        ),
                        0,
                        old(self).children@.len() as int,
                        *input,
                        param.mouse_listen,
                        param.z,
                        old(out)@,
                        final(out)@,
                    )
                },
        decreases budget, 0int,
    {
        let widths = self.get_column_widths(param.target.w);
        let heights = self.get_row_heights(param.target.h);
        proof {
            assert forall|j: int| 0 <= j < self.cols implies #[trigger] lens_view(widths)[j]
                <= LEN_MAX by {
                let s = old(self).children@;
                lemma_line_fold_bounds(s, s.len() as int, self.cols as int, j, true, true);
                assert(lens_view(widths)[j] <= line_emaxs_of(
                    s,
                    self.cols as int,
                    self.cols as int,
                    true,
                    true,
                )[j]);
            }
            assert forall|j: int| 0 <= j < self.rows implies #[trigger] lens_view(heights)[j]
                <= LEN_MAX by {
                let s = old(self).children@;
                lemma_line_fold_bounds(s, s.len() as int, self.cols as int, j, false, false);
                assert(lens_view(heights)[j] <= line_emaxs_of(
                    s,
                    self.rows as int,
                    self.cols as int,
                    false,
                    false,
                )[j]);
            }
            assert(out@.is_prefix_of(out@)) by {
                assert(out@ =~= out@.subrange(0, out@.len() as int));
            }
        }
        let ghost s1 = self.children@;
        let ghost wseq = lens_view(widths);
        let ghost hseq = lens_view(heights);
        let ghost targets = grid_cells(
            param.target,
            wseq,
            hseq,
            self.horizontal_spacing,
            self.vertical_spacing,
            self.cols as int,
        );
        let cols_n = widths.len();
        let rows_n = heights.len();
        proof {
            assert(cols_n * rows_n == rows_n * cols_n) by (nonlinear_arith);
            assert(targets.len() == cols_n * rows_n);
        }
        let mut y = param.target.y;
        let mut row: usize = 0;
        while row < rows_n
            invariant
                0 <= row <= rows_n,
                rows_n == self.rows,
                cols_n == self.cols,
                cols_n >= 1,
                self.children@.len() == rows_n * cols_n,
                s1.len() == rows_n * cols_n,
                wseq == lens_view(widths),
                hseq == lens_view(heights),
                targets == grid_cells(
                    param.target,
                    wseq,
                    hseq,
                    self.horizontal_spacing,
                    self.vertical_spacing,
                    cols_n as int,
                ),
                targets.len() == rows_n * cols_n,
                lens_view(widths).len() == cols_n,
                lens_view(heights).len() == rows_n,
                forall|j: int| 0 <= j < cols_n ==> #[trigger] lens_view(widths)[j] <= LEN_MAX,
                forall|j: int| 0 <= j < rows_n ==> #[trigger] lens_view(heights)[j] <= LEN_MAX,
                elems_wf(self.children@),
                elems_size(self.children@) <= elems_size(old(self).children@),
                elems_size(old(self).children@) < budget,
                forall|j: int|
                    cols_n * row <= j < s1.len() ==> #[trigger] self.children@[j] == s1[j],
                self.vertical_spacing == old(self).vertical_spacing,
                self.horizontal_spacing == old(self).horizontal_spacing,
                len_ok(self.vertical_spacing),
                len_ok(self.horizontal_spacing),
                param.target.wf(),
                input.wf(),
                y == strip_pos(param.target.y as int, hseq, self.vertical_spacing, row as int),
                crate::units::coord_ok(y),
                old(out)@.is_prefix_of(out@),
                children_drawn(
                    s1,
                    self.children@,
                    targets,
                    0,
                    (cols_n * row) as int,
                    *input,
                    param.mouse_listen,
                    param.z,
                    old(out)@,
                    out@,
                ),
            decreases rows_n - row,
        {
            let rh = heights.get(row);
            let mut x = param.target.x;
            let mut col: usize = 0;
            while col < cols_n
                invariant
                    0 <= col <= cols_n,
                    0 <= row < rows_n,
                    rows_n == self.rows,
                    cols_n == self.cols,
                    cols_n >= 1,
                    rh == lens_view(heights)[row as int],
                    rh <= LEN_MAX,
                    self.children@.len() == rows_n * cols_n,
                    s1.len() == rows_n * cols_n,
                    wseq == lens_view(widths),
                    hseq == lens_view(heights),
                    targets == grid_cells(
                        param.target,
                        wseq,
                        hseq,
                        self.horizontal_spacing,
                        self.vertical_spacing,
                        cols_n as int,
                    ),
                    targets.len() == rows_n * cols_n,
                    lens_view(widths).len() == cols_n,
                    lens_view(heights).len() == rows_n,
                    forall|j: int| 0 <= j < cols_n ==> #[trigger] lens_view(widths)[j] <= LEN_MAX,
                    elems_wf(self.children@),
                    elems_size(self.children@) <= elems_size(old(self).children@),
                    elems_size(old(self).children@) < budget,
                    forall|j: int|
                        cols_n * row + col <= j < s1.len() ==> #[trigger] self.children@[j]
                            == s1[j],
                    self.vertical_spacing == old(self).vertical_spacing,
                    self.horizontal_spacing == old(self).horizontal_spacing,
                    len_ok(self.horizontal_spacing),
                    len_ok(self.vertical_spacing),
                    param.target.wf(),
                    input.wf(),
                    x == strip_pos(param.target.x as int, wseq, self.horizontal_spacing,
                        col as int),
                    y == strip_pos(param.target.y as int, hseq, self.vertical_spacing,
                        row as int),
                    crate::units::coord_ok(x),
                    crate::units::coord_ok(y),
                    old(out)@.is_prefix_of(out@),
                    children_drawn(
                        s1,
                        self.children@,
                        targets,
                        0,
                        (cols_n * row + col) as int,
                        *input,
                        param.mouse_listen,
                        param.z,
                        old(out)@,
                        out@,
                    ),
                decreases cols_n - col,
            {
                let cw = widths.get(col);
                let total = self.children.len();
                assert(cols_n * row + col < rows_n * cols_n) by (nonlinear_arith)
                    requires
                        col < cols_n,
                        row < rows_n,
                ;
                let idx = col + cols_n * row;
                let rect = Rect { x, y, w: cw, h: rh };
                proof {
                    lemma_elems_size_le(self.children@, idx as int);
                    assert(ewf(self.children@[idx as int]));
                    assert((cols_n * row + col) % (cols_n as int) == col && (cols_n * row
                        + col) / (cols_n as int) == row) by (nonlinear_arith)
                        requires
                            0 <= col < cols_n,
                            0 <= row,
                    ;
                    assert(rect == targets[idx as int]);
                }
                let ghost pre = self.children@;
                let ghost outb = out@;
                let ghost mc = esize(self.children@[idx as int]);
                self.children[idx].draw_to_rectangle(input, param.target(rect), out, Ghost(mc));
                proof {
                    assert(self.children@ =~= pre.update(idx as int, self.children@[idx as int]));
                    lemma_elems_size_update(pre, idx as int, self.children@[idx as int]);
                    lemma_prefix_trans(old(out)@, outb, out@);
                    lemma_children_drawn_congruence(
                        s1,
                        pre,
                        self.children@,
                        targets,
                        0,
                        idx as int,
                        *input,
                        param.mouse_listen,
                        param.z,
                        old(out)@,
                        outb,
                    );
                    assert(draws_to(
                        s1[idx as int],
                        self.children@[idx as int],
                        *input,
                        UiDrawParam {
                            target: targets[idx as int],
                            mouse_listen: param.mouse_listen,
                            z: param.z,
                        },
                        outb,
                        out@,
                    ));
                    lemma_children_drawn_snoc(
                        s1,
                        self.children@,
                        targets,
                        0,
                        idx as int,
                        *input,
                        param.mouse_listen,
                        param.z,
                        old(out)@,
                        outb,
                        out@,
                    );
                }
                let step = cw + self.horizontal_spacing;
                x = cadd(x, step as i64);
                col = col + 1;
            }
            let stepy = rh + self.vertical_spacing;
            y = cadd(y, stepy as i64);
            row = row + 1;
            proof {
                assert(cols_n * (row - 1) + cols_n == cols_n * row) by (nonlinear_arith);
            }
        }
        proof {
            assert(cols_n * rows_n == rows_n * cols_n) by (nonlinear_arith);
        }
    }
}


/// When space is distributed among the children of a linear box and some
/// fill or shrink child still sits below its maximum, the distributable
/// space was spent in full: the final extents sum to the children's minima
/// plus the available space. (When every growable child saturates, the
/// remainder stays unspent by design.)
pub proof fn lemma_distribution_exact<T: Copy + Eq + Hash + PartialEqSpec>(
    r: Seq<u64>,
    s: Seq<UiElement<T>>,
    horiz: bool,
    avail: int,
)
    requires
        distributed_ok(r, s, horiz, avail),
        exists|i: int|
            0 <= i < s.len() && (is_fill(#[trigger] s[i], horiz) || is_shrink(s[i], horiz))
                && r[i] < maxs_seq(s, horiz)[i],
    ensures
        seq_sum(r) == seq_sum(mins_seq(s, horiz)) + avail,
{
}

} // verus!
