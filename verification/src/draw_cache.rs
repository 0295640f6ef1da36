//! The per-node draw cache: the rectangles an element was drawn to in the
//! last frame, memoized so that static parts of the tree are not laid out
//! again every frame.

use vstd::prelude::*;

use crate::layout::Rect;

verus! {

/// Remembers where an element was drawn last frame. Either there is no
/// usable geometry (`Invalid`), or the cache holds the outer and inner
/// rectangles together with the target they were computed for (`Valid`).
/// Illegal states — a "valid" flag with no geometry — are unrepresentable.
#[derive(Clone, Copy, Debug, PartialEq, Eq, Structural)]
pub enum DrawCache {
    /// No usable geometry; the next draw recomputes it.
    Invalid,
    /// Usable geometry from the last frame.
    Valid {
        /// The rectangle the element's background was drawn to.
        outer: Rect,
        /// The rectangle the element's content was drawn to.
        inner: Rect,
        /// The target rectangle the element received when the geometry was
        /// computed.
        target: Rect,
    },
}

impl DrawCache {
    /// A cache is well formed when any held rectangles are well formed.
    pub open spec fn wf(self) -> bool {
        match self {
            DrawCache::Invalid => true,
            DrawCache::Valid { outer, inner, target } => outer.wf() && inner.wf() && target.wf(),
        }
    }

    /// Whether the cache holds geometry computed for the given target.
    pub open spec fn spec_valid_for(self, target: Rect) -> bool {
        match self {
            DrawCache::Invalid => false,
            DrawCache::Valid { outer: _, inner: _, target: cached } => cached == target,
        }
    }
}

/// Whether a cache's remembered outer rectangle fits its remembered
/// target: it does not exceed the target's extent and has a non-negative
/// origin. This is exactly what validation checks before it stores
/// geometry, so every cache the validator writes satisfies it. (The
/// companion claim of the data model, that the inner rectangle lies within
/// the outer one, holds of freshly resolved unsaturated geometry but not
/// of every transition-blended rectangle pair, whose fields round
/// independently; see the geometry module's containment lemma.)
pub open spec fn cache_fits(c: DrawCache) -> bool {
    match c {
        DrawCache::Invalid => true,
        DrawCache::Valid { outer, inner: _, target } => outer.w <= target.w && outer.h
            <= target.h && outer.x >= 0 && outer.y >= 0,
    }
}

/// The outer rectangle held by a cache (the origin rectangle when the
/// cache is invalid; only read when it is valid).
pub open spec fn cache_outer(c: DrawCache) -> Rect {
    match c {
        DrawCache::Valid { outer, inner: _, target: _ } => outer,
        DrawCache::Invalid => Rect { x: 0, y: 0, w: 0, h: 0 },
    }
}

/// The inner rectangle held by a cache (the origin rectangle when the
/// cache is invalid; only read when it is valid).
pub open spec fn cache_inner(c: DrawCache) -> Rect {
    match c {
        DrawCache::Valid { outer: _, inner, target: _ } => inner,
        DrawCache::Invalid => Rect { x: 0, y: 0, w: 0, h: 0 },
    }
}

impl Default for DrawCache {
    /// A fresh cache holds nothing.
    fn default() -> (r: Self)
        ensures
            r == DrawCache::Invalid,
    {
        DrawCache::Invalid
    }
}

} // verus!
