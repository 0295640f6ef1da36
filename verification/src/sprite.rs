//! Animated sprites: a sprite sheet holds one row of animation frames per
//! variant, and the sprite steps through the frames of its current variant
//! as frame time accumulates. The pixel data itself lives with the host's
//! render backend; the sprite tracks the timing and selects the source
//! rectangle to copy from the sheet.

use vstd::prelude::*;

verus! {

/// An animated picture with multiple variants (rows of the sheet) and, per
/// variant, the same number of animation frames (columns of the sheet).
/// Drawing repeatedly shows every frame of the selected variant in order
/// and then repeats from the beginning.
#[derive(Clone, Copy, Debug, PartialEq, Eq, Structural)]
pub struct Sprite {
    /// Width of one frame in the sheet.
    pub w: u32,
    /// Height of one frame in the sheet.
    pub h: u32,
    /// Width of the whole sheet.
    pub sheet_w: u32,
    /// Height of the whole sheet.
    pub sheet_h: u32,
    /// The target time to spend on each frame, in milliseconds.
    pub frame_time: u64,
    /// Time spent in the current frame so far, in milliseconds.
    pub current_frame_time: u64,
    /// The current frame (column of the sheet).
    pub current_frame: u32,
    /// The current variant (row of the sheet).
    pub current_variant: u32,
}

/// The source rectangle of a sheet to copy one frame from, in pixels.
#[derive(Clone, Copy, Debug, PartialEq, Eq, Structural)]
pub struct SheetRect {
    /// Left edge.
    pub x: u32,
    /// Top edge.
    pub y: u32,
    /// Width.
    pub w: u32,
    /// Height.
    pub h: u32,
}

impl Sprite {
    /// A sprite is well formed when a frame has a positive extent no
    /// larger than the sheet, the current frame is one of its variant's
    /// frames, and the current variant is one of the sheet's rows.
    pub open spec fn wf(self) -> bool {
        &&& 1 <= self.w <= self.sheet_w
        &&& 1 <= self.h <= self.sheet_h
        &&& self.current_frame < self.sheet_w / self.w
        &&& self.current_variant < self.sheet_h / self.h
    }

    /// Creates a new sprite over a sheet of the given size, with the given
    /// size of a single frame and the duration after which a frame change
    /// occurs (in milliseconds).
    pub fn new(sheet_w: u32, sheet_h: u32, w: u32, h: u32, frame_time: u64) -> (r: Sprite)
        requires
            1 <= w <= sheet_w,
            1 <= h <= sheet_h,
        ensures
            r == (Sprite {
                w,
                h,
                sheet_w,
                sheet_h,
                frame_time,
                current_frame_time: 0,
                current_frame: 0,
                current_variant: 0,
            }),
            r.wf(),
    {
        assert(sheet_w as int / w as int >= 1 && sheet_h as int / h as int >= 1)
            by (nonlinear_arith)
            requires
                1 <= w <= sheet_w,
                1 <= h <= sheet_h,
        ;
        Sprite {
            w,
            h,
            sheet_w,
            sheet_h,
            frame_time,
            current_frame_time: 0,
            current_frame: 0,
            current_variant: 0,
        }
    }

    /// Sets the variant this sprite displays. Numbers too large to name a
    /// valid variant wrap around; changing the variant restarts the
    /// animation.
    pub fn set_variant(&mut self, variant: u32)
        requires
            old(self).wf(),
        ensures
            final(self).wf(),
            old(self).current_variant != variant ==> *final(self) == (Sprite {
                current_variant: (variant % (old(self).sheet_h / old(self).h)) as u32,
                current_frame: 0,
                current_frame_time: 0,
                ..*old(self)
            }),
            old(self).current_variant == variant ==> *final(self) == *old(self),
    {
        if self.current_variant != variant {
            self.current_variant = variant % (self.sheet_h / self.h);
            self.current_frame_time = 0;
            self.current_frame = 0;
        }
    }

    /// Returns the variant this sprite is displaying.
    pub fn get_variant(&self) -> (r: u32)
        ensures
            r == self.current_variant,
    {
        self.current_variant
    }

    /// Returns the width and height of a single frame.
    pub fn get_dimensions(&self) -> (r: (u32, u32))
        ensures
            r == (self.w, self.h),
    {
        (self.w, self.h)
    }

    /// Returns the duration between two frames, in milliseconds.
    pub fn get_frame_time(&self) -> (r: u64)
        ensures
            r == self.frame_time,
    {
        self.frame_time
    }

    /// Sets the duration to wait between two succeeding frames, in
    /// milliseconds.
    pub fn set_frame_time(&mut self, frame_time: u64)
        ensures
            *final(self) == (Sprite { frame_time, ..*old(self) }),
    {
        self.frame_time = frame_time;
    }

    /// Returns the time to cycle through every frame of the current
    /// variant: the frame time times the number of frames per row.
    pub fn get_cycle_time(&self) -> (r: u64)
        requires
            self.wf(),
            self.frame_time * (self.sheet_w / self.w) <= u64::MAX,
        ensures
            r == self.frame_time * (self.sheet_w as u64 / self.w as u64),
    {
        self.frame_time * ((self.sheet_w / self.w) as u64)
    }

    /// Advances the animation by the elapsed milliseconds — every full
    /// frame time steps one frame forward, wrapping at the end of the row —
    /// and returns the source rectangle of the sheet to draw: the current
    /// frame of the current variant.
    pub fn draw_sprite(&mut self, delta: u64) -> (r: SheetRect)
        requires
            old(self).wf(),
            old(self).current_frame_time + delta <= u64::MAX,
        ensures
            final(self).wf(),
            final(self).frame_time == old(self).frame_time,
            final(self).w == old(self).w && final(self).h == old(self).h,
            final(self).sheet_w == old(self).sheet_w && final(self).sheet_h == old(self).sheet_h,
            final(self).current_variant == old(self).current_variant,
            // With a positive frame time, the elapsed time becomes the
            // remainder and the frame advances by one step per full frame
            // time, wrapping at the end of the row.
            final(self).frame_time > 0 ==> final(self).current_frame_time == (old(
                self,
            ).current_frame_time + delta) % (old(self).frame_time as int)
                && final(self).current_frame == (old(self).current_frame + (old(
                self,
            ).current_frame_time + delta) / (old(self).frame_time as int)) % (
            old(self).sheet_w as int / old(self).w as int),
            final(self).frame_time == 0 ==> final(self).current_frame == old(self).current_frame && final(self).current_frame_time == old(self).current_frame_time
                + delta,
            r == (SheetRect {
                x: (final(self).w * final(self).current_frame) as u32,
                y: (final(self).h * final(self).current_variant) as u32,
                w: final(self).w,
                h: final(self).h,
            }),
    {
        self.current_frame_time = self.current_frame_time + delta;
        let frames = self.sheet_w / self.w;
        let ghost total = old(self).current_frame_time + delta;
        let ghost mut steps: int = 0;
        proof {
            vstd::arithmetic::div_mod::lemma_small_mod(
                old(self).current_frame as nat,
                frames as nat,
            );
        }
        while self.current_frame_time >= self.frame_time && self.frame_time > 0
            invariant
                self.wf(),
                frames == self.sheet_w / self.w,
                frames >= 1,
                self.frame_time == old(self).frame_time,
                self.w == old(self).w && self.h == old(self).h,
                self.sheet_w == old(self).sheet_w && self.sheet_h == old(self).sheet_h,
                self.current_variant == old(self).current_variant,
                steps >= 0,
                total == self.current_frame_time + steps * (self.frame_time as int),
                self.frame_time > 0 ==> self.current_frame == (old(self).current_frame + steps)
                    % (frames as int),
                self.frame_time == 0 ==> self.current_frame == old(self).current_frame
                    && self.current_frame_time == old(self).current_frame_time + delta,
            decreases self.current_frame_time,
        {
            self.current_frame_time = self.current_frame_time - self.frame_time;
            let ghost frame_before = self.current_frame;
            self.current_frame = (self.current_frame + 1) % frames;
            proof {
                assert((steps + 1) * (self.frame_time as int) == steps * (
                self.frame_time as int) + self.frame_time) by (nonlinear_arith);
                let x = old(self).current_frame + steps;
                vstd::arithmetic::div_mod::lemma_add_mod_noop(x, 1, frames as int);
                if frames > 1 {
                    vstd::arithmetic::div_mod::lemma_small_mod(1, frames as nat);
                } else {
                    assert(self.current_frame == 0);
                    assert((x + 1) % 1int == 0) by {
                        vstd::arithmetic::div_mod::lemma_mod_self_0(1);
                        vstd::arithmetic::div_mod::lemma_small_mod(0, 1);
                        vstd::arithmetic::div_mod::lemma_mod_twice(x + 1, 1);
                    }
                }
                steps = steps + 1;
            }
        }
        proof {
            if self.frame_time > 0 {
                vstd::arithmetic::div_mod::lemma_fundamental_div_mod_converse(
                    total,
                    self.frame_time as int,
                    steps,
                    self.current_frame_time as int,
                );
            }
        }
        assert(self.w * self.current_frame < self.sheet_w || self.current_frame == 0)
            by (nonlinear_arith)
            requires
                1 <= self.w,
                self.current_frame < self.sheet_w / self.w,
                self.sheet_w >= self.w,
        ;
        assert(self.w * self.current_frame <= 0xffff_ffffu32) by (nonlinear_arith)
            requires
                1 <= self.w <= 0xffff_ffffu32,
                self.w * self.current_frame < self.sheet_w <= 0xffff_ffffu32
                    || self.current_frame == 0,
        ;
        assert(self.h * self.current_variant < self.sheet_h || self.current_variant == 0)
            by (nonlinear_arith)
            requires
                1 <= self.h,
                self.current_variant < self.sheet_h / self.h,
                self.sheet_h >= self.h,
        ;
        assert(self.h * self.current_variant <= 0xffff_ffffu32) by (nonlinear_arith)
            requires
                1 <= self.h <= 0xffff_ffffu32,
                self.h * self.current_variant < self.sheet_h <= 0xffff_ffffu32
                    || self.current_variant == 0,
        ;
        SheetRect {
            x: self.w * self.current_frame,
            y: self.h * self.current_variant,
            w: self.w,
            h: self.h,
        }
    }
}

} // verus!
