//! The software-rendered frame: a 320x180 pixel surface. All drawing
//! tolerates partial clipping silently: out-of-bounds access reads or
//! writes nothing.
use vstd::prelude::*;

use crate::vec2::{vec2, Vec2};

verus! {

pub const FB_WIDTH: usize = 320;

pub const FB_HEIGHT: usize = 180;

/// The pixel surface.
pub struct Framebuffer {
    pub inner: Vec<u32>,
}

impl Framebuffer {
    /// One word per pixel.
    pub open spec fn wf(&self) -> bool {
        self.inner@.len() == 57600
    }

    /// A black frame.
    pub fn new() -> (r: Framebuffer)
        ensures
            r.wf(),
            forall|i: int| 0 <= i < 57600 ==> r.inner@[i] == 0u32,
    {
        let mut inner: Vec<u32> = Vec::new();
        let mut i: usize = 0;
        while i < 57600
            invariant
                0 <= i <= 57600,
                inner@.len() == i,
                forall|j: int| 0 <= j < i ==> inner@[j] == 0u32,
            decreases 57600 - i,
        {
            inner.push(0);
            i = i + 1;
        }
        Framebuffer { inner }
    }

    /// The frame's size in pixels.
    pub fn size() -> (r: Vec2)
        ensures
            r == (Vec2 { x: 320, y: 180 }),
    {
        vec2(320, 180)
    }

    /// Is `pos` a pixel of the frame?
    pub open spec fn in_frame(pos: Vec2) -> bool {
        0 <= pos.x < 320 && 0 <= pos.y < 180
    }

    /// The pixel at `pos`, or nothing when `pos` is outside the frame.
    pub fn pixel(&self, pos: Vec2) -> (r: Option<u32>)
        requires
            self.wf(),
        ensures
            Framebuffer::in_frame(pos) ==> r == Some(self.inner@[pos.y * 320 + pos.x]),
            !Framebuffer::in_frame(pos) ==> r is None,
    {
        if 0 <= pos.x && pos.x < 320 && 0 <= pos.y && pos.y < 180 {
            Some(self.inner[(pos.y * 320 + pos.x) as usize])
        } else {
            None
        }
    }

    /// Overwrite the pixel at `pos`; writes outside the frame are
    /// silently dropped.
    pub fn set_pixel(&mut self, pos: Vec2, px: u32)
        requires
            old(self).wf(),
        ensures
            final(self).wf(),
            Framebuffer::in_frame(pos) ==> final(self).inner@ == old(self).inner@.update(pos.y * 320 + pos.x, px),
            !Framebuffer::in_frame(pos) ==> final(self).inner@ == old(self).inner@,
    {
        if 0 <= pos.x && pos.x < 320 && 0 <= pos.y && pos.y < 180 {
            self.inner.set((pos.y * 320 + pos.x) as usize, px);
        }
    }
}

} // verus!
