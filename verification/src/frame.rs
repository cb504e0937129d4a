//! One captured frame: its dimensions and its pixels.

use vstd::prelude::*;

verus! {

/// A captured frame as rows of RGBA pixels, four bytes each.
#[derive(Clone, Debug)]
pub struct Frame {
    pub width: u32,
    pub height: u32,
    pub rgba: Vec<u8>,
}

/// A frame as a mathematical value.
pub struct FrameView {
    pub width: nat,
    pub height: nat,
    pub rgba: Seq<u8>,
}

impl FrameView {
    /// The buffer holds exactly the pixels of the frame.
    pub open spec fn well_formed(self) -> bool {
        self.rgba.len() == 4 * self.width * self.height
    }
}

impl View for Frame {
    type V = FrameView;

    open spec fn view(&self) -> FrameView {
        FrameView { width: self.width as nat, height: self.height as nat, rgba: self.rgba@ }
    }
}

/// The view of a frame that may be absent.
pub open spec fn frame_view(frame: Option<Frame>) -> Option<FrameView> {
    match frame {
        Some(f) => Some(f@),
        None => None,
    }
}

impl Frame {
    /// Whether the buffer holds exactly the pixels of the frame.
    pub fn is_well_formed(&self) -> (r: bool)
        ensures
            r == self@.well_formed(),
    {
        assert(self.width * self.height <= 0xFFFF_FFFF * 0xFFFF_FFFF) by (nonlinear_arith)
            requires
                0 <= self.width <= 0xFFFF_FFFF,
                0 <= self.height <= 0xFFFF_FFFF,
        ;
        let pixels: u64 = (self.width as u64) * (self.height as u64);
        let length: u128 = 4 * (pixels as u128);
        assert(4 * self@.width * self@.height == 4 * (self@.width * self@.height))
            by (nonlinear_arith);
        self.rgba.len() as u128 == length
    }

    /// Whether two frames have the same width and the same height.
    pub fn same_dimensions(&self, other: &Frame) -> (r: bool)
        ensures
            r == (self@.width == other@.width && self@.height == other@.height),
    {
        self.width == other.width && self.height == other.height
    }
}

} // verus!
