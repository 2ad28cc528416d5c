use vstd::prelude::*;

verus! {

/// The surface extent in pixels that the device context is configured with.
#[derive(PartialEq, Eq, Structural, Debug, Clone, Copy)]
pub struct SurfaceSize {
    pub width: u32,
    pub height: u32,
}

/// A dimension as the surface accepts it: never below one pixel.
pub open spec fn clamp_dim(x: u32) -> u32 {
    if x < 1 {
        1
    } else {
        x
    }
}

impl SurfaceSize {
    pub open spec fn wf(&self) -> bool {
        self.width >= 1 && self.height >= 1
    }

    /// The configuration after the window reported `width` by `height` pixels.
    pub open spec fn resized(self, width: u32, height: u32) -> SurfaceSize {
        SurfaceSize { width: clamp_dim(width), height: clamp_dim(height) }
    }

    /// The configuration for a window of `width` by `height` pixels.
    pub fn new(width: u32, height: u32) -> (r: SurfaceSize)
        ensures
            r.width == clamp_dim(width),
            r.height == clamp_dim(height),
            r.wf(),
    {
        SurfaceSize { width: clamp_dim_exec(width), height: clamp_dim_exec(height) }
    }

    /// Applies a new window size, keeping each dimension at least one pixel.
    pub fn resize(&mut self, width: u32, height: u32)
        ensures
            *final(self) == old(self).resized(width, height),
            final(self).wf(),
    {
        self.width = clamp_dim_exec(width);
        self.height = clamp_dim_exec(height);
    }
}

fn clamp_dim_exec(x: u32) -> (r: u32)
    ensures
        r == clamp_dim(x),
{
    if x < 1 {
        1
    } else {
        x
    }
}

/// Resizing to a size of at least one pixel each way twice leaves the configuration as
/// resizing once does.
pub proof fn lemma_resize_idempotent(c: SurfaceSize, width: u32, height: u32)
    requires
        width >= 1,
        height >= 1,
    ensures
        c.resized(width, height).resized(width, height) == c.resized(width, height),
{
}

} // verus!
