//! The capability a frame driver renders through.
//!
//! The driver holds one rasterizer — serial or batched-parallel — behind
//! this trait for the life of the process.  The trait pins down what any
//! rasterizer must do: a rendered frame is exactly four bytes per canvas
//! pixel of the current dimensions, loading points appends them, and a
//! resize replaces the dimensions before the next frame.  What the bytes of
//! a frame are is each implementation's own, stated through `render_ens`.

use vstd::prelude::*;
use crate::types::light::Light;
use crate::types::pixel::Pixel;
use crate::types::rotation::FrameRotations;
use crate::types::view_state::ViewState;

verus! {

pub trait Renderer {
    /// The implementation's well-formedness.  The defaults here say
    /// nothing; a verified implementation overrides them with its real
    /// model, an unverified host implementation leaves them be.
    open spec fn inv(&self) -> bool {
        true
    }

    /// Current canvas width in pixels.
    open spec fn width(&self) -> int {
        0
    }

    /// Current canvas height in pixels.
    open spec fn height(&self) -> int {
        0
    }

    /// The points loaded so far, in load order.
    open spec fn points(&self) -> Seq<Pixel> {
        Seq::empty()
    }

    /// What the implementation promises of a rendered frame.
    open spec fn render_ens(
        &self,
        view_state: ViewState,
        rotations: FrameRotations,
        light: Light,
        fb: Seq<u8>,
    ) -> bool {
        true
    }

    /// Render one frame: the framebuffer holds exactly four bytes for each
    /// pixel of the current canvas, and satisfies the implementation's
    /// frame contract.  The renderer's state is untouched.
    fn render(
        &mut self,
        view_state: &ViewState,
        rotations: &FrameRotations,
        light: &Light,
    ) -> (fb: Vec<u8>)
        requires
            old(self).inv(),
            view_state.wf(),
            rotations.wf(),
            light.wf(),
        ensures
            final(self).inv(),
            final(self).width() == old(self).width(),
            final(self).height() == old(self).height(),
            final(self).points() == old(self).points(),
            fb@.len() == 4 * old(self).width() * old(self).height(),
            old(self).render_ens(*view_state, *rotations, *light, fb@),
    ;

    /// Append points to the live cloud; nothing is deduplicated or removed.
    fn load_pixels(&mut self, new_pixels: Vec<Pixel>)
        requires
            old(self).inv(),
            forall|i: int| 0 <= i < new_pixels@.len() ==> new_pixels@[i].wf(),
            old(self).points().len() + new_pixels@.len() <= 0xffff_ffff,
        ensures
            final(self).inv(),
            final(self).width() == old(self).width(),
            final(self).height() == old(self).height(),
            final(self).points() == old(self).points() + new_pixels@,
    ;

    /// Replace the canvas dimensions; every per-frame buffer of the next
    /// frame is allocated at the new size.
    fn resize(&mut self, width: u32, height: u32)
        requires
            old(self).inv(),
            width <= 16384,
            height <= 16384,
        ensures
            final(self).inv(),
            final(self).width() == width,
            final(self).height() == height,
            final(self).points() == old(self).points(),
    ;
}

} // verus!
