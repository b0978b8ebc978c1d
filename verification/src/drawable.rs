//! The capability of submitting geometry to a renderer. An implementor says
//! through its spec functions exactly which buffers each draw leaves behind,
//! and the renderer dispatches between the filled and wireframe paths.

use vstd::prelude::*;
use crate::colour::Colour;
use crate::mat4::MatS;
use crate::renderer::Renderer;
use crate::vec3::Vec3;

verus! {

pub trait Drawable: Sized {
    /// The colour and depth buffers after this value is drawn filled.
    spec fn fill_effect(
        self, colour: Seq<Colour>, depth: Seq<i64>, w: int, h: int, cam: Vec3, vp: MatS,
    ) -> (Seq<Colour>, Seq<i64>);

    /// The colour buffer after this value is drawn as wireframe; the depth
    /// buffer is untouched.
    spec fn wire_effect(self, colour: Seq<Colour>, w: int, h: int, vp: MatS) -> Seq<Colour>;

    /// The well-formedness the draws ask of the value.
    spec fn d_wf(self) -> bool;

    /// Rasterizes this value's triangles, filled, lit and depth-tested, into
    /// the renderer's buffers.
    fn draw(&self, renderer: &mut Renderer)
        requires
            old(renderer).wf(),
            self.d_wf(),
        ensures
            final(renderer).wf(),
            ({
                let eff = self.fill_effect(
                    old(renderer).colour_buffer@, old(renderer).depth_buffer@,
                    old(renderer).width as int, old(renderer).height as int,
                    old(renderer).camera.pos_s(), old(renderer).camera.vp_s());
                final(renderer).colour_buffer@ == eff.0 && final(renderer).depth_buffer@ == eff.1
            }),
            final(renderer).width == old(renderer).width,
            final(renderer).height == old(renderer).height,
            final(renderer).config == old(renderer).config,
            final(renderer).camera == old(renderer).camera,
    ;

    /// Draws this value's triangles as their three edges, unlit and without
    /// depth testing.
    fn draw_wireframe(&self, renderer: &mut Renderer)
        requires
            old(renderer).wf(),
            self.d_wf(),
        ensures
            final(renderer).wf(),
            final(renderer).colour_buffer@ == self.wire_effect(
                old(renderer).colour_buffer@,
                old(renderer).width as int, old(renderer).height as int,
                old(renderer).camera.vp_s()),
            final(renderer).depth_buffer@ == old(renderer).depth_buffer@,
            final(renderer).width == old(renderer).width,
            final(renderer).height == old(renderer).height,
            final(renderer).config == old(renderer).config,
            final(renderer).camera == old(renderer).camera,
    ;
}

} // verus!
