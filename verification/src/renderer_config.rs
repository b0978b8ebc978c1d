//! The renderer's configuration surface.

use vstd::prelude::*;
use crate::colour::Colour;

verus! {

/// Half pi in Q16.16, the default vertical field of view.
pub const HALF_PI_FX: i64 = 102944;

/// What a renderer is told at construction: whether to draw edges only, the
/// frame-clear colour, and the camera's vertical field of view (radians,
/// Q16.16).
#[derive(Clone, Copy, PartialEq, Eq, Structural, Debug)]
pub struct RendererConfig {
    pub wireframe: bool,
    pub clear_colour: Colour,
    pub field_of_view: i64,
}

impl RendererConfig {
    /// Filled rendering, an opaque black clear colour, and a right-angle
    /// field of view.
    pub fn default() -> (r: RendererConfig)
        ensures
            r == (RendererConfig {
                wireframe: false,
                clear_colour: Colour { r: 0u8, g: 0u8, b: 0u8, a: 255u8 },
                field_of_view: HALF_PI_FX,
            }),
    {
        RendererConfig {
            wireframe: false,
            clear_colour: Colour { r: 0, g: 0, b: 0, a: 255 },
            field_of_view: HALF_PI_FX,
        }
    }

    /// The default configuration with wireframe rendering switched on.
    pub fn default_wireframe() -> (r: RendererConfig)
        ensures
            r == (RendererConfig {
                wireframe: true,
                clear_colour: Colour { r: 0u8, g: 0u8, b: 0u8, a: 255u8 },
                field_of_view: HALF_PI_FX,
            }),
    {
        let mut config = RendererConfig::default();
        config.wireframe = true;
        config
    }
}

} // verus!
