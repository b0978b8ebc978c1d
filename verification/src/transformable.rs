//! The capability of composing translations, rotations and scalings onto an
//! owned transform. Each implementor says through its spec functions exactly
//! which value each mutation leaves behind.

use vstd::prelude::*;
use crate::vec3::{Vec3, WORLD_LIMIT};

verus! {

pub trait Transformable: Sized {
    /// The value this one becomes under `translate`.
    spec fn after_translate(self, delta: Vec3) -> Self;

    /// The value this one becomes under `rotate`.
    spec fn after_rotate(self, x: i64, y: i64, z: i64) -> Self;

    /// The value this one becomes under `scale`.
    spec fn after_scale(self, factor: i64) -> Self;

    /// The well-formedness the operations keep.
    spec fn t_wf(self) -> bool;

    /// Composes a translation by `delta` onto the owned transform.
    fn translate(&mut self, delta: Vec3)
        requires
            old(self).t_wf(),
            delta.within(WORLD_LIMIT as int),
        ensures
            *final(self) == old(self).after_translate(delta),
            final(self).t_wf(),
    ;

    /// Composes a rotation by Euler angles (radians, Q16.16) about the x, y
    /// and z axes, combined into one rotation, onto the owned transform.
    fn rotate(&mut self, x: i64, y: i64, z: i64)
        requires
            old(self).t_wf(),
        ensures
            *final(self) == old(self).after_rotate(x, y, z),
            final(self).t_wf(),
    ;

    /// Composes a uniform scaling by `factor` onto the owned transform.
    fn scale(&mut self, factor: i64)
        requires
            old(self).t_wf(),
        ensures
            *final(self) == old(self).after_scale(factor),
            final(self).t_wf(),
    ;
}

} // verus!
