//! Materials define how a body reacts to impulses and friction.

use vstd::prelude::*;

verus! {

/// Density, friction and restitution are fixed-point scalars; the mass
/// of a body is its shape's area times the material's density.
#[derive(Clone, Copy, Debug)]
pub struct Material {
    pub density: i64,
    pub friction: i64,
    pub restitution: i64,
    pub name: &'static str,
}

impl Material {
    pub fn new(density: i64, friction: i64, restitution: i64, t: &'static str) -> (r: Material)
        ensures
            r.density == density,
            r.friction == friction,
            r.restitution == restitution,
            r.name == t,
    {
        Material { density, friction, restitution, name: t }
    }

    /// The stock material used when none is chosen.
    pub fn default_material() -> (r: Material)
        ensures
            r.density == 6554 && r.friction == 39322 && r.restitution == 32768,
    {
        Material { density: 6554, friction: 39322, restitution: 32768, name: "default" }
    }

    pub fn rubber() -> (r: Material)
        ensures
            r.density == 58982 && r.friction == 52429 && r.restitution == 39322,
    {
        Material { density: 58982, friction: 52429, restitution: 39322, name: "rubber" }
    }

    pub fn plastic() -> (r: Material)
        ensures
            r.density == 78643 && r.friction == 39322 && r.restitution == 32768,
    {
        Material { density: 78643, friction: 39322, restitution: 32768, name: "plastic" }
    }

    pub fn stone() -> (r: Material)
        ensures
            r.density == 163840 && r.friction == 26214 && r.restitution == 13107,
    {
        Material { density: 163840, friction: 26214, restitution: 13107, name: "stone" }
    }

    pub fn metal() -> (r: Material)
        ensures
            r.density == 511181 && r.friction == 13107 && r.restitution == 6554,
    {
        Material { density: 511181, friction: 13107, restitution: 6554, name: "metal" }
    }
}

impl Default for Material {
    fn default() -> (r: Material)
        ensures
            r.density == 6554 && r.friction == 39322 && r.restitution == 32768,
    {
        Material::default_material()
    }
}

} // verus!
