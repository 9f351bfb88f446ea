use vstd::prelude::*;

verus! {

/// How a material is lit: `Unlit` writes the sampled texture color as it is,
/// `Flat` shades with the triangle's face normal, `Smooth` with the
/// interpolated vertex normal.
#[derive(Clone, Copy, Debug, PartialEq, Eq, Structural)]
pub enum LightingMode {
    Flat,
    Smooth,
    Unlit,
}

} // verus!
