//! Values read from a simulation's configuration.
use vstd::prelude::*;

verus! {

/// A colour given as red, green and blue channels.
#[derive(Clone, Copy, Debug, PartialEq, Eq, Structural)]
pub struct ColorRGB {
    pub r: i32,
    pub g: i32,
    pub b: i32,
}

} // verus!
