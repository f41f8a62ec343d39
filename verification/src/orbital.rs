//! How the position of a body is computed: the VSOP87 planetary solutions and
//! the orbit description of the body table.
use vstd::prelude::*;

verus! {

/// Identifies which VSOP87A planetary solution to use for position computation.
#[derive(Clone, Copy, Debug, PartialEq, Eq, Structural)]
pub enum Vsop87Body {
    Mercury,
    Venus,
    Earth,
    Moon,
    Mars,
    Jupiter,
    Saturn,
    Uranus,
    Neptune,
}

/// How a body of the body table moves, with its parameters in fixed point.
#[derive(Clone, Copy, Debug, PartialEq, Eq, Structural)]
pub enum OrbitDef {
    /// The body sits permanently at the origin of its parent (the Sun at the scene origin).
    Fixed,
    /// Circular orbit in the parent's XZ plane: radius in thousandths of a
    /// scene unit, angular velocity in nanoradians per second.
    Parametric { radius_milli: u32, angular_velocity_nano: u32 },
    /// Heliocentric position from the VSOP87A theory.
    Vsop87 { body: Vsop87Body },
}

} // verus!
