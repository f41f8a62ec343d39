//! Astronomore: the verified core of a real-time solar-system viewer.
//!
//! The library holds the parts of the viewer that are plain logic: the
//! calendar arithmetic that maps dates to Julian day numbers and back, the
//! table of solar-system bodies, the body hierarchy of a scene, view toggles,
//! keyboard dispatch, mesh index and grid generation, the date field parser
//! and WGSL shader validation.
use vstd::prelude::*;

pub mod calendar;
pub mod orbital;
pub mod planets;
pub mod scene;
pub mod view;
pub mod input;
pub mod mesh;
pub mod grid;
pub mod frame;
pub mod date_input;
pub mod shader;
pub mod texture;
pub mod surface;

verus! {

} // verus!
