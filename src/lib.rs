//! Gielis superformula shapes: the combinatorial part of building a
//! fan-triangulated polygon mesh from perimeter samples.

pub mod fan;
