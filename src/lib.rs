//! Logic of a lattice of coloured cubes that can be cut away along two axes.
//!
//! Every cube of an integer lattice takes its colour from the roots of the
//! quadratic whose coefficients are the cube's coordinates. Roots are kept as
//! exact quadratic surds, so the library needs no floating point: the host
//! evaluates a surd only when it hands a colour to the renderer. Cutter
//! positions are kept in tenths of a world unit for the same reason.

pub mod camera;
pub mod cutter;
pub mod field;
pub mod quadratic;
