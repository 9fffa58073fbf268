//! The lattice of cubes and the colour that each cube takes from its roots.

use vstd::prelude::*;
use crate::quadratic::{Surd, quadratic_roots, solve_quadratic};

verus! {

/// Smallest coordinate of the lattice on each axis.
pub const LATTICE_MIN: i16 = -20;

/// Number of lattice points on each axis.
pub const LATTICE_SIDE: usize = 40;

/// Number of cubes in the lattice.
pub const LATTICE_CELLS: usize = 64000;

/// Red and blue are scaled by `COLOR_ADJ_NUM / COLOR_ADJ_DEN`.
pub const COLOR_ADJ_NUM: i64 = 3;

pub const COLOR_ADJ_DEN: i64 = 2;

/// A colour whose channels are exact surds.
#[derive(Clone, Copy, Debug, PartialEq, Eq)]
pub struct CubeColor {
    pub red: Surd,
    pub green: Surd,
    pub blue: Surd,
}

/// One cube of the lattice: its position, its colour and whether it is shown.
#[derive(Clone, Copy, Debug, PartialEq, Eq)]
pub struct Cube {
    pub x: i16,
    pub y: i16,
    pub z: i16,
    pub color: CubeColor,
    pub visible: bool,
}

/// The surd with the value `n / d`.
pub open spec fn rational(n: int, d: int) -> Surd {
    Surd { base: n as i64, coef: 0, radicand: 0, denom: d as i64 }
}

/// `r` times the colour adjustment.
pub open spec fn adjusted(r: Surd) -> Surd {
    Surd {
        base: (r.base * COLOR_ADJ_NUM) as i64,
        coef: (r.coef * COLOR_ADJ_NUM) as i64,
        radicand: r.radicand,
        denom: (r.denom * COLOR_ADJ_DEN) as i64,
    }
}

/// The colour of the cube at `(a, b, c)`: red is the first root, green is one
/// when there is no second root or the roots are complex and zero otherwise,
/// blue is the second root or one; red and blue are then adjusted.
pub open spec fn color_of(a: int, b: int, c: int) -> CubeColor {
    let (first, rest) = quadratic_roots(a, b, c);
    let green = match rest {
        None => rational(1, 1),
        Some((_, complex)) => if complex { rational(1, 1) } else { rational(0, 1) },
    };
    let blue = match rest {
        None => rational(1, 1),
        Some((second, _)) => second,
    };
    CubeColor { red: adjusted(first), green, blue: adjusted(blue) }
}

/// Coordinates of the `i`-th cube: the first axis varies slowest.
pub open spec fn cell_coords(i: int) -> (int, int, int) {
    let side = LATTICE_SIDE as int;
    (
        i / (side * side) + LATTICE_MIN,
        (i / side) % side + LATTICE_MIN,
        i % side + LATTICE_MIN,
    )
}

/// The `i`-th cube of a new lattice: coloured by its roots, and shown.
pub open spec fn cell_at(i: int) -> Cube {
    let (a, b, c) = cell_coords(i);
    Cube { x: a as i16, y: b as i16, z: c as i16, color: color_of(a, b, c), visible: true }
}

fn adjust(r: Surd) -> (out: Surd)
    requires
        -0x1_0000_0000 <= r.base <= 0x1_0000_0000,
        -0x1_0000_0000 <= r.coef <= 0x1_0000_0000,
        -0x1_0000_0000 <= r.denom <= 0x1_0000_0000,
    ensures
        out == adjusted(r),
{
    Surd {
        base: r.base * COLOR_ADJ_NUM,
        coef: r.coef * COLOR_ADJ_NUM,
        radicand: r.radicand,
        denom: r.denom * COLOR_ADJ_DEN,
    }
}

/// The colour of the cube at `(a, b, c)`.
pub fn cube_color(a: i16, b: i16, c: i16) -> (r: CubeColor)
    ensures
        r == color_of(a as int, b as int, c as int),
{
    let (first, rest) = solve_quadratic(a, b, c);
    let one = Surd { base: 1, coef: 0, radicand: 0, denom: 1 };
    let zero = Surd { base: 0, coef: 0, radicand: 0, denom: 1 };
    let (green, blue) = match rest {
        None => (one, one),
        Some((second, complex)) => (if complex { one } else { zero }, second),
    };
    CubeColor { red: adjust(first), green, blue: adjust(blue) }
}

/// Builds the whole lattice: one cube for each point of
/// `[-20, 20) x [-20, 20) x [-20, 20)`, coloured by the roots of the
/// quadratic whose coefficients are its coordinates, and shown.
pub fn cube_field() -> (cubes: Vec<Cube>)
    ensures
        cubes@.len() == LATTICE_CELLS,
        forall|i: int| 0 <= i < LATTICE_CELLS ==> #[trigger] cubes@[i] == cell_at(i),
{
    let mut cubes: Vec<Cube> = Vec::new();
    let mut i: usize = 0;
    while i < LATTICE_CELLS
        invariant
            i <= LATTICE_CELLS,
            cubes@.len() == i,
            forall|j: int| 0 <= j < i ==> #[trigger] cubes@[j] == cell_at(j),
        decreases LATTICE_CELLS - i,
    {
        let a: i16 = (i / (LATTICE_SIDE * LATTICE_SIDE)) as i16 + LATTICE_MIN;
        let b: i16 = ((i / LATTICE_SIDE) % LATTICE_SIDE) as i16 + LATTICE_MIN;
        let c: i16 = (i % LATTICE_SIDE) as i16 + LATTICE_MIN;
        let cube = Cube { x: a, y: b, z: c, color: cube_color(a, b, c), visible: true };
        cubes.push(cube);
        i = i + 1;
    }
    cubes
}

} // verus!
