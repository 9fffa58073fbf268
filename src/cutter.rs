//! The two cutters and the cubes that they hide.
//!
//! Positions are in tenths of a world unit, so that each step of a cutter is
//! exact.

use vstd::prelude::*;
use crate::field::Cube;

verus! {

/// Lowest position of a cutter, in tenths.
pub const CUTTER_MIN: i32 = -300;

/// Highest position of a cutter, in tenths; both cutters start there.
pub const CUTTER_MAX: i32 = 300;

/// How far a cutter moves in one tick, in tenths.
pub const CUTTER_SPEED: i32 = 3;

/// The arrow keys that move the cutters.
#[derive(Clone, Copy, Debug, PartialEq, Eq)]
pub struct CutterKeys {
    /// Moves the X cutter towards higher X.
    pub left: bool,
    /// Moves the X cutter towards lower X.
    pub right: bool,
    /// Moves the Z cutter towards higher Z.
    pub up: bool,
    /// Moves the Z cutter towards lower Z.
    pub down: bool,
}

/// Positions of the X cutter and the Z cutter, in tenths.
#[derive(Clone, Copy, Debug, PartialEq, Eq)]
pub struct Cutters {
    pub x: i32,
    pub z: i32,
}

pub open spec fn in_range(p: int) -> bool {
    CUTTER_MIN <= p <= CUTTER_MAX
}

pub open spec fn clamped(p: int) -> int {
    if p < CUTTER_MIN {
        CUTTER_MIN as int
    } else if p > CUTTER_MAX {
        CUTTER_MAX as int
    } else {
        p
    }
}

pub open spec fn key_step(plus: bool, minus: bool) -> int {
    (if plus { CUTTER_SPEED as int } else { 0 }) - (if minus { CUTTER_SPEED as int } else { 0 })
}

/// Movement that the keys ask of the X cutter and of the Z cutter.
pub open spec fn delta_of(keys: CutterKeys) -> (int, int) {
    (key_step(keys.left, keys.right), key_step(keys.up, keys.down))
}

/// Whether the keys ask for no movement at all.
pub open spec fn is_still(keys: CutterKeys) -> bool {
    delta_of(keys) == (0int, 0int)
}

impl Cutters {
    /// Both positions lie in `[CUTTER_MIN, CUTTER_MAX]`.
    pub open spec fn wf(self) -> bool {
        in_range(self.x as int) && in_range(self.z as int)
    }

    /// Whether a cube at `(x, _, z)` lies beyond either cutter.
    pub open spec fn hides_spec(self, x: int, z: int) -> bool {
        10 * x > self.x || 10 * z > self.z
    }

    /// The cutters after one tick with the given keys.
    pub open spec fn ticked(self, keys: CutterKeys) -> Cutters {
        if is_still(keys) {
            self
        } else {
            let (dx, dz) = delta_of(keys);
            Cutters { x: clamped(self.x + dx) as i32, z: clamped(self.z + dz) as i32 }
        }
    }

    /// The cutters after `n` ticks with the same keys.
    pub open spec fn ticked_n(self, keys: CutterKeys, n: nat) -> Cutters
        decreases n,
    {
        if n == 0 {
            self
        } else {
            self.ticked_n(keys, (n - 1) as nat).ticked(keys)
        }
    }

    /// Both cutters at their starting position.
    pub fn new() -> (r: Cutters)
        ensures
            r.x == CUTTER_MAX,
            r.z == CUTTER_MAX,
            r.wf(),
    {
        Cutters { x: CUTTER_MAX, z: CUTTER_MAX }
    }

    /// Whether a cube at `(x, _, z)` is hidden: its X lies beyond the X
    /// cutter or its Z beyond the Z cutter. A cube level with a cutter stays.
    pub fn hides(&self, x: i16, z: i16) -> (r: bool)
        ensures
            r == self.hides_spec(x as int, z as int),
    {
        10 * (x as i64) > self.x as i64 || 10 * (z as i64) > self.z as i64
    }
}

fn clamp_position(p: i32) -> (r: i32)
    ensures
        r == clamped(p as int),
{
    if p < CUTTER_MIN {
        CUTTER_MIN
    } else if p > CUTTER_MAX {
        CUTTER_MAX
    } else {
        p
    }
}

/// Movement that the keys ask of the X cutter and of the Z cutter, in tenths.
pub fn cutter_delta(keys: CutterKeys) -> (r: (i32, i32))
    ensures
        (r.0 as int, r.1 as int) == delta_of(keys),
{
    let mut dx: i32 = 0;
    let mut dz: i32 = 0;
    if keys.left {
        dx = dx + CUTTER_SPEED;
    }
    if keys.right {
        dx = dx - CUTTER_SPEED;
    }
    if keys.up {
        dz = dz + CUTTER_SPEED;
    }
    if keys.down {
        dz = dz - CUTTER_SPEED;
    }
    (dx, dz)
}

/// Shows each cube that the cutters leave and hides each that they cut away.
pub fn update_visibility(cutters: &Cutters, cubes: &mut Vec<Cube>)
    ensures
        final(cubes)@.len() == old(cubes)@.len(),
        forall|i: int|
            0 <= i < old(cubes)@.len() ==> #[trigger] final(cubes)@[i] == (Cube {
                visible: !cutters.hides_spec(old(cubes)@[i].x as int, old(cubes)@[i].z as int),
                ..old(cubes)@[i]
            }),
{
    let n = cubes.len();
    let mut i: usize = 0;
    while i < n
        invariant
            n == old(cubes)@.len(),
            i <= n,
            cubes@.len() == n,
            forall|j: int|
                0 <= j < i ==> #[trigger] cubes@[j] == (Cube {
                    visible: !cutters.hides_spec(old(cubes)@[j].x as int, old(cubes)@[j].z as int),
                    ..old(cubes)@[j]
                }),
            forall|j: int| i <= j < n ==> #[trigger] cubes@[j] == old(cubes)@[j],
        decreases n - i,
    {
        let mut cube = cubes[i];
        cube.visible = !cutters.hides(cube.x, cube.z);
        cubes.set(i, cube);
        i = i + 1;
    }
}

/// One tick of the cutters. When the keys ask for no movement nothing
/// changes and `false` comes back. Otherwise each cutter moves by its delta,
/// held to `[CUTTER_MIN, CUTTER_MAX]`, every cube is shown or hidden anew by
/// the new positions, and `true` comes back.
pub fn move_cutter(cutters: &mut Cutters, keys: CutterKeys, cubes: &mut Vec<Cube>) -> (moved: bool)
    requires
        old(cutters).wf(),
    ensures
        moved == !is_still(keys),
        *final(cutters) == old(cutters).ticked(keys),
        final(cutters).wf(),
        final(cubes)@.len() == old(cubes)@.len(),
        !moved ==> final(cubes)@ == old(cubes)@,
        moved ==> forall|i: int|
            0 <= i < old(cubes)@.len() ==> #[trigger] final(cubes)@[i] == (Cube {
                visible: !final(cutters).hides_spec(old(cubes)@[i].x as int, old(cubes)@[i].z as int),
                ..old(cubes)@[i]
            }),
{
    let (dx, dz) = cutter_delta(keys);
    if dx == 0 && dz == 0 {
        return false;
    }
    cutters.x = clamp_position(cutters.x + dx);
    cutters.z = clamp_position(cutters.z + dz);
    update_visibility(cutters, cubes);
    true
}

/// However many ticks pass, and with whatever keys, cutters that start in
/// range stay in range: neither ever goes below `CUTTER_MIN` or above
/// `CUTTER_MAX`.
pub proof fn lemma_cutters_stay_in_range(cutters: Cutters, keys: CutterKeys, n: nat)
    requires
        cutters.wf(),
    ensures
        cutters.ticked_n(keys, n).wf(),
    decreases n,
{
    if n > 0 {
        lemma_cutters_stay_in_range(cutters, keys, (n - 1) as nat);
    }
}

/// A tick whose keys ask for no movement leaves both cutters where they were.
pub proof fn lemma_still_tick_changes_nothing(cutters: Cutters, keys: CutterKeys)
    requires
        is_still(keys),
    ensures
        cutters.ticked(keys) == cutters,
{
}

} // verus!
