//! Simulation geometry: tile counts and the pixel dimensions derived from
//! them.
//!
//! The kernel processes the grid in square tiles of `LOCAL_SIZE` invocations
//! per side, but each dispatch consumes `STEPS_PER_DISPATCH` rows of halo on
//! every edge, so a tile contributes only a `TILE_OUTPUT_SIZE`-wide interior
//! strip to the converged field. Every buffer's pixel dimensions follow from
//! the tile counts through `dims`, which is the single source of truth for
//! them.

use vstd::prelude::*;

verus! {

/// Side length, in invocations, of one compute workgroup along X and Y.
/// Must match the constant compiled into the kernel source.
pub const LOCAL_SIZE: usize = 32;

/// Relaxation sweeps a single dispatch performs inside one workgroup.
/// Must match the constant compiled into the kernel source.
pub const STEPS_PER_DISPATCH: usize = 5;

/// Compute dispatches issued by one call of `step`.
pub const N_DISPATCHES: usize = 4;

/// Total relaxation sweeps one call of `step` performs.
pub const TOTAL_STEPS: usize = STEPS_PER_DISPATCH * N_DISPATCHES;

/// Width of the interior strip each tile hands on after the halo rows
/// consumed by its sweeps are discarded.
pub const TILE_OUTPUT_SIZE: usize = LOCAL_SIZE - STEPS_PER_DISPATCH * 2;

/// Largest tile count along one axis: the workgroup scratch image is
/// `tiles * LOCAL_SIZE` pixels wide, and the backend takes image dimensions
/// as signed 32-bit values.
pub const MAX_TILES_PER_AXIS: usize = 0x7fff_ffff / LOCAL_SIZE;

/// Simulation dimensions, stored as tile counts; pixel dimensions are
/// derived from the solver's tile constants.
#[derive(Copy, Clone, Debug, PartialEq, Eq, Structural)]
pub struct SimulationSize {
    pub x_tiles: usize,
    pub y_tiles: usize,
}

impl SimulationSize {
    /// Tile counts a solver can be built for: at least one tile per axis,
    /// and few enough that every derived pixel dimension fits the backend's
    /// signed 32-bit size parameters.
    pub open spec fn valid_tiles(x_tiles: usize, y_tiles: usize) -> bool {
        &&& 1 <= x_tiles
        &&& 1 <= y_tiles
        &&& x_tiles <= MAX_TILES_PER_AXIS
        &&& y_tiles <= MAX_TILES_PER_AXIS
    }

    pub open spec fn wf(self) -> bool {
        Self::valid_tiles(self.x_tiles, self.y_tiles)
    }

    /// Width in pixels of the simulation volume.
    pub open spec fn spec_width(self) -> int {
        self.x_tiles * TILE_OUTPUT_SIZE
    }

    /// Height in pixels of the simulation volume.
    pub open spec fn spec_height(self) -> int {
        self.y_tiles * TILE_OUTPUT_SIZE
    }

    /// Construct a geometry from tile counts, rejecting counts no solver
    /// can be built for.
    pub fn from_tiles(x_tiles: usize, y_tiles: usize) -> (r: Option<SimulationSize>)
        ensures
            r is Some <==> Self::valid_tiles(x_tiles, y_tiles),
            r matches Some(s) ==> s.x_tiles == x_tiles && s.y_tiles == y_tiles && s.wf(),
    {
        if 1 <= x_tiles && x_tiles <= MAX_TILES_PER_AXIS && 1 <= y_tiles
            && y_tiles <= MAX_TILES_PER_AXIS {
            Some(SimulationSize { x_tiles, y_tiles })
        } else {
            None
        }
    }

    /// Calculate the dimensions of the simulation volume (including
    /// boundaries): each axis is the tile count times `TILE_OUTPUT_SIZE`.
    pub fn dims(&self) -> (r: (usize, usize))
        requires
            self.wf(),
        ensures
            r.0 == self.spec_width(),
            r.1 == self.spec_height(),
    {
        proof {
            lemma_axis_pixels_fit(self.x_tiles);
            lemma_axis_pixels_fit(self.y_tiles);
        }
        (self.x_tiles * TILE_OUTPUT_SIZE, self.y_tiles * TILE_OUTPUT_SIZE)
    }
}

/// An axis within `MAX_TILES_PER_AXIS` derives pixel counts that fit the
/// backend's signed 32-bit size parameters, for the workgroup scratch and
/// hence for every smaller buffer.
pub proof fn lemma_axis_pixels_fit(tiles: usize)
    requires
        tiles <= MAX_TILES_PER_AXIS,
    ensures
        tiles * TILE_OUTPUT_SIZE <= tiles * LOCAL_SIZE,
        tiles * LOCAL_SIZE <= 0x7fff_ffff,
{
    vstd::arithmetic::mul::lemma_mul_inequality(
        TILE_OUTPUT_SIZE as int,
        LOCAL_SIZE as int,
        tiles as int,
    );
    vstd::arithmetic::mul::lemma_mul_inequality(
        tiles as int,
        MAX_TILES_PER_AXIS as int,
        LOCAL_SIZE as int,
    );
    assert(MAX_TILES_PER_AXIS * LOCAL_SIZE <= 0x7fff_ffff);
}

/// The constants the host sequencing logic shares with the kernel source:
/// a 32-wide workgroup running 5 sweeps per dispatch leaves a 22-wide
/// interior strip, and 4 dispatches perform exactly 20 sweeps in all,
/// whatever the geometry.
pub proof fn lemma_kernel_constants()
    ensures
        LOCAL_SIZE == 32,
        STEPS_PER_DISPATCH == 5,
        N_DISPATCHES == 4,
        TILE_OUTPUT_SIZE == LOCAL_SIZE - STEPS_PER_DISPATCH * 2,
        TILE_OUTPUT_SIZE == 22,
        TOTAL_STEPS == STEPS_PER_DISPATCH * N_DISPATCHES,
        TOTAL_STEPS == 20,
{
}

/// Deriving dimensions is a pure function of the geometry: any two results
/// that meet the contract of `dims` for the same `SimulationSize` are
/// identical.
pub proof fn lemma_dims_deterministic(s: SimulationSize, r1: (usize, usize), r2: (usize, usize))
    requires
        r1.0 == s.spec_width(),
        r1.1 == s.spec_height(),
        r2.0 == s.spec_width(),
        r2.1 == s.spec_height(),
    ensures
        r1 == r2,
{
}

} // verus!
