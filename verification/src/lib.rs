//! Host-side core of a tiled GPU relaxation solver.
//!
//! A large simulation grid is partitioned into fixed-size tiles, each
//! processed by one compute workgroup. This crate verifies the host logic:
//! how pixel dimensions derive from tile counts, how the solver's scratch
//! images are sized and allocated, and how a `step` sequences its dispatches
//! with ping-pong buffering and memory barriers. Executing the resulting
//! command plan against a real compute backend is left to unverified glue.

mod geometry;
mod solver;

pub use geometry::LOCAL_SIZE;
pub use geometry::MAX_TILES_PER_AXIS;
pub use geometry::N_DISPATCHES;
pub use geometry::STEPS_PER_DISPATCH;
pub use geometry::SimulationSize;
pub use geometry::TILE_OUTPUT_SIZE;
pub use geometry::TOTAL_STEPS;
pub use geometry::lemma_axis_pixels_fit;
pub use geometry::lemma_dims_deterministic;
pub use geometry::lemma_kernel_constants;
pub use solver::Bounds;
pub use solver::BuildPhase;
pub use solver::BuildProgress;
pub use solver::BuildRequest;
pub use solver::Builder;
pub use solver::Command;
pub use solver::Image;
pub use solver::KernelProgram;
pub use solver::LinSolve;
pub use solver::READ_BIND;
pub use solver::SCRATCH_BIND;
pub use solver::SolverError;
pub use solver::WRITE_BIND;
pub use solver::X0_BIND;
pub use solver::barrier_follows_each_dispatch;
pub use solver::binds_only_read_write;
pub use solver::dispatch_count;
pub use solver::dispatches_agree;
pub use solver::lemma_no_alloc_request_before_program;
