//! The tiled relaxation solver's host logic.
//!
//! The solver owns a compiled kernel and two scratch images and exposes one
//! `step` operation. Because every call into the compute backend is foreign
//! to this crate, the solver is split along that boundary: this module
//! decides everything — which resources construction must create and in
//! what order, and the exact sequence of bind, dispatch and barrier
//! commands a `step` issues — while an unverified driver merely performs
//! each decision against the real backend and reports the outcome back.

use vstd::prelude::*;

use crate::geometry::LOCAL_SIZE;
use crate::geometry::N_DISPATCHES;
use crate::geometry::SimulationSize;
use crate::geometry::TILE_OUTPUT_SIZE;

verus! {

/// Image slot the fixed right-hand-side field `x0` stays bound to.
pub const X0_BIND: u32 = 0;

/// Image slot each dispatch reads its source field from.
pub const READ_BIND: u32 = 1;

/// Image slot each dispatch writes its destination field to.
pub const WRITE_BIND: u32 = 2;

/// Image slot the per-workgroup halo scratch stays bound to.
pub const SCRATCH_BIND: u32 = 3;

/// Boundary condition settings: how the kernel mirrors or negates values
/// just outside the grid, applied identically on every sweep.
#[derive(Copy, Clone, Debug, PartialEq, Eq, Structural)]
pub enum Bounds {
    Positive,
    NegX,
    NegY,
}

impl Bounds {
    /// The integer code the kernel receives for this boundary condition.
    pub open spec fn spec_code(self) -> i32 {
        match self {
            Bounds::Positive => 0,
            Bounds::NegX => 1,
            Bounds::NegY => 2,
        }
    }

    /// Encode the boundary condition for the kernel.
    pub fn code(&self) -> (r: i32)
        ensures
            r == self.spec_code(),
    {
        match self {
            Bounds::Positive => 0,
            Bounds::NegX => 1,
            Bounds::NegY => 2,
        }
    }
}

/// A GPU-resident 2D single-channel float image, as the host logic sees
/// it: the backend's numeric name for it and its pixel dimensions.
#[derive(Copy, Clone, Debug, PartialEq, Eq, Structural)]
pub struct Image {
    pub id: u32,
    pub width: usize,
    pub height: usize,
}

/// A compiled and linked compute kernel, by its backend name.
#[derive(Copy, Clone, Debug, PartialEq, Eq, Structural)]
pub struct KernelProgram {
    pub id: u32,
}

/// Why constructing or stepping the solver failed.
#[derive(Clone, Debug, PartialEq, Eq)]
pub enum SolverError {
    /// The kernel program failed to compile or link; carries the backend's
    /// diagnostic text.
    CompileError(String),
    /// The backend could not create an image; carries its diagnostic text.
    AllocError(String),
    /// An image's dimensions do not match what the geometry requires.
    ShapeMismatch,
}

/// The one resource the builder asks the backend for next.
#[derive(Copy, Clone, Debug, PartialEq, Eq, Structural)]
pub enum BuildRequest {
    /// Compile and link the relaxation kernel from its source.
    CompileKernel,
    /// Create a 2D single-channel float image of the given dimensions.
    CreateImage { width: usize, height: usize },
}

/// How far construction has come, carrying the resources received so far.
#[derive(Copy, Clone, Debug, PartialEq, Eq, Structural)]
pub enum BuildPhase {
    /// Nothing created yet; the kernel must compile first.
    NeedProgram,
    /// The kernel compiled; the workgroup halo scratch image is next.
    NeedWgScratch { program: KernelProgram },
    /// Scratch for the halos exists; the simulation-sized scratch is last.
    NeedSimScratch { program: KernelProgram, wg_scratch: Image },
}

/// Step-by-step construction of a solver.
///
/// Construction needs three backend resources — the compiled kernel, the
/// workgroup scratch image and the simulation scratch image — and must
/// create them in that order, so that a failed compilation allocates no
/// image at all. The builder sequences this: `request` names the next
/// resource, the driver creates it, and `supply_program` / `supply_image`
/// take the outcome, either advancing the build or reporting the error.
#[derive(Copy, Clone, Debug, PartialEq, Eq, Structural)]
pub struct Builder {
    pub size: SimulationSize,
    pub phase: BuildPhase,
}

impl Builder {
    /// Every image received so far has the dimensions it was requested
    /// with, so the finished solver's scratch sizes are right.
    pub open spec fn wf(self) -> bool {
        &&& self.size.wf()
        &&& (self.phase matches BuildPhase::NeedSimScratch { wg_scratch, .. } ==> {
            &&& wg_scratch.width == self.size.x_tiles * LOCAL_SIZE
            &&& wg_scratch.height == self.size.y_tiles * LOCAL_SIZE
        })
    }

    /// The resource the builder asks for in its current phase.
    pub open spec fn spec_request(self) -> BuildRequest {
        match self.phase {
            BuildPhase::NeedProgram => BuildRequest::CompileKernel,
            BuildPhase::NeedWgScratch { .. } => BuildRequest::CreateImage {
                width: (self.size.x_tiles * LOCAL_SIZE) as usize,
                height: (self.size.y_tiles * LOCAL_SIZE) as usize,
            },
            BuildPhase::NeedSimScratch { .. } => BuildRequest::CreateImage {
                width: (self.size.x_tiles * TILE_OUTPUT_SIZE) as usize,
                height: (self.size.y_tiles * TILE_OUTPUT_SIZE) as usize,
            },
        }
    }

    /// Begin constructing a solver for the given geometry.
    pub fn new(size: SimulationSize) -> (r: Builder)
        requires
            size.wf(),
        ensures
            r.size == size,
            r.phase is NeedProgram,
            r.wf(),
    {
        Builder { size, phase: BuildPhase::NeedProgram }
    }

    /// Name the next resource the backend must create.
    pub fn request(&self) -> (r: BuildRequest)
        requires
            self.wf(),
        ensures
            r == self.spec_request(),
    {
        proof {
            crate::geometry::lemma_axis_pixels_fit(self.size.x_tiles);
            crate::geometry::lemma_axis_pixels_fit(self.size.y_tiles);
        }
        match self.phase {
            BuildPhase::NeedProgram => BuildRequest::CompileKernel,
            BuildPhase::NeedWgScratch { .. } => BuildRequest::CreateImage {
                width: self.size.x_tiles * LOCAL_SIZE,
                height: self.size.y_tiles * LOCAL_SIZE,
            },
            BuildPhase::NeedSimScratch { .. } => {
                let (width, height) = self.size.dims();
                BuildRequest::CreateImage { width, height }
            },
        }
    }

    /// Take the outcome of compiling the kernel. A compilation failure ends
    /// the build as a `CompileError` carrying the backend's diagnostic
    /// text, before any image was requested.
    pub fn supply_program(self, outcome: Result<KernelProgram, String>) -> (r: Result<
        Builder,
        SolverError,
    >)
        requires
            self.wf(),
            self.phase is NeedProgram,
        ensures
            outcome matches Ok(p) ==> ({
                &&& r matches Ok(b)
                &&& b.size == self.size
                &&& b.wf()
                &&& b.phase matches BuildPhase::NeedWgScratch { program } && program == p
            }),
            outcome matches Err(log) ==> ({
                &&& r matches Err(e)
                &&& e matches SolverError::CompileError(m) && m@ == log@
            }),
    {
        match outcome {
            Ok(program) => Ok(
                Builder { size: self.size, phase: BuildPhase::NeedWgScratch { program } },
            ),
            Err(log) => Err(SolverError::CompileError(log)),
        }
    }

    /// Take the outcome of creating the image last requested. A creation
    /// failure ends the build as an `AllocError`; an image that does not
    /// have the requested dimensions ends it as a `ShapeMismatch`.
    pub fn supply_image(self, outcome: Result<Image, String>) -> (r: Result<
        BuildProgress,
        SolverError,
    >)
        requires
            self.wf(),
            !(self.phase is NeedProgram),
        ensures
            outcome matches Err(log) ==> ({
                &&& r matches Err(e)
                &&& e matches SolverError::AllocError(m) && m@ == log@
            }),
            outcome matches Ok(img) ==> (!self.spec_accepts(img) ==> r matches Err(
                SolverError::ShapeMismatch,
            )),
            outcome matches Ok(img) ==> (self.spec_accepts(img) ==> (self.phase matches
                BuildPhase::NeedWgScratch { program } ==> ({
                &&& r matches Ok(BuildProgress::InProgress(b))
                &&& b.size == self.size
                &&& b.wf()
                &&& b.phase matches BuildPhase::NeedSimScratch { program: p, wg_scratch }
                &&& p == program
                &&& wg_scratch == img
            }))),
            outcome matches Ok(img) ==> (self.spec_accepts(img) ==> (self.phase matches
                BuildPhase::NeedSimScratch { program, wg_scratch } ==> ({
                &&& r matches Ok(BuildProgress::Done(s))
                &&& s.size == self.size
                &&& s.program == program
                &&& s.wg_scratch == wg_scratch
                &&& s.sim_scratch == img
                &&& s.wf()
            }))),
    {
        proof {
            crate::geometry::lemma_axis_pixels_fit(self.size.x_tiles);
            crate::geometry::lemma_axis_pixels_fit(self.size.y_tiles);
        }
        match outcome {
            Err(log) => Err(SolverError::AllocError(log)),
            Ok(img) => {
                let accepted = match self.request() {
                    BuildRequest::CreateImage { width, height } => img.width == width
                        && img.height == height,
                    BuildRequest::CompileKernel => false,
                };
                if !accepted {
                    Err(SolverError::ShapeMismatch)
                } else {
                    match self.phase {
                        BuildPhase::NeedProgram => Err(SolverError::ShapeMismatch),
                        BuildPhase::NeedWgScratch { program } => Ok(
                            BuildProgress::InProgress(
                                Builder {
                                    size: self.size,
                                    phase: BuildPhase::NeedSimScratch { program, wg_scratch: img },
                                },
                            ),
                        ),
                        BuildPhase::NeedSimScratch { program, wg_scratch } => Ok(
                            BuildProgress::Done(
                                LinSolve {
                                    sim_scratch: img,
                                    wg_scratch,
                                    program,
                                    size: self.size,
                                },
                            ),
                        ),
                    }
                }
            },
        }
    }

    /// Whether a created image has the dimensions the current phase asked
    /// for.
    pub open spec fn spec_accepts(self, img: Image) -> bool {
        self.spec_request() matches BuildRequest::CreateImage { width, height } && img.width
            == width && img.height == height
    }
}

/// What taking one image outcome led to: a builder still owed a resource,
/// or the finished solver.
#[derive(Copy, Clone, Debug, PartialEq, Eq, Structural)]
pub enum BuildProgress {
    InProgress(Builder),
    Done(LinSolve),
}

/// A builder that has not yet received a compiled kernel asks only for the
/// compilation: no image is ever requested — let alone allocated — before
/// the kernel compiled.
pub proof fn lemma_no_alloc_request_before_program(b: Builder)
    requires
        b.phase is NeedProgram,
    ensures
        b.spec_request() is CompileKernel,
{
}

/// The tiled relaxation solver: its geometry, its compiled kernel, and the
/// two scratch images allocated once at construction and reused by every
/// `step`.
#[derive(Copy, Clone, Debug, PartialEq, Eq, Structural)]
pub struct LinSolve {
    /// Scratch space used in-between dispatches, sized to the simulation.
    pub sim_scratch: Image,
    /// Scratch space used during a dispatch for per-tile halos; one full
    /// `LOCAL_SIZE` square per tile, so larger than the simulation.
    pub wg_scratch: Image,
    pub program: KernelProgram,
    pub size: SimulationSize,
}

/// One backend command of a `step`, in the order the driver must perform
/// them.
#[derive(Copy, Clone, Debug, PartialEq, Eq, Structural)]
pub enum Command {
    /// Bind the image to the numbered slot.
    BindImage { slot: u32, image: Image },
    /// Run the kernel over one workgroup per tile, under the given
    /// boundary condition.
    Dispatch { groups_x: u32, groups_y: u32, groups_z: u32, boundary: Bounds },
    /// Make the preceding dispatch's writes visible before any later
    /// dispatch reads them.
    MemoryBarrier,
}

impl LinSolve {
    /// The scratch images have the dimensions the kernel assumes for this
    /// geometry; they must never be reallocated mid-run.
    pub open spec fn wf(self) -> bool {
        &&& self.size.wf()
        &&& self.wg_scratch.width == self.size.x_tiles * LOCAL_SIZE
        &&& self.wg_scratch.height == self.size.y_tiles * LOCAL_SIZE
        &&& self.sim_scratch.width == self.size.x_tiles * TILE_OUTPUT_SIZE
        &&& self.sim_scratch.height == self.size.y_tiles * TILE_OUTPUT_SIZE
    }

    /// The image dispatch `i` reads: the caller's field on even dispatches,
    /// the solver's simulation scratch on odd ones.
    pub open spec fn read_source(self, x: Image, i: int) -> Image {
        if i % 2 == 0 {
            x
        } else {
            self.sim_scratch
        }
    }

    /// The image dispatch `i` writes: the counterpart of what it reads.
    pub open spec fn write_target(self, x: Image, i: int) -> Image {
        if i % 2 == 0 {
            self.sim_scratch
        } else {
            x
        }
    }

    /// The two bindings every dispatch of a `step` shares: the fixed
    /// right-hand side `x0`, and the per-workgroup halo scratch.
    pub open spec fn shared_bindings(self, x0: Image) -> Seq<Command> {
        seq![
            Command::BindImage { slot: X0_BIND, image: x0 },
            Command::BindImage { slot: SCRATCH_BIND, image: self.wg_scratch },
        ]
    }

    /// The commands of dispatch `i`: bind its source and destination, run
    /// one workgroup per tile, then a memory barrier.
    pub open spec fn dispatch_round(self, b: Bounds, x: Image, i: int) -> Seq<Command> {
        seq![
            Command::BindImage { slot: READ_BIND, image: self.read_source(x, i) },
            Command::BindImage { slot: WRITE_BIND, image: self.write_target(x, i) },
            Command::Dispatch {
                groups_x: self.size.x_tiles as u32,
                groups_y: self.size.y_tiles as u32,
                groups_z: 1,
                boundary: b,
            },
            Command::MemoryBarrier,
        ]
    }

    /// The first `n` dispatch rounds, in order.
    pub open spec fn rounds(self, b: Bounds, x: Image, n: int) -> Seq<Command>
        decreases n,
    {
        if n <= 0 {
            Seq::empty()
        } else {
            self.rounds(b, x, n - 1) + self.dispatch_round(b, x, n - 1)
        }
    }

    /// The full command sequence of one `step`: the shared bindings, then
    /// every dispatch round.
    pub open spec fn step_plan(self, b: Bounds, x: Image, x0: Image) -> Seq<Command> {
        self.shared_bindings(x0) + self.rounds(b, x, N_DISPATCHES as int)
    }

    /// The image holding the converged field once the plan ran: the target
    /// of the last dispatch's write.
    pub open spec fn result_image(self, x: Image) -> Image {
        self.write_target(x, N_DISPATCHES - 1)
    }

    /// Whether an image has this solver's simulation dimensions.
    pub open spec fn spec_shape_ok(self, img: Image) -> bool {
        img.width == self.size.spec_width() && img.height == self.size.spec_height()
    }

    /// Solve the given system: lay out the fixed sequence of dispatches
    /// whose execution converges the field, and name the image that will
    /// hold the result — which need not be either of the two supplied
    /// images. Fields whose dimensions do not match the solver's geometry
    /// are rejected as a `ShapeMismatch`.
    pub fn step(&self, b: Bounds, x: Image, x0: Image) -> (r: Result<
        (Vec<Command>, Image),
        SolverError,
    >)
        requires
            self.wf(),
        ensures
            r is Ok <==> self.spec_shape_ok(x) && self.spec_shape_ok(x0),
            r matches Ok((plan, out)) ==> plan@ == self.step_plan(b, x, x0) && out
                == self.result_image(x),
            r is Err ==> r matches Err(SolverError::ShapeMismatch),
    {
        let (width, height) = self.size.dims();
        if x.width != width || x.height != height || x0.width != width || x0.height != height {
            return Err(SolverError::ShapeMismatch);
        }

        let mut plan: Vec<Command> = Vec::new();
        plan.push(Command::BindImage { slot: X0_BIND, image: x0 });
        plan.push(Command::BindImage { slot: SCRATCH_BIND, image: self.wg_scratch });
        assert(plan@ =~= self.shared_bindings(x0) + self.rounds(b, x, 0));

        let mut write_image = x;
        let mut i: usize = 0;
        while i < N_DISPATCHES
            invariant
                self.wf(),
                i <= N_DISPATCHES,
                plan@ == self.shared_bindings(x0) + self.rounds(b, x, i as int),
                i > 0 ==> write_image == self.write_target(x, i as int - 1),
            decreases N_DISPATCHES - i,
        {
            let read_image: Image;
            if i % 2 == 0 {
                read_image = x;
                write_image = self.sim_scratch;
            } else {
                read_image = self.sim_scratch;
                write_image = x;
            }
            plan.push(Command::BindImage { slot: READ_BIND, image: read_image });
            plan.push(Command::BindImage { slot: WRITE_BIND, image: write_image });
            plan.push(
                Command::Dispatch {
                    groups_x: self.size.x_tiles as u32,
                    groups_y: self.size.y_tiles as u32,
                    groups_z: 1,
                    boundary: b,
                },
            );
            plan.push(Command::MemoryBarrier);
            assert(plan@ =~= self.shared_bindings(x0) + self.rounds(b, x, i as int + 1));
            i = i + 1;
        }

        Ok((plan, write_image))
    }
}

/// Every dispatch in the sequence is immediately followed by a memory
/// barrier, so no later dispatch may read a tile boundary before the write
/// that produced it is visible.
pub open spec fn barrier_follows_each_dispatch(s: Seq<Command>) -> bool {
    forall|j: int|
        0 <= j < s.len() ==> ((#[trigger] s[j]) is Dispatch ==> j + 1 < s.len() && s[j + 1]
            is MemoryBarrier)
}

/// Every dispatch in the sequence runs one workgroup per tile of the given
/// grid, under the same boundary condition.
pub open spec fn dispatches_agree(s: Seq<Command>, b: Bounds, gx: u32, gy: u32) -> bool {
    forall|j: int|
        0 <= j < s.len() ==> ((#[trigger] s[j]) is Dispatch ==> s[j]->boundary == b
            && s[j]->groups_x == gx && s[j]->groups_y == gy && s[j]->groups_z == 1)
}

/// Every image binding in the sequence uses the read slot or the write
/// slot, so whatever was bound to the other slots stays bound.
pub open spec fn binds_only_read_write(s: Seq<Command>) -> bool {
    forall|j: int|
        0 <= j < s.len() ==> ((#[trigger] s[j]) is BindImage ==> s[j]->slot == READ_BIND
            || s[j]->slot == WRITE_BIND)
}

/// How many dispatches a command sequence contains.
pub open spec fn dispatch_count(s: Seq<Command>) -> int
    decreases s.len(),
{
    if s.len() == 0 {
        0
    } else {
        dispatch_count(s.drop_last()) + if s.last() is Dispatch {
            1int
        } else {
            0int
        }
    }
}

proof fn lemma_barrier_concat(a: Seq<Command>, c: Seq<Command>)
    requires
        barrier_follows_each_dispatch(a),
        barrier_follows_each_dispatch(c),
    ensures
        barrier_follows_each_dispatch(a + c),
{
    assert forall|j: int| 0 <= j < (a + c).len() && (#[trigger] (a + c)[j]) is Dispatch implies j
        + 1 < (a + c).len() && (a + c)[j + 1] is MemoryBarrier by {
        if j < a.len() {
            assert(a[j] is Dispatch);
            assert((a + c)[j + 1] == a[j + 1]);
        } else {
            assert(c[j - a.len()] is Dispatch);
            assert((a + c)[j + 1] == c[j + 1 - a.len()]);
        }
    }
}

proof fn lemma_agree_concat(a: Seq<Command>, c: Seq<Command>, b: Bounds, gx: u32, gy: u32)
    requires
        dispatches_agree(a, b, gx, gy),
        dispatches_agree(c, b, gx, gy),
    ensures
        dispatches_agree(a + c, b, gx, gy),
{
    assert forall|j: int| 0 <= j < (a + c).len() && (#[trigger] (a + c)[j]) is Dispatch implies (a
        + c)[j]->boundary == b && (a + c)[j]->groups_x == gx && (a + c)[j]->groups_y == gy && (a
        + c)[j]->groups_z == 1 by {
        if j < a.len() {
            assert(a[j] is Dispatch);
        } else {
            assert(c[j - a.len()] is Dispatch);
        }
    }
}

proof fn lemma_binds_concat(a: Seq<Command>, c: Seq<Command>)
    requires
        binds_only_read_write(a),
        binds_only_read_write(c),
    ensures
        binds_only_read_write(a + c),
{
    assert forall|j: int| 0 <= j < (a + c).len() && (#[trigger] (a + c)[j]) is BindImage implies (a
        + c)[j]->slot == READ_BIND || (a + c)[j]->slot == WRITE_BIND by {
        if j < a.len() {
            assert(a[j] == (a + c)[j]);
        } else {
            assert(c[j - a.len()] == (a + c)[j]);
        }
    }
}

proof fn lemma_dispatch_count_concat(a: Seq<Command>, c: Seq<Command>)
    ensures
        dispatch_count(a + c) == dispatch_count(a) + dispatch_count(c),
    decreases c.len(),
{
    if c.len() == 0 {
        assert(a + c =~= a);
    } else {
        lemma_dispatch_count_concat(a, c.drop_last());
        assert((a + c).drop_last() =~= a + c.drop_last());
        assert((a + c).last() == c.last());
    }
}

impl LinSolve {
    proof fn lemma_round_shape(self, b: Bounds, x: Image, i: int)
        ensures
            barrier_follows_each_dispatch(self.dispatch_round(b, x, i)),
            dispatches_agree(
                self.dispatch_round(b, x, i),
                b,
                self.size.x_tiles as u32,
                self.size.y_tiles as u32,
            ),
            dispatch_count(self.dispatch_round(b, x, i)) == 1,
            self.dispatch_round(b, x, i).len() == 4,
            binds_only_read_write(self.dispatch_round(b, x, i)),
    {
        let s = self.dispatch_round(b, x, i);
        let e = Seq::<Command>::empty();
        let s1 = seq![s[0]];
        let s2 = seq![s[0], s[1]];
        let s3 = seq![s[0], s[1], s[2]];
        assert(dispatch_count(e) == 0);
        assert(s1.drop_last() =~= e);
        assert(dispatch_count(s1) == 0);
        assert(s2.drop_last() =~= s1);
        assert(dispatch_count(s2) == 0);
        assert(s3.drop_last() =~= s2);
        assert(dispatch_count(s3) == 1);
        assert(s.drop_last() =~= s3);
        assert(dispatch_count(s) == 1);
    }

    proof fn lemma_shared_shape(self, x0: Image)
        ensures
            barrier_follows_each_dispatch(self.shared_bindings(x0)),
            dispatches_agree(
                self.shared_bindings(x0),
                Bounds::Positive,
                self.size.x_tiles as u32,
                self.size.y_tiles as u32,
            ),
            forall|b: Bounds, gx: u32, gy: u32| dispatches_agree(self.shared_bindings(x0), b, gx, gy),
            dispatch_count(self.shared_bindings(x0)) == 0,
            self.shared_bindings(x0).len() == 2,
    {
        let s = self.shared_bindings(x0);
        let e = Seq::<Command>::empty();
        let s1 = seq![s[0]];
        assert(dispatch_count(e) == 0);
        assert(s1.drop_last() =~= e);
        assert(dispatch_count(s1) == 0);
        assert(s.drop_last() =~= s1);
        assert(dispatch_count(s) == 0);
    }

    proof fn lemma_rounds_shape(self, b: Bounds, x: Image, n: int)
        requires
            0 <= n,
        ensures
            barrier_follows_each_dispatch(self.rounds(b, x, n)),
            dispatches_agree(
                self.rounds(b, x, n),
                b,
                self.size.x_tiles as u32,
                self.size.y_tiles as u32,
            ),
            dispatch_count(self.rounds(b, x, n)) == n,
            self.rounds(b, x, n).len() == 4 * n,
            binds_only_read_write(self.rounds(b, x, n)),
        decreases n,
    {
        if n <= 0 {
        } else {
            self.lemma_rounds_shape(b, x, n - 1);
            self.lemma_round_shape(b, x, n - 1);
            lemma_barrier_concat(self.rounds(b, x, n - 1), self.dispatch_round(b, x, n - 1));
            lemma_binds_concat(self.rounds(b, x, n - 1), self.dispatch_round(b, x, n - 1));
            lemma_agree_concat(
                self.rounds(b, x, n - 1),
                self.dispatch_round(b, x, n - 1),
                b,
                self.size.x_tiles as u32,
                self.size.y_tiles as u32,
            );
            lemma_dispatch_count_concat(
                self.rounds(b, x, n - 1),
                self.dispatch_round(b, x, n - 1),
            );
        }
    }

    /// Barrier discipline of a `step`: in the plan it lays out, every
    /// dispatch is immediately followed by a memory barrier, so the next
    /// dispatch's reads of the halo regions are ordered after the writes
    /// they overlap.
    pub proof fn lemma_step_plan_barriers(self, b: Bounds, x: Image, x0: Image)
        ensures
            barrier_follows_each_dispatch(self.step_plan(b, x, x0)),
    {
        self.lemma_shared_shape(x0);
        self.lemma_rounds_shape(b, x, N_DISPATCHES as int);
        lemma_barrier_concat(self.shared_bindings(x0), self.rounds(b, x, N_DISPATCHES as int));
    }

    /// The dispatch grid and the boundary condition are uniform: a `step`
    /// lays out exactly `N_DISPATCHES` dispatches, each running one
    /// workgroup per tile and each under the caller's boundary condition.
    pub proof fn lemma_step_plan_dispatches(self, b: Bounds, x: Image, x0: Image)
        ensures
            dispatch_count(self.step_plan(b, x, x0)) == N_DISPATCHES,
            dispatches_agree(
                self.step_plan(b, x, x0),
                b,
                self.size.x_tiles as u32,
                self.size.y_tiles as u32,
            ),
            self.step_plan(b, x, x0).len() == 2 + 4 * N_DISPATCHES,
    {
        self.lemma_shared_shape(x0);
        self.lemma_rounds_shape(b, x, N_DISPATCHES as int);
        lemma_agree_concat(
            self.shared_bindings(x0),
            self.rounds(b, x, N_DISPATCHES as int),
            b,
            self.size.x_tiles as u32,
            self.size.y_tiles as u32,
        );
        lemma_dispatch_count_concat(
            self.shared_bindings(x0),
            self.rounds(b, x, N_DISPATCHES as int),
        );
    }

    /// The fixed slots keep their role throughout a `step`: the plan binds
    /// the right-hand side `x0` and the workgroup halo scratch first, and
    /// every later image binding touches only the read and write slots, so
    /// those two stay bound across all dispatches.
    pub proof fn lemma_fixed_slots_bound_once(self, b: Bounds, x: Image, x0: Image)
        ensures
            self.step_plan(b, x, x0)[0] == (Command::BindImage { slot: X0_BIND, image: x0 }),
            self.step_plan(b, x, x0)[1] == (Command::BindImage {
                slot: SCRATCH_BIND,
                image: self.wg_scratch,
            }),
            forall|j: int|
                2 <= j < self.step_plan(b, x, x0).len() ==> ((#[trigger] self.step_plan(
                    b,
                    x,
                    x0,
                )[j]) is BindImage ==> self.step_plan(b, x, x0)[j]->slot == READ_BIND
                    || self.step_plan(b, x, x0)[j]->slot == WRITE_BIND),
    {
        self.lemma_rounds_shape(b, x, N_DISPATCHES as int);
        let plan = self.step_plan(b, x, x0);
        let rds = self.rounds(b, x, N_DISPATCHES as int);
        assert forall|j: int| 2 <= j < plan.len() && (#[trigger] plan[j]) is BindImage implies
            plan[j]->slot == READ_BIND || plan[j]->slot == WRITE_BIND by {
            assert(plan[j] == rds[j - 2]);
        }
    }

    /// One `step` relaxes the field `TOTAL_STEPS` times in all: each of its
    /// dispatches sweeps `STEPS_PER_DISPATCH` times, whatever the geometry.
    pub proof fn lemma_step_plan_total_sweeps(self, b: Bounds, x: Image, x0: Image)
        ensures
            crate::geometry::STEPS_PER_DISPATCH * dispatch_count(self.step_plan(b, x, x0))
                == crate::geometry::TOTAL_STEPS,
            crate::geometry::TOTAL_STEPS == 20,
    {
        self.lemma_step_plan_dispatches(b, x, x0);
    }

    /// Ping-pong discipline: no dispatch reads the image it writes, and
    /// each dispatch reads exactly what its predecessor wrote.
    pub proof fn lemma_dispatch_handoff(self, x: Image, i: int)
        requires
            x != self.sim_scratch,
        ensures
            self.read_source(x, i) != self.write_target(x, i),
            self.read_source(x, i + 1) == self.write_target(x, i),
    {
    }

    /// After `k` of a step's ping-pong writes, the image holding fresh
    /// data is the caller's field when `k` is even and the solver's
    /// simulation scratch when `k` is odd.
    pub proof fn lemma_current_target_parity(self, x: Image, k: int)
        requires
            1 <= k,
        ensures
            self.write_target(x, k - 1) == (if k % 2 == 0 {
                x
            } else {
                self.sim_scratch
            }),
    {
    }

    /// With `N_DISPATCHES` even, the image a `step` hands back is the
    /// caller's field `x` — though callers must keep treating the returned
    /// handle, not `x`, as the authoritative output.
    pub proof fn lemma_result_is_caller_field(self, x: Image)
        ensures
            self.result_image(x) == x,
    {
    }
}

} // verus!
