use fluid_gpu::Bounds;
use fluid_gpu::BuildProgress;
use fluid_gpu::BuildRequest;
use fluid_gpu::Builder;
use fluid_gpu::Command;
use fluid_gpu::Image;
use fluid_gpu::KernelProgram;
use fluid_gpu::LinSolve;
use fluid_gpu::READ_BIND;
use fluid_gpu::SCRATCH_BIND;
use fluid_gpu::SimulationSize;
use fluid_gpu::SolverError;
use fluid_gpu::WRITE_BIND;
use fluid_gpu::X0_BIND;

/// Drive a build to completion against a pretend backend that hands out
/// fixed resource names.
fn build_solver(x_tiles: usize, y_tiles: usize) -> LinSolve {
    let size = SimulationSize::from_tiles(x_tiles, y_tiles).unwrap();
    let builder = Builder::new(size);
    assert_eq!(builder.request(), BuildRequest::CompileKernel);
    let builder = builder.supply_program(Ok(KernelProgram { id: 7 })).unwrap();

    let (w, h) = match builder.request() {
        BuildRequest::CreateImage { width, height } => (width, height),
        other => panic!("expected an image request, got {:?}", other),
    };
    assert_eq!((w, h), (x_tiles * 32, y_tiles * 32));
    let builder = match builder.supply_image(Ok(Image { id: 1, width: w, height: h })).unwrap() {
        BuildProgress::InProgress(b) => b,
        other => panic!("build finished early: {:?}", other),
    };

    let (w, h) = match builder.request() {
        BuildRequest::CreateImage { width, height } => (width, height),
        other => panic!("expected an image request, got {:?}", other),
    };
    assert_eq!((w, h), (x_tiles * 22, y_tiles * 22));
    match builder.supply_image(Ok(Image { id: 2, width: w, height: h })).unwrap() {
        BuildProgress::Done(solver) => solver,
        other => panic!("build not finished: {:?}", other),
    }
}

#[test]
fn builder_sizes_scratch_images_from_geometry() {
    let solver = build_solver(2, 3);
    assert_eq!(solver.program, KernelProgram { id: 7 });
    assert_eq!((solver.wg_scratch.width, solver.wg_scratch.height), (64, 96));
    assert_eq!((solver.sim_scratch.width, solver.sim_scratch.height), (44, 66));
    assert_eq!((solver.size.x_tiles, solver.size.y_tiles), (2, 3));
}

#[test]
fn failed_compile_reports_log_before_any_allocation() {
    let size = SimulationSize::from_tiles(20, 20).unwrap();
    let builder = Builder::new(size);
    // The only request a fresh builder ever makes is the compilation.
    assert_eq!(builder.request(), BuildRequest::CompileKernel);
    let err = builder
        .supply_program(Err(String::from("0:12(3): error: syntax error")))
        .unwrap_err();
    assert_eq!(
        err,
        SolverError::CompileError(String::from("0:12(3): error: syntax error"))
    );
}

#[test]
fn failed_image_creation_reports_alloc_error() {
    let size = SimulationSize::from_tiles(2, 2).unwrap();
    let builder = Builder::new(size);
    let builder = builder.supply_program(Ok(KernelProgram { id: 3 })).unwrap();
    let err = builder
        .supply_image(Err(String::from("out of memory")))
        .unwrap_err();
    assert_eq!(err, SolverError::AllocError(String::from("out of memory")));
}

#[test]
fn misshapen_scratch_image_rejected() {
    let size = SimulationSize::from_tiles(2, 2).unwrap();
    let builder = Builder::new(size);
    let builder = builder.supply_program(Ok(KernelProgram { id: 3 })).unwrap();
    // The workgroup scratch must be 64x64 for 2x2 tiles.
    let err = builder
        .supply_image(Ok(Image { id: 1, width: 44, height: 44 }))
        .unwrap_err();
    assert_eq!(err, SolverError::ShapeMismatch);
}

#[test]
fn step_lays_out_the_full_dispatch_sequence() {
    let solver = build_solver(2, 3);
    let x = Image { id: 10, width: 44, height: 66 };
    let x0 = Image { id: 11, width: 44, height: 66 };
    let (plan, out) = solver.step(Bounds::Positive, x, x0).unwrap();

    let dispatch = Command::Dispatch {
        groups_x: 2,
        groups_y: 3,
        groups_z: 1,
        boundary: Bounds::Positive,
    };
    let expected = vec![
        Command::BindImage { slot: X0_BIND, image: x0 },
        Command::BindImage { slot: SCRATCH_BIND, image: solver.wg_scratch },
        // Dispatch 0 reads the caller's field, writes the scratch.
        Command::BindImage { slot: READ_BIND, image: x },
        Command::BindImage { slot: WRITE_BIND, image: solver.sim_scratch },
        dispatch,
        Command::MemoryBarrier,
        // Dispatch 1 reads the scratch back into the caller's field.
        Command::BindImage { slot: READ_BIND, image: solver.sim_scratch },
        Command::BindImage { slot: WRITE_BIND, image: x },
        dispatch,
        Command::MemoryBarrier,
        // Dispatch 2: as dispatch 0.
        Command::BindImage { slot: READ_BIND, image: x },
        Command::BindImage { slot: WRITE_BIND, image: solver.sim_scratch },
        dispatch,
        Command::MemoryBarrier,
        // Dispatch 3: as dispatch 1.
        Command::BindImage { slot: READ_BIND, image: solver.sim_scratch },
        Command::BindImage { slot: WRITE_BIND, image: x },
        dispatch,
        Command::MemoryBarrier,
    ];
    assert_eq!(plan, expected);
    assert_eq!(out, x);
}

#[test]
fn step_result_resolves_to_last_written_image_for_both_negate_bounds() {
    let solver = build_solver(4, 4);
    let x = Image { id: 20, width: 88, height: 88 };
    let x0 = Image { id: 21, width: 88, height: 88 };
    for bounds in [Bounds::NegX, Bounds::NegY] {
        let (plan, out) = solver.step(bounds, x, x0).unwrap();
        // The returned handle resolves to an image of the plan: it is the
        // target of the final write, so it holds fresh data throughout.
        let last_write = plan
            .iter()
            .filter_map(|c| match c {
                Command::BindImage { slot, image } if *slot == WRITE_BIND => Some(*image),
                _ => None,
            })
            .last()
            .unwrap();
        assert_eq!(out, last_write);
        assert_eq!(out, x);
        // An even number of ping-pong writes: two to the scratch, two back.
        let writes: Vec<Image> = plan
            .iter()
            .filter_map(|c| match c {
                Command::BindImage { slot, image } if *slot == WRITE_BIND => Some(*image),
                _ => None,
            })
            .collect();
        assert_eq!(writes, vec![solver.sim_scratch, x, solver.sim_scratch, x]);
        // The chosen boundary condition reaches every dispatch.
        for c in &plan {
            if let Command::Dispatch { boundary, .. } = c {
                assert_eq!(*boundary, bounds);
            }
        }
        // Every dispatch is immediately followed by a memory barrier.
        for (j, c) in plan.iter().enumerate() {
            if matches!(c, Command::Dispatch { .. }) {
                assert!(matches!(plan[j + 1], Command::MemoryBarrier));
            }
        }
    }
}

#[test]
fn step_rejects_fields_of_the_wrong_shape() {
    let solver = build_solver(2, 2);
    let good = Image { id: 30, width: 44, height: 44 };
    let bad = Image { id: 31, width: 44, height: 43 };
    assert_eq!(
        solver.step(Bounds::Positive, bad, good).unwrap_err(),
        SolverError::ShapeMismatch
    );
    assert_eq!(
        solver.step(Bounds::Positive, good, bad).unwrap_err(),
        SolverError::ShapeMismatch
    );
    assert!(solver.step(Bounds::Positive, good, good).is_ok());
}

#[test]
fn bounds_encode_as_the_kernel_codes() {
    assert_eq!(Bounds::Positive.code(), 0);
    assert_eq!(Bounds::NegX.code(), 1);
    assert_eq!(Bounds::NegY.code(), 2);
}
