use fluid_gpu::LOCAL_SIZE;
use fluid_gpu::MAX_TILES_PER_AXIS;
use fluid_gpu::N_DISPATCHES;
use fluid_gpu::STEPS_PER_DISPATCH;
use fluid_gpu::SimulationSize;
use fluid_gpu::TILE_OUTPUT_SIZE;
use fluid_gpu::TOTAL_STEPS;

#[test]
fn kernel_constants_have_agreed_values() {
    assert_eq!(LOCAL_SIZE, 32);
    assert_eq!(STEPS_PER_DISPATCH, 5);
    assert_eq!(N_DISPATCHES, 4);
    assert_eq!(TILE_OUTPUT_SIZE, 22);
    assert_eq!(TILE_OUTPUT_SIZE, LOCAL_SIZE - STEPS_PER_DISPATCH * 2);
}

#[test]
fn total_steps_is_exactly_twenty() {
    assert_eq!(TOTAL_STEPS, 20);
    assert_eq!(TOTAL_STEPS, STEPS_PER_DISPATCH * N_DISPATCHES);
}

#[test]
fn dims_of_twenty_by_twenty_tiles() {
    let size = SimulationSize::from_tiles(20, 20).unwrap();
    assert_eq!(size.dims(), (440, 440));
}

#[test]
fn dims_multiplies_each_axis_by_tile_output_size() {
    let size = SimulationSize::from_tiles(1, 3).unwrap();
    assert_eq!(size.dims(), (22, 66));
    let size = SimulationSize::from_tiles(5, 2).unwrap();
    assert_eq!(size.dims(), (5 * TILE_OUTPUT_SIZE, 2 * TILE_OUTPUT_SIZE));
}

#[test]
fn dims_is_idempotent() {
    let size = SimulationSize::from_tiles(7, 5).unwrap();
    assert_eq!(size.dims(), size.dims());
}

#[test]
fn zero_tiles_rejected() {
    assert!(SimulationSize::from_tiles(0, 4).is_none());
    assert!(SimulationSize::from_tiles(4, 0).is_none());
    assert!(SimulationSize::from_tiles(0, 0).is_none());
}

#[test]
fn oversized_tiles_rejected() {
    assert!(SimulationSize::from_tiles(MAX_TILES_PER_AXIS + 1, 1).is_none());
    assert!(SimulationSize::from_tiles(1, MAX_TILES_PER_AXIS + 1).is_none());
    assert!(SimulationSize::from_tiles(MAX_TILES_PER_AXIS, 1).is_some());
}
