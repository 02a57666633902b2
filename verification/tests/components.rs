use voxel_march::block::Block;
use voxel_march::errors::ConfigError;
use voxel_march::grid::{in_bounds, VoxelGrid, MAX_EXTENT};
use voxel_march::march::{choose_axis, march_ray, Axis, MarchOutcome, RayPlan};
use voxel_march::render::{pack_rgb, render};
use voxel_march::units::{FromTopLeft, Unsigned};

#[test]
fn grid_new_rejects_zero_dimension() {
    assert_eq!(
        VoxelGrid::new(0, 3, 3).err(),
        Some(ConfigError::EmptyGridDimension)
    );
    assert_eq!(
        VoxelGrid::new(3, 0, 3).err(),
        Some(ConfigError::EmptyGridDimension)
    );
    assert_eq!(
        VoxelGrid::new(3, 3, 0).err(),
        Some(ConfigError::EmptyGridDimension)
    );
}

#[test]
fn grid_new_rejects_oversized_extent() {
    assert_eq!(
        VoxelGrid::new(MAX_EXTENT + 1, 1, 1).err(),
        Some(ConfigError::GridDimensionTooLarge)
    );
}

#[test]
fn grid_set_and_get() {
    let mut g = VoxelGrid::new(3, 3, 3).unwrap();
    assert!(matches!(g.get(1, 1, 1), Block::Air));
    g.set(1, 1, 1, Block::Solid);
    assert!(matches!(g.get(1, 1, 1), Block::Solid));
    assert!(matches!(g.get(0, 1, 1), Block::Air));
    assert!(matches!(g.get(2, 2, 2), Block::Air));
}

#[test]
fn grid_extents_report_construction_sizes() {
    let g = VoxelGrid::new(4, 3, 2).unwrap();
    assert_eq!(g.extent_x(), 4);
    assert_eq!(g.extent_y(), 3);
    assert_eq!(g.extent_z(), 2);
}

#[test]
fn in_bounds_accepts_interior_and_rejects_outside() {
    let g = VoxelGrid::new(3, 4, 5).unwrap();
    assert!(in_bounds(0, 0, 0, &g));
    assert!(in_bounds(2, 3, 4, &g));
    assert!(!in_bounds(-1, 0, 0, &g));
    assert!(!in_bounds(0, -1, 0, &g));
    assert!(!in_bounds(0, 0, -1, &g));
    assert!(!in_bounds(3, 0, 0, &g));
    assert!(!in_bounds(0, 4, 0, &g));
    assert!(!in_bounds(0, 0, 5, &g));
}

#[test]
fn solid_block_color_is_white() {
    assert_eq!(Block::Solid.get_color(), (255, 255, 255));
}

#[test]
fn choose_axis_follows_chained_comparison() {
    // t_max_x smallest: x advances.
    assert_eq!(choose_axis(true, true, true), Axis::X);
    assert_eq!(choose_axis(true, true, false), Axis::X);
    // x beats y but not z: z advances.
    assert_eq!(choose_axis(true, false, true), Axis::Z);
    assert_eq!(choose_axis(true, false, false), Axis::Z);
    // y smallest: y advances.
    assert_eq!(choose_axis(false, false, true), Axis::Y);
    // All equal (every strict comparison false): z advances.
    assert_eq!(choose_axis(false, false, false), Axis::Z);
}

#[test]
fn march_hits_the_start_cell_when_it_is_solid() {
    let mut g = VoxelGrid::new(3, 3, 3).unwrap();
    g.set(1, 1, 1, Block::Solid);
    let plan = RayPlan {
        gx: 1,
        gy: 1,
        gz: 1,
        step_x: -1,
        step_y: -1,
        step_z: -1,
        choices: Vec::new(),
    };
    assert_eq!(march_ray(&g, &plan), MarchOutcome::Hit { x: 1, y: 1, z: 1 });
}

#[test]
fn march_misses_from_outside_the_grid() {
    let g = VoxelGrid::new(2, 2, 2).unwrap();
    let plan = RayPlan {
        gx: -7,
        gy: 1,
        gz: 1,
        step_x: 1,
        step_y: 1,
        step_z: 1,
        choices: Vec::new(),
    };
    assert_eq!(march_ray(&g, &plan), MarchOutcome::Miss);
}

#[test]
fn march_walks_choices_in_order() {
    let mut g = VoxelGrid::new(3, 3, 3).unwrap();
    g.set(2, 1, 0, Block::Solid);
    let plan = RayPlan {
        gx: 0,
        gy: 0,
        gz: 1,
        step_x: 1,
        step_y: 1,
        step_z: -1,
        choices: vec![Axis::X, Axis::Y, Axis::X, Axis::Z],
    };
    // (0,0,1) -> (1,0,1) -> (1,1,1) -> (2,1,1) -> (2,1,0): the solid cell.
    assert_eq!(march_ray(&g, &plan), MarchOutcome::Hit { x: 2, y: 1, z: 0 });
}

#[test]
fn march_reports_exhaustion_only_below_the_guaranteed_budget() {
    let g = VoxelGrid::new(3, 3, 3).unwrap();
    let short = RayPlan {
        gx: 1,
        gy: 1,
        gz: 1,
        step_x: 1,
        step_y: 1,
        step_z: 1,
        choices: vec![Axis::X],
    };
    assert_eq!(march_ray(&g, &short), MarchOutcome::OutOfSteps);

    // nx + ny + nz choices always suffice, whatever they are.
    let budget = g.extent_x() + g.extent_y() + g.extent_z();
    let full = RayPlan {
        gx: 1,
        gy: 1,
        gz: 1,
        step_x: 1,
        step_y: 1,
        step_z: 1,
        choices: vec![Axis::Z; budget],
    };
    assert_eq!(march_ray(&g, &full), MarchOutcome::Miss);
}

#[test]
fn march_stays_in_bounds_for_every_step_direction() {
    // An all-solid shell around an air center: any walk from any corner
    // either misses or names an in-bounds cell.
    let mut g = VoxelGrid::new(3, 3, 3).unwrap();
    for x in 0..3 {
        for y in 0..3 {
            for z in 0..3 {
                if (x, y, z) != (1, 1, 1) {
                    g.set(x, y, z, Block::Solid);
                }
            }
        }
    }
    let budget = g.extent_x() + g.extent_y() + g.extent_z();
    for &sx in &[-1isize, 1] {
        for &sy in &[-1isize, 1] {
            for &sz in &[-1isize, 1] {
                for &(gx, gy, gz) in &[(1isize, 1isize, 1isize), (0, 0, 0), (-2, 5, 1), (2, 2, 2)]
                {
                    let plan = RayPlan {
                        gx,
                        gy,
                        gz,
                        step_x: sx,
                        step_y: sy,
                        step_z: sz,
                        choices: vec![Axis::X; budget],
                    };
                    match march_ray(&g, &plan) {
                        MarchOutcome::Hit { x, y, z } => {
                            assert!(x < 3 && y < 3 && z < 3);
                            assert!(matches!(g.get(x, y, z), Block::Solid));
                        }
                        MarchOutcome::Miss => {}
                        MarchOutcome::OutOfSteps => panic!("budget was sufficient"),
                    }
                }
            }
        }
    }
}

#[test]
fn render_rejects_bad_configurations() {
    let g = VoxelGrid::new(2, 2, 2).unwrap();
    let no_rays: Vec<RayPlan> = Vec::new();
    assert_eq!(render(&g, &no_rays, 0, 5).err(), Some(ConfigError::ZeroWidth));
    assert_eq!(render(&g, &no_rays, 5, 0).err(), Some(ConfigError::ZeroHeight));
    assert_eq!(
        render(&g, &no_rays, 2, 2).err(),
        Some(ConfigError::PlanCountMismatch)
    );
}

#[test]
fn pack_rgb_places_channels_in_fixed_bytes() {
    assert_eq!(pack_rgb((255, 255, 255)), 0x00FF_FFFF);
    assert_eq!(pack_rgb((0, 0, 0)), 0);
    assert_eq!(pack_rgb((1, 2, 3)), 0x0001_0203);
    assert_eq!(pack_rgb((0x12, 0x34, 0x56)), 0x0012_3456);
}

#[test]
fn framebuffer_pixel_reads_from_top_left() {
    let mut g = VoxelGrid::new(1, 1, 1).unwrap();
    g.set(0, 0, 0, Block::Solid);
    // Every ray starts inside the single solid cell and hits at once.
    let mut rays = Vec::new();
    for _ in 0..6 {
        rays.push(RayPlan {
            gx: 0,
            gy: 0,
            gz: 0,
            step_x: 1,
            step_y: 1,
            step_z: 1,
            choices: Vec::new(),
        });
    }
    let fb = render(&g, &rays, 3, 2).unwrap();
    assert_eq!(fb.width(), 3);
    assert_eq!(fb.height(), 2);
    assert_eq!(fb.pixel(FromTopLeft((0, 0))), (255, 255, 255));
    assert_eq!(fb.pixel(FromTopLeft((2, 1))), (255, 255, 255));
    assert_eq!(fb.to_packed(), vec![0x00FF_FFFF; 6]);
}

#[test]
fn unsigned_accepts_exactly_nonnegative_values() {
    assert!(Unsigned::new(-1).is_none());
    assert!(Unsigned::new(i64::MIN).is_none());
    assert_eq!(Unsigned::new(0).unwrap().read(), 0);
    assert_eq!(Unsigned::new(42).unwrap().read(), 42);
    assert_eq!(Unsigned::new(i64::MAX).unwrap().read(), i64::MAX);
}
