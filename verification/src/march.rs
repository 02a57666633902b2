use vstd::prelude::*;

use crate::grid::VoxelGrid;
use crate::grid::in_bounds;

verus! {

/// One of the three grid axes.
#[derive(Clone, Copy, PartialEq, Eq, Structural, Debug)]
pub enum Axis {
    X,
    Y,
    Z,
}

/// Everything the traversal needs to know about one ray, reduced to plain
/// integers: the cell holding the ray origin, the per-axis step direction
/// (the sign of the direction component), and the axis to advance at each
/// iteration, in order. The choices are dictated by the ray parameters of
/// the next boundary crossings, which evolve independently of the grid, so
/// they can be laid out in advance; a budget of `nx + ny + nz` choices is
/// always enough (see [`lemma_march_completes`]).
pub struct RayPlan {
    pub gx: isize,
    pub gy: isize,
    pub gz: isize,
    pub step_x: isize,
    pub step_y: isize,
    pub step_z: isize,
    pub choices: Vec<Axis>,
}

impl RayPlan {
    /// The cell the traversal starts in.
    pub open spec fn start(&self) -> (int, int, int) {
        (self.gx as int, self.gy as int, self.gz as int)
    }

    /// The per-axis cell increments.
    pub open spec fn steps(&self) -> (int, int, int) {
        (self.step_x as int, self.step_y as int, self.step_z as int)
    }

    /// Every step is one cell forward or one cell back along its axis.
    pub open spec fn valid_steps(&self) -> bool {
        valid_step_triple(self.steps())
    }
}

/// Every component of `steps` is +1 or -1.
pub open spec fn valid_step_triple(steps: (int, int, int)) -> bool {
    &&& (steps.0 == 1 || steps.0 == -1)
    &&& (steps.1 == 1 || steps.1 == -1)
    &&& (steps.2 == 1 || steps.2 == -1)
}

/// The cell reached from `cell` by moving one step along `axis`.
pub open spec fn step_cell(cell: (int, int, int), steps: (int, int, int), axis: Axis) -> (
    int,
    int,
    int,
) {
    match axis {
        Axis::X => (cell.0 + steps.0, cell.1, cell.2),
        Axis::Y => (cell.0, cell.1 + steps.1, cell.2),
        Axis::Z => (cell.0, cell.1, cell.2 + steps.2),
    }
}

/// What one traversal reports.
#[derive(Clone, Copy, PartialEq, Eq, Structural, Debug)]
pub enum MarchOutcome {
    /// The ray reached an occupied cell, named by its coordinates.
    Hit { x: usize, y: usize, z: usize },
    /// The ray left the grid without striking an occupied cell.
    Miss,
    /// The plan's choices ran out while the ray was still inside the grid.
    /// Never reported when the plan carries at least `nx + ny + nz` choices.
    OutOfSteps,
}

/// The mathematical traversal: from `cell`, report a miss as soon as the
/// cell is outside the grid, a hit as soon as it is occupied, and otherwise
/// advance along the first axis of `choices`. The grid is only ever examined
/// at cells already known to be inside its extents.
pub open spec fn march_model(
    g: VoxelGrid,
    cell: (int, int, int),
    steps: (int, int, int),
    choices: Seq<Axis>,
) -> MarchOutcome
    decreases choices.len(),
{
    if !g.spec_in_bounds(cell.0, cell.1, cell.2) {
        MarchOutcome::Miss
    } else if g.block_at(cell.0, cell.1, cell.2) is Solid {
        MarchOutcome::Hit { x: cell.0 as usize, y: cell.1 as usize, z: cell.2 as usize }
    } else if choices.len() == 0 {
        MarchOutcome::OutOfSteps
    } else {
        march_model(g, step_cell(cell, steps, choices[0]), steps, choices.skip(1))
    }
}

/// The axis selection rule of the traversal: the axis with the strictly
/// smallest pending ray parameter wins. The comparisons are chained
/// strict less-thans, x against y and the survivor against z, so on a tie
/// the later axis of the pair goes on.
pub open spec fn chosen_axis(x_lt_y: bool, x_lt_z: bool, y_lt_z: bool) -> Axis {
    if x_lt_y {
        if x_lt_z {
            Axis::X
        } else {
            Axis::Z
        }
    } else {
        if y_lt_z {
            Axis::Y
        } else {
            Axis::Z
        }
    }
}

/// Picks the axis to advance from the three strict comparisons between the
/// pending per-axis ray parameters.
pub fn choose_axis(x_lt_y: bool, x_lt_z: bool, y_lt_z: bool) -> (axis: Axis)
    ensures
        axis == chosen_axis(x_lt_y, x_lt_z, y_lt_z),
{
    if x_lt_y {
        if x_lt_z {
            Axis::X
        } else {
            Axis::Z
        }
    } else {
        if y_lt_z {
            Axis::Y
        } else {
            Axis::Z
        }
    }
}

/// How many more cells the traversal can visit along one axis before its
/// coordinate leaves `[0, extent)`: steps are monotone per axis, so this
/// shrinks by one whenever the axis is advanced.
pub open spec fn axis_potential(extent: int, coord: int, step: int) -> int {
    if step > 0 {
        extent - coord
    } else {
        coord + 1
    }
}

/// Upper bound on the number of in-bounds cells the traversal can still
/// visit from `cell`.
pub open spec fn potential(g: VoxelGrid, cell: (int, int, int), steps: (int, int, int)) -> int {
    axis_potential(g.nx(), cell.0, steps.0) + axis_potential(g.ny(), cell.1, steps.1)
        + axis_potential(g.nz(), cell.2, steps.2)
}

/// Each step, along whichever axis, lowers the potential by exactly one.
proof fn lemma_step_lowers_potential(
    g: VoxelGrid,
    cell: (int, int, int),
    steps: (int, int, int),
    axis: Axis,
)
    requires
        valid_step_triple(steps),
    ensures
        potential(g, step_cell(cell, steps, axis), steps) == potential(g, cell, steps) - 1,
{
}

/// A traversal whose budget covers the potential of its start cell never
/// runs out of steps.
proof fn lemma_march_bounded_by_potential(
    g: VoxelGrid,
    cell: (int, int, int),
    steps: (int, int, int),
    choices: Seq<Axis>,
)
    requires
        valid_step_triple(steps),
        g.spec_in_bounds(cell.0, cell.1, cell.2) ==> potential(g, cell, steps) <= choices.len(),
    ensures
        !(march_model(g, cell, steps, choices) is OutOfSteps),
    decreases choices.len(),
{
    if g.spec_in_bounds(cell.0, cell.1, cell.2) && !(g.block_at(cell.0, cell.1, cell.2)
        is Solid) {
        assert(potential(g, cell, steps) >= 3);
        let next = step_cell(cell, steps, choices[0]);
        lemma_step_lowers_potential(g, cell, steps, choices[0]);
        lemma_march_bounded_by_potential(g, next, steps, choices.skip(1));
    }
}

/// Law: the traversal terminates within `nx + ny + nz` steps. A plan whose
/// choices number at least the sum of the grid's extents is never exhausted:
/// from any start cell the traversal leaves the grid or strikes an occupied
/// cell within that many steps.
pub proof fn lemma_march_completes(
    g: VoxelGrid,
    cell: (int, int, int),
    steps: (int, int, int),
    choices: Seq<Axis>,
)
    requires
        valid_step_triple(steps),
        choices.len() >= g.nx() + g.ny() + g.nz(),
    ensures
        !(march_model(g, cell, steps, choices) is OutOfSteps),
{
    if g.spec_in_bounds(cell.0, cell.1, cell.2) {
        assert(potential(g, cell, steps) <= g.nx() + g.ny() + g.nz());
    }
    lemma_march_bounded_by_potential(g, cell, steps, choices);
}

/// Law: a hit always names a cell inside the grid's extents that holds a
/// solid block. The traversal speaks of no cell beyond the grid: its very
/// definition tests the bounds before it looks at a block.
pub proof fn lemma_march_hit_in_bounds(
    g: VoxelGrid,
    cell: (int, int, int),
    steps: (int, int, int),
    choices: Seq<Axis>,
)
    requires
        g.wf(),
    ensures
        march_model(g, cell, steps, choices) matches MarchOutcome::Hit { x, y, z } ==> {
            &&& g.spec_in_bounds(x as int, y as int, z as int)
            &&& g.block_at(x as int, y as int, z as int) is Solid
        },
    decreases choices.len(),
{
    if g.spec_in_bounds(cell.0, cell.1, cell.2) && !(g.block_at(cell.0, cell.1, cell.2)
        is Solid) && choices.len() > 0 {
        lemma_march_hit_in_bounds(g, step_cell(cell, steps, choices[0]), steps, choices.skip(1));
    }
}

/// Law: in a grid of nothing but air, no traversal ever reports a hit,
/// whatever the start cell, the steps and the choices.
pub proof fn lemma_all_air_never_hits(
    g: VoxelGrid,
    cell: (int, int, int),
    steps: (int, int, int),
    choices: Seq<Axis>,
)
    requires
        g.all_air(),
    ensures
        !(march_model(g, cell, steps, choices) is Hit),
    decreases choices.len(),
{
    if g.spec_in_bounds(cell.0, cell.1, cell.2) && !(g.block_at(cell.0, cell.1, cell.2)
        is Solid) && choices.len() > 0 {
        lemma_all_air_never_hits(g, step_cell(cell, steps, choices[0]), steps, choices.skip(1));
    }
}

/// Walks one ray through the grid: the executable counterpart of
/// [`march_model`]. Every cell is bounds-checked before it is read, a hit
/// names an in-bounds occupied cell, and a plan with at least `nx + ny + nz`
/// choices is never exhausted.
pub fn march_ray(grid: &VoxelGrid, ray: &RayPlan) -> (outcome: MarchOutcome)
    requires
        grid.wf(),
        ray.valid_steps(),
    ensures
        outcome == march_model(*grid, ray.start(), ray.steps(), ray.choices@),
        outcome matches MarchOutcome::Hit { x, y, z } ==> grid.spec_in_bounds(
            x as int,
            y as int,
            z as int,
        ) && grid.block_at(x as int, y as int, z as int) is Solid,
        ray.choices@.len() >= grid.nx() + grid.ny() + grid.nz() ==> !(outcome is OutOfSteps),
{
    let mut cx: isize = ray.gx;
    let mut cy: isize = ray.gy;
    let mut cz: isize = ray.gz;
    let mut i: usize = 0;
    proof {
        if ray.choices@.len() >= grid.nx() + grid.ny() + grid.nz() {
            lemma_march_completes(*grid, ray.start(), ray.steps(), ray.choices@);
        }
        assert(ray.choices@.skip(0) =~= ray.choices@);
    }
    loop
        invariant
            grid.wf(),
            ray.valid_steps(),
            i <= ray.choices@.len(),
            march_model(*grid, (cx as int, cy as int, cz as int), ray.steps(), ray.choices@.skip(i as int))
                == march_model(*grid, ray.start(), ray.steps(), ray.choices@),
            ray.choices@.len() >= grid.nx() + grid.ny() + grid.nz() ==> !(march_model(
                *grid,
                ray.start(),
                ray.steps(),
                ray.choices@,
            ) is OutOfSteps),
        decreases ray.choices@.len() - i,
    {
        if !in_bounds(cx, cy, cz, grid) {
            return MarchOutcome::Miss;
        }
        let block = grid.get(cx as usize, cy as usize, cz as usize);
        if block.is_solid() {
            return MarchOutcome::Hit { x: cx as usize, y: cy as usize, z: cz as usize };
        }
        if i >= ray.choices.len() {
            return MarchOutcome::OutOfSteps;
        }
        let axis = ray.choices[i];
        let (next_x, next_y, next_z): (isize, isize, isize) = match axis {
            Axis::X => (cx + ray.step_x, cy, cz),
            Axis::Y => (cx, cy + ray.step_y, cz),
            Axis::Z => (cx, cy, cz + ray.step_z),
        };
        proof {
            assert(ray.choices@.skip(i as int).skip(1) =~= ray.choices@.skip(i as int + 1));
            assert(step_cell((cx as int, cy as int, cz as int), ray.steps(), axis) == (
                next_x as int,
                next_y as int,
                next_z as int,
            ));
        }
        cx = next_x;
        cy = next_y;
        cz = next_z;
        i = i + 1;
    }
}

} // verus!
