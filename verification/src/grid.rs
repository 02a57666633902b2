use vstd::prelude::*;

use crate::block::Block;
use crate::errors::ConfigError;

verus! {

/// Largest extent accepted along one grid axis. Keeping every extent below
/// this bound lets cell coordinates, their out-of-grid neighbours and the
/// sum of all three extents fit comfortably in the machine integers the
/// traversal works with.
pub const MAX_EXTENT: usize = 0x7fff_ffff;

/// A dense 3D array of blocks with extents `(nx, ny, nz)`, indexed by x,
/// then y, then z. Every extent is at least 1, and the array is fully
/// rectangular.
pub struct VoxelGrid {
    cells: Vec<Vec<Vec<Block>>>,
}

impl VoxelGrid {
    /// Number of cells along the x axis.
    pub closed spec fn nx(&self) -> int {
        self.cells@.len() as int
    }

    /// Number of cells along the y axis.
    pub closed spec fn ny(&self) -> int {
        self.cells@[0]@.len() as int
    }

    /// Number of cells along the z axis.
    pub closed spec fn nz(&self) -> int {
        self.cells@[0]@[0]@.len() as int
    }

    /// The block stored at cell `(x, y, z)`.
    pub closed spec fn block_at(&self, x: int, y: int, z: int) -> Block {
        self.cells@[x]@[y]@[z]
    }

    /// The array is fully rectangular: every plane has `ny` rows and every
    /// row `nz` cells.
    pub closed spec fn rectangular(&self) -> bool {
        &&& forall|x: int|
            0 <= x < self.nx() ==> (#[trigger] self.cells@[x])@.len() == self.ny()
        &&& forall|x: int, y: int|
            0 <= x < self.nx() && 0 <= y < self.ny() ==> (#[trigger] self.cells@[x]@[y])@.len()
                == self.nz()
    }

    /// Structural invariant: extents within range and a fully rectangular
    /// array.
    pub open spec fn wf(&self) -> bool {
        &&& 1 <= self.nx() <= MAX_EXTENT
        &&& 1 <= self.ny() <= MAX_EXTENT
        &&& 1 <= self.nz() <= MAX_EXTENT
        &&& self.rectangular()
    }

    /// Whether `(gx, gy, gz)` lies inside the grid's extents.
    pub open spec fn spec_in_bounds(&self, gx: int, gy: int, gz: int) -> bool {
        &&& 0 <= gx < self.nx()
        &&& 0 <= gy < self.ny()
        &&& 0 <= gz < self.nz()
    }

    /// True when every cell of the grid is empty.
    pub open spec fn all_air(&self) -> bool {
        forall|x: int, y: int, z: int|
            self.spec_in_bounds(x, y, z) ==> #[trigger] self.block_at(x, y, z) is Air
    }

    /// Builds an all-air grid with the given extents. A zero extent and an
    /// extent beyond [`MAX_EXTENT`] are configuration mistakes and are
    /// refused.
    pub fn new(nx: usize, ny: usize, nz: usize) -> (result: Result<VoxelGrid, ConfigError>)
        ensures
            result is Ok <==> (1 <= nx <= MAX_EXTENT && 1 <= ny <= MAX_EXTENT && 1 <= nz
                <= MAX_EXTENT),
            result matches Ok(g) ==> {
                &&& g.wf()
                &&& g.nx() == nx
                &&& g.ny() == ny
                &&& g.nz() == nz
                &&& g.all_air()
            },
            result matches Err(e) ==> {
                &&& (nx == 0 || ny == 0 || nz == 0) <==> e == ConfigError::EmptyGridDimension
                &&& !(nx == 0 || ny == 0 || nz == 0) <==> e == ConfigError::GridDimensionTooLarge
            },
    {
        if nx == 0 || ny == 0 || nz == 0 {
            return Err(ConfigError::EmptyGridDimension);
        }
        if nx > MAX_EXTENT || ny > MAX_EXTENT || nz > MAX_EXTENT {
            return Err(ConfigError::GridDimensionTooLarge);
        }
        let mut cells: Vec<Vec<Vec<Block>>> = Vec::new();
        let mut x: usize = 0;
        while x < nx
            invariant
                x <= nx,
                cells@.len() == x,
                forall|i: int| 0 <= i < x ==> (#[trigger] cells@[i])@.len() == ny,
                forall|i: int, j: int|
                    0 <= i < x && 0 <= j < ny ==> (#[trigger] cells@[i]@[j])@.len() == nz,
                forall|i: int, j: int, k: int|
                    0 <= i < x && 0 <= j < ny && 0 <= k < nz ==> #[trigger] cells@[i]@[j]@[k]
                        is Air,
            decreases nx - x,
        {
            let mut plane: Vec<Vec<Block>> = Vec::new();
            let mut y: usize = 0;
            while y < ny
                invariant
                    y <= ny,
                    plane@.len() == y,
                    forall|j: int| 0 <= j < y ==> (#[trigger] plane@[j])@.len() == nz,
                    forall|j: int, k: int|
                        0 <= j < y && 0 <= k < nz ==> #[trigger] plane@[j]@[k] is Air,
                decreases ny - y,
            {
                let mut row: Vec<Block> = Vec::new();
                let mut z: usize = 0;
                while z < nz
                    invariant
                        z <= nz,
                        row@.len() == z,
                        forall|k: int| 0 <= k < z ==> #[trigger] row@[k] is Air,
                    decreases nz - z,
                {
                    row.push(Block::Air);
                    z = z + 1;
                }
                plane.push(row);
                y = y + 1;
            }
            cells.push(plane);
            x = x + 1;
        }
        Ok(VoxelGrid { cells })
    }

    /// Extent along x.
    pub fn extent_x(&self) -> (n: usize)
        ensures
            n == self.nx(),
    {
        self.cells.len()
    }

    /// Extent along y.
    pub fn extent_y(&self) -> (n: usize)
        requires
            self.wf(),
        ensures
            n == self.ny(),
    {
        self.cells[0].len()
    }

    /// Extent along z.
    pub fn extent_z(&self) -> (n: usize)
        requires
            self.wf(),
        ensures
            n == self.nz(),
    {
        self.cells[0][0].len()
    }

    /// Bounds-checked read: callers must have established that the cell lies
    /// inside the grid, so no access can ever reach past the extents.
    pub fn get(&self, x: usize, y: usize, z: usize) -> (block: Block)
        requires
            self.wf(),
            self.spec_in_bounds(x as int, y as int, z as int),
        ensures
            block == self.block_at(x as int, y as int, z as int),
    {
        self.cells[x][y][z]
    }

    /// Stores `block` at cell `(x, y, z)`; the rest of the grid is untouched.
    pub fn set(&mut self, x: usize, y: usize, z: usize, block: Block)
        requires
            old(self).wf(),
            old(self).spec_in_bounds(x as int, y as int, z as int),
        ensures
            final(self).wf(),
            final(self).nx() == old(self).nx(),
            final(self).ny() == old(self).ny(),
            final(self).nz() == old(self).nz(),
            final(self).block_at(x as int, y as int, z as int) == block,
            forall|i: int, j: int, k: int|
                old(self).spec_in_bounds(i, j, k) && !(i == x && j == y && k == z)
                    ==> #[trigger] final(self).block_at(i, j, k) == old(self).block_at(i, j, k),
    {
        self.cells[x][y][z] = block;
    }
}

/// Whether cell `(gx, gy, gz)` lies inside the grid, for possibly negative
/// coordinates. The traversal asks this before every cell read.
pub fn in_bounds(gx: isize, gy: isize, gz: isize, grid: &VoxelGrid) -> (inside: bool)
    requires
        grid.wf(),
    ensures
        inside == grid.spec_in_bounds(gx as int, gy as int, gz as int),
{
    gx >= 0 && (gx as usize) < grid.extent_x() && gy >= 0 && (gy as usize) < grid.extent_y()
        && gz >= 0 && (gz as usize) < grid.extent_z()
}

} // verus!
