//! The voxel canvas: a bounded 3D grid of color cells.
//!
//! Cells are single bytes: 0 is empty, 1–255 index into the palette of the
//! place. The grid is stored flat; a coordinate maps to exactly one flat
//! index by a fixed row-major formula, `x·(size_y·size_z) + y·size_z + z`,
//! which is injective and in range for every in-bounds coordinate (for
//! cubic grids it coincides with the historical layout of stored grids).

use vstd::prelude::*;

use crate::clock::now_timestamp;
use crate::errors::VoxError;

verus! {

pub struct VoxelCanvas {
    pub id: i64,
    pub name: String,
    pub size_x: usize,
    pub size_y: usize,
    pub size_z: usize,
    pub palette_id: i64,
    pub grid: Vec<u8>,
    pub created_at: i64,
    pub last_modified_at: i64,
}

/// The flat index never leaves the grid.
pub proof fn lemma_flat_index_bounds(sx: int, sy: int, sz: int, x: int, y: int, z: int)
    by (nonlinear_arith)
    requires
        0 <= x < sx,
        0 <= y < sy,
        0 <= z < sz,
    ensures
        0 <= x * (sy * sz) + y * sz + z,
        x * (sy * sz) + y * sz + z < sx * sy * sz,
        sy * sz <= sx * sy * sz,
{
}

/// On a cubic grid of edge `n` the row-major index coincides with the
/// historical stored layout `x·n·n + y·n + z`, so stored cubic grids
/// keep their byte layout under the corrected formula.
pub proof fn lemma_cubic_layout_compat(n: int, x: int, y: int, z: int)
    by (nonlinear_arith)
    requires
        0 <= x < n,
        0 <= y < n,
        0 <= z < n,
    ensures
        x * (n * n) + y * n + z == x * n * n + y * n + z,
{
}

/// Distinct in-bounds coordinates land on distinct flat indices.
pub proof fn lemma_flat_index_injective(
    sx: int, sy: int, sz: int,
    x1: int, y1: int, z1: int,
    x2: int, y2: int, z2: int,
)
    by (nonlinear_arith)
    requires
        0 <= x1 < sx,
        0 <= y1 < sy,
        0 <= z1 < sz,
        0 <= x2 < sx,
        0 <= y2 < sy,
        0 <= z2 < sz,
        x1 * (sy * sz) + y1 * sz + z1 == x2 * (sy * sz) + y2 * sz + z2,
    ensures
        x1 == x2 && y1 == y2 && z1 == z2,
{
}

impl VoxelCanvas {
    /// The grid always holds exactly one byte per cell of the box.
    pub open spec fn wf(&self) -> bool {
        self.grid@.len() == self.size_x * self.size_y * self.size_z
    }

    pub open spec fn spec_in_bounds(&self, x: int, y: int, z: int) -> bool {
        0 <= x < self.size_x && 0 <= y < self.size_y && 0 <= z < self.size_z
    }

    pub open spec fn spec_index(&self, x: int, y: int, z: int) -> int {
        x * (self.size_y * self.size_z) + y * self.size_z + z
    }

    pub open spec fn spec_cell(&self, x: int, y: int, z: int) -> u8 {
        self.grid@[self.spec_index(x, y, z)]
    }

    /// Every cell of the canvas is empty.
    pub open spec fn spec_all_empty(&self) -> bool {
        forall|i: int| 0 <= i < self.grid@.len() ==> self.grid@[i] == 0
    }

    /// Builds a canvas. A missing grid yields an all-empty box; a supplied
    /// grid must fill the box exactly, else the stored data is corrupt.
    /// Missing timestamps are taken from the wall clock.
    pub fn new(
        id: i64,
        name: String,
        palette_id: i64,
        size_x: usize,
        size_y: usize,
        size_z: usize,
        grid: Option<Vec<u8>>,
        created_at: Option<i64>,
        last_modified_at: Option<i64>,
    ) -> (r: Result<VoxelCanvas, VoxError>)
        requires
            size_x * size_y * size_z <= usize::MAX,
        ensures
            r matches Ok(c) ==> {
                &&& c.wf()
                &&& c.id == id
                &&& c.name@ == name@
                &&& c.palette_id == palette_id
                &&& c.size_x == size_x && c.size_y == size_y && c.size_z == size_z
                &&& (grid matches Some(g) ==> c.grid@ == g@)
                &&& (grid is None ==> c.spec_all_empty())
                &&& (created_at matches Some(t) ==> c.created_at == t)
                &&& (last_modified_at matches Some(t) ==> c.last_modified_at == t)
            },
            r is Ok <==> (grid matches Some(g) ==> g@.len() == size_x * size_y * size_z),
            r matches Err(e) ==> e == VoxError::CorruptFormat,
    {
        let cells: usize = box_volume(size_x, size_y, size_z);
        let grid = match grid {
            Some(g) => {
                if g.len() != cells {
                    return Err(VoxError::CorruptFormat);
                }
                g
            },
            None => empty_grid(cells),
        };
        let created_at = match created_at {
            Some(t) => t,
            None => now_timestamp(),
        };
        let last_modified_at = match last_modified_at {
            Some(t) => t,
            None => now_timestamp(),
        };
        Ok(VoxelCanvas {
            id,
            name,
            size_x,
            size_y,
            size_z,
            palette_id,
            grid,
            created_at,
            last_modified_at,
        })
    }

    /// Bounds-checked flat index of a coordinate.
    pub fn index(&self, x: usize, y: usize, z: usize) -> (r: Result<usize, VoxError>)
        requires
            self.wf(),
        ensures
            r is Ok <==> self.spec_in_bounds(x as int, y as int, z as int),
            r matches Ok(i) ==> i == self.spec_index(x as int, y as int, z as int)
                && i < self.grid@.len(),
            r matches Err(e) ==> e == VoxError::InvalidCoordinate,
    {
        if x < self.size_x && y < self.size_y && z < self.size_z {
            let cells = self.grid.len();
            proof {
                lemma_flat_index_bounds(
                    self.size_x as int, self.size_y as int, self.size_z as int,
                    x as int, y as int, z as int,
                );
                assert(self.spec_index(x as int, y as int, z as int) < cells);
            }
            Ok(x * (self.size_y * self.size_z) + y * self.size_z + z)
        } else {
            Err(VoxError::InvalidCoordinate)
        }
    }

    /// Reads one cell.
    pub fn get(&self, x: usize, y: usize, z: usize) -> (r: Result<u8, VoxError>)
        requires
            self.wf(),
        ensures
            r is Ok <==> self.spec_in_bounds(x as int, y as int, z as int),
            r matches Ok(c) ==> c == self.spec_cell(x as int, y as int, z as int),
            r matches Err(e) ==> e == VoxError::InvalidCoordinate,
    {
        let i = self.index(x, y, z)?;
        Ok(self.grid[i])
    }

    /// Reads one cell whose coordinate is already known to be in bounds.
    pub fn cell(&self, x: usize, y: usize, z: usize) -> (r: u8)
        requires
            self.wf(),
            self.spec_in_bounds(x as int, y as int, z as int),
        ensures
            r == self.spec_cell(x as int, y as int, z as int),
    {
        let cells = self.grid.len();
        proof {
            lemma_flat_index_bounds(
                self.size_x as int, self.size_y as int, self.size_z as int,
                x as int, y as int, z as int,
            );
            assert(self.spec_index(x as int, y as int, z as int) < cells);
        }
        let i = x * (self.size_y * self.size_z) + y * self.size_z + z;
        self.grid[i]
    }

    /// Replaces one cell wholesale: last writer wins, no merge semantics.
    /// Every other cell keeps its value.
    pub fn set(&mut self, x: usize, y: usize, z: usize, color: u8) -> (r: Result<(), VoxError>)
        requires
            old(self).wf(),
        ensures
            final(self).wf(),
            r is Ok <==> old(self).spec_in_bounds(x as int, y as int, z as int),
            r is Ok ==> final(self).grid@ == old(self).grid@.update(
                old(self).spec_index(x as int, y as int, z as int), color),
            r is Err ==> final(self).grid@ == old(self).grid@,
            r matches Err(e) ==> e == VoxError::InvalidCoordinate,
            final(self).id == old(self).id,
            final(self).name@ == old(self).name@,
            final(self).size_x == old(self).size_x,
            final(self).size_y == old(self).size_y,
            final(self).size_z == old(self).size_z,
            final(self).palette_id == old(self).palette_id,
            final(self).created_at == old(self).created_at,
            final(self).last_modified_at == old(self).last_modified_at,
    {
        let i = match self.index(x, y, z) {
            Ok(i) => i,
            Err(e) => {
                return Err(e);
            },
        };
        let cell = &mut self.grid[i];
        *cell = color;
        Ok(())
    }

    /// Copies all cells into a contiguous buffer for persistence or
    /// transfer.
    pub fn snapshot(&self) -> (r: Vec<u8>)
        ensures
            r@ == self.grid@,
    {
        let mut out: Vec<u8> = Vec::new();
        let mut i: usize = 0;
        while i < self.grid.len()
            invariant
                i <= self.grid@.len(),
                out@ == self.grid@.subrange(0, i as int),
            decreases self.grid@.len() - i,
        {
            out.push(self.grid[i]);
            i = i + 1;
        }
        proof {
            assert(out@ =~= self.grid@);
        }
        out
    }
}

/// The canvases agree on every observable field.
pub open spec fn same_canvas(a: VoxelCanvas, b: VoxelCanvas) -> bool {
    &&& a.id == b.id
    &&& a.name@ == b.name@
    &&& a.size_x == b.size_x && a.size_y == b.size_y && a.size_z == b.size_z
    &&& a.palette_id == b.palette_id
    &&& a.grid@ == b.grid@
    &&& a.created_at == b.created_at
    &&& a.last_modified_at == b.last_modified_at
}

/// The number of cells in a box of the given dimensions.
pub fn box_volume(size_x: usize, size_y: usize, size_z: usize) -> (r: usize)
    requires
        size_x * size_y * size_z <= usize::MAX,
    ensures
        r == size_x * size_y * size_z,
{
    if size_x == 0 || size_y == 0 || size_z == 0 {
        proof {
            lemma_volume_zero(size_x as int, size_y as int, size_z as int);
        }
        return 0;
    }
    proof {
        lemma_volume_factor(size_x as int, size_y as int, size_z as int);
    }
    size_x * size_y * size_z
}

proof fn lemma_volume_zero(sx: int, sy: int, sz: int)
    by (nonlinear_arith)
    requires
        sx == 0 || sy == 0 || sz == 0,
    ensures
        sx * sy * sz == 0,
{
}

proof fn lemma_volume_factor(sx: int, sy: int, sz: int)
    by (nonlinear_arith)
    requires
        0 <= sx,
        0 <= sy,
        1 <= sz,
    ensures
        sx * sy <= sx * sy * sz,
        sx * sy * sz == (sx * sy) * sz,
{
}

/// A grid of the given length with every cell empty.
pub fn empty_grid(cells: usize) -> (r: Vec<u8>)
    ensures
        r@.len() == cells,
        forall|i: int| 0 <= i < cells ==> r@[i] == 0,
{
    let mut out: Vec<u8> = Vec::new();
    let mut i: usize = 0;
    while i < cells
        invariant
            i <= cells,
            out@.len() == i,
            forall|j: int| 0 <= j < i ==> out@[j] == 0,
        decreases cells - i,
    {
        out.push(0);
        i = i + 1;
    }
    out
}

} // verus!
