use vstd::prelude::*;

use crate::fixed::{clamp, is_isqrt, isqrt, lemma_sqrt_floor, sqrt_floor, POS_MAX, SCALE};

verus! {

/// Cells along each side of the terrain grid.
pub const GRID_SIZE: i64 = 50;

/// Offset from a world-space block index to a grid coordinate.
pub const HALF_GRID_SIZE: i64 = 25;

/// Number of cells in the grid.
pub const CELL_COUNT: usize = 2500;

/// World milli-units per terrain cell, for siting growth and death.
pub const BLOCK_SCALE: i64 = 4000;

/// Upper limit of a cell's fertility, in milli-units.
pub const FERTILITY_MAX: i64 = 1_000_000_000_000_000;

/// Carrying capacity given to every cell.
pub const MAX_CARRYING_CAPACITY: u32 = 2500;

/// Distance from the grid's centre to its corner, in milli-cells:
/// the integer square root of `2 * 25 * 25 * SCALE * SCALE`.
pub const MAX_CENTER_DISTANCE: i64 = 35355;

/// One cell of terrain.
#[derive(Clone, Copy, Debug)]
pub struct TerrainBlock {
    pub number_of_plants: u32,
    pub max_carrying_capacity: u32,
    /// Fertility in milli-units; never negative.
    pub fertility: i64,
}

/// Rounds `v / d` to the nearest integer, halves away from zero.
pub open spec fn round_div(v: int, d: int) -> int {
    if v >= 0 {
        (v + d / 2) / d
    } else {
        -((-v + d / 2) / d)
    }
}

/// Grid coordinate of a world coordinate (milli-units): the nearest block
/// index, offset by `HALF_GRID_SIZE`.
pub open spec fn grid_coord(w: int) -> int {
    round_div(w, BLOCK_SCALE as int) + HALF_GRID_SIZE
}

/// Index into the grid of the cell under world position `(x, y)`, if any.
pub open spec fn cell_of(x: int, y: int) -> Option<int> {
    let gx = grid_coord(x);
    let gy = grid_coord(y);
    if 0 <= gx < GRID_SIZE && 0 <= gy < GRID_SIZE {
        Some(gx * GRID_SIZE + gy)
    } else {
        None
    }
}

/// Initial fertility of the cell at grid index `k`: one whole unit at the
/// centre, falling off linearly with distance to zero at the corners.
pub open spec fn initial_fertility(k: int) -> int {
    let x = k / GRID_SIZE as int - HALF_GRID_SIZE;
    let y = k % GRID_SIZE as int - HALF_GRID_SIZE;
    SCALE - sqrt_floor((x * x + y * y) * SCALE * SCALE) * SCALE / MAX_CENTER_DISTANCE as int
}

/// The cell's fertility after adding `delta`, kept within `[0, FERTILITY_MAX]`.
pub open spec fn adjusted_block(b: TerrainBlock, delta: int) -> TerrainBlock {
    TerrainBlock {
        fertility: clamp(b.fertility + delta, 0, FERTILITY_MAX as int) as i64,
        ..b
    }
}

/// The grid after adding `delta` to the fertility of the cell under `(x, y)`;
/// unchanged where no cell lies there.
pub open spec fn adjusted(g: Seq<TerrainBlock>, x: int, y: int, delta: int) -> Seq<TerrainBlock> {
    match cell_of(x, y) {
        Some(i) => g.update(i, adjusted_block(g[i], delta)),
        None => g,
    }
}

/// Every cell's fertility within `[0, FERTILITY_MAX]`.
pub open spec fn grid_wf(g: Seq<TerrainBlock>) -> bool {
    &&& g.len() == CELL_COUNT
    &&& forall|i: int| 0 <= i < g.len() ==> 0 <= #[trigger] g[i].fertility <= FERTILITY_MAX
}

/// The terrain: a `GRID_SIZE` by `GRID_SIZE` grid of cells, row by row.
pub struct Terrain {
    pub blocks: Vec<TerrainBlock>,
}

proof fn lemma_initial_fertility(k: int, r: int)
    requires
        0 <= k < CELL_COUNT,
        is_isqrt(
            ((k / GRID_SIZE as int - HALF_GRID_SIZE) * (k / GRID_SIZE as int - HALF_GRID_SIZE)
                + (k % GRID_SIZE as int - HALF_GRID_SIZE) * (k % GRID_SIZE as int - HALF_GRID_SIZE))
                * SCALE * SCALE,
            r,
        ),
    ensures
        0 <= initial_fertility(k) <= SCALE,
{
    let x = k / GRID_SIZE as int - HALF_GRID_SIZE;
    let y = k % GRID_SIZE as int - HALF_GRID_SIZE;
    let n = (x * x + y * y) * SCALE * SCALE;
    assert(0 <= n <= 1_250_000_000) by (nonlinear_arith)
        requires
            -25 <= x <= 25,
            -25 <= y <= 25,
            n == (x * x + y * y) * SCALE * SCALE,
    ;
    lemma_sqrt_floor(n, r);
    if r > MAX_CENTER_DISTANCE {
        assert(r * r > 1_250_000_000) by (nonlinear_arith)
            requires
                r >= 35356,
        ;
    }
    assert(0 <= r * SCALE / MAX_CENTER_DISTANCE as int <= SCALE) by (nonlinear_arith)
        requires
            0 <= r <= MAX_CENTER_DISTANCE,
    ;
}

/// Grid coordinate of a world coordinate, if it falls on the grid.
fn grid_coord_exec(w: i64) -> (r: Option<i64>)
    ensures
        r == (if 0 <= grid_coord(w as int) < GRID_SIZE {
            Some(grid_coord(w as int) as i64)
        } else {
            None
        }),
{
    if w > POS_MAX || w < -POS_MAX {
        return None;
    }
    let block: i64 = if w >= 0 {
        (w + BLOCK_SCALE / 2) / BLOCK_SCALE
    } else {
        -((-w + BLOCK_SCALE / 2) / BLOCK_SCALE)
    };
    let g = block + HALF_GRID_SIZE;
    if 0 <= g && g < GRID_SIZE {
        Some(g)
    } else {
        None
    }
}

/// Index of the cell under world position `(x, y)`; `None` off the grid.
pub fn cell_index(x: i64, y: i64) -> (r: Option<usize>)
    ensures
        match cell_of(x as int, y as int) {
            Some(i) => r == Some(i as usize),
            None => r is None,
        },
        r matches Some(i) ==> i < CELL_COUNT,
{
    match grid_coord_exec(x) {
        Some(gx) => match grid_coord_exec(y) {
            Some(gy) => Some((gx * GRID_SIZE + gy) as usize),
            None => None,
        },
        None => None,
    }
}

impl Terrain {
    pub open spec fn view(&self) -> Seq<TerrainBlock> {
        self.blocks@
    }

    pub open spec fn wf(&self) -> bool {
        grid_wf(self.blocks@)
    }

    /// The grid with fertility falling off from the centre.
    pub fn new() -> (r: Terrain)
        ensures
            r.wf(),
            forall|k: int|
                0 <= k < CELL_COUNT ==> {
                    &&& (#[trigger] r.blocks@[k]).fertility == initial_fertility(k)
                    &&& r.blocks@[k].number_of_plants == 0
                    &&& r.blocks@[k].max_carrying_capacity == MAX_CARRYING_CAPACITY
                },
    {
        let mut blocks: Vec<TerrainBlock> = Vec::new();
        let mut k: usize = 0;
        while k < CELL_COUNT
            invariant
                k <= CELL_COUNT,
                blocks@.len() == k,
                forall|j: int|
                    0 <= j < k ==> {
                        &&& (#[trigger] blocks@[j]).fertility == initial_fertility(j)
                        &&& 0 <= blocks@[j].fertility <= SCALE
                        &&& blocks@[j].number_of_plants == 0
                        &&& blocks@[j].max_carrying_capacity == MAX_CARRYING_CAPACITY
                    },
            decreases CELL_COUNT - k,
        {
            let x: i64 = (k / 50) as i64 - HALF_GRID_SIZE;
            let y: i64 = (k % 50) as i64 - HALF_GRID_SIZE;
            assert(0 <= x * x <= 625 && 0 <= y * y <= 625) by (nonlinear_arith)
                requires
                    -25 <= x <= 25,
                    -25 <= y <= 25,
            ;
            let sq: i64 = x * x + y * y;
            let n: u64 = (sq * SCALE * SCALE) as u64;
            let dn = isqrt(n);
            proof {
                assert(dn <= 36000) by (nonlinear_arith)
                    requires
                        dn * dn <= n,
                        n <= 1_250_000_000,
                ;
            }
            let d = dn as i64;
            proof {
                lemma_initial_fertility(k as int, d as int);
            }
            let fertility = SCALE - d * SCALE / MAX_CENTER_DISTANCE;
            blocks.push(TerrainBlock { number_of_plants: 0, max_carrying_capacity: MAX_CARRYING_CAPACITY, fertility });
            k = k + 1;
        }
        let r = Terrain { blocks };
        assert(forall|i: int| 0 <= i < r.blocks@.len() ==> 0 <= #[trigger] r.blocks@[i].fertility <= FERTILITY_MAX);
        r
    }

    /// Fertility of the cell under world position `(x, y)`; `None` off the grid.
    pub fn fertility_at(&self, x: i64, y: i64) -> (r: Option<i64>)
        requires
            self.wf(),
        ensures
            match cell_of(x as int, y as int) {
                Some(i) => r == Some(self.blocks@[i].fertility),
                None => r is None,
            },
    {
        match cell_index(x, y) {
            Some(i) => Some(self.blocks[i].fertility),
            None => None,
        }
    }

    /// Adds `delta` to the fertility of the cell under `(x, y)`, keeping it
    /// within `[0, FERTILITY_MAX]`; does nothing off the grid.
    pub fn adjust_fertility(&mut self, x: i64, y: i64, delta: i64)
        requires
            old(self).wf(),
            -FERTILITY_MAX <= delta <= FERTILITY_MAX,
        ensures
            final(self).wf(),
            final(self).blocks@ == adjusted(old(self).blocks@, x as int, y as int, delta as int),
    {
        match cell_index(x, y) {
            Some(i) => {
                let mut b = self.blocks[i];
                let f = b.fertility + delta;
                b.fertility = if f < 0 {
                    0
                } else if f > FERTILITY_MAX {
                    FERTILITY_MAX
                } else {
                    f
                };
                self.blocks.set(i, b);
                assert(forall|j: int| 0 <= j < self.blocks@.len() ==> 0 <= #[trigger] self.blocks@[j].fertility <= FERTILITY_MAX);
            },
            None => {},
        }
    }
}

} // verus!
