use vstd::prelude::*;

use crate::entity::Plant;
use crate::fixed::{offset_spec, Vec2};
use crate::random::{random_below, random_direction};
use crate::terrain::{adjusted, cell_of, Terrain, TerrainBlock};
use crate::world::plants_wf;

verus! {

/// A growth draw is uniform over `[0, GROWTH_DRAW_RANGE)`; a plant sprouts
/// when the draw is below its cell's fertility in milli-units, that is with
/// probability `fertility * 0.01`.
pub const GROWTH_DRAW_RANGE: u32 = 100_000;

/// Fertility taken from a cell each time a plant sprouts there (0.03).
pub const GROWTH_FERTILITY_COST: i64 = 30;

/// Smallest size of a sprout (0.1).
pub const SPROUT_SIZE_MIN: i64 = 100;

/// Range of the size drawn on top of `SPROUT_SIZE_MIN` (below 0.1).
pub const SPROUT_SIZE_RANGE: u32 = 100;

/// Distance from parent to sprout, per unit of their summed sizes.
pub const SPROUT_SPREAD: i64 = 10;

/// The sprout of `p` for a drawn size and direction.
pub open spec fn sprout_of(p: Plant, size_draw: int, dir: Vec2) -> Plant {
    let size = SPROUT_SIZE_MIN + size_draw;
    Plant { position: offset_spec(p.position, dir, (p.size + size) * SPROUT_SPREAD), size: size as i64 }
}

/// `c` is a sprout that `p` may have, on a cell of `g` that is fertile.
pub open spec fn is_sprout_of(c: Plant, p: Plant, g: Seq<TerrainBlock>) -> bool {
    &&& exists|sd: int, dir: Vec2|
        0 <= sd < SPROUT_SIZE_RANGE && dir.is_unit() && c == #[trigger] sprout_of(p, sd, dir)
    &&& cell_of(p.position.x as int, p.position.y as int) matches Some(k) && g[k].fertility > 0
}

/// `c` is a sprout that one of `ps` may have, on a fertile cell of `g`.
pub open spec fn sprouted_from(c: Plant, ps: Seq<Plant>, g: Seq<TerrainBlock>) -> bool {
    exists|j: int| 0 <= j < ps.len() && is_sprout_of(c, #[trigger] ps[j], g)
}

/// Whether a plant on a cell of the given fertility sprouts for `draw`.
/// A cell without fertility never grows anything.
pub fn grows(fertility: i64, draw: u32) -> (r: bool)
    ensures
        r == (draw < fertility),
        fertility <= 0 ==> !r,
{
    (draw as i64) < fertility
}

/// The sprout of `plant` for a drawn size and direction.
pub fn sprout(plant: Plant, size_draw: u32, dir: Vec2) -> (r: Plant)
    requires
        plant.wf(),
        size_draw < SPROUT_SIZE_RANGE,
        dir.is_unit(),
    ensures
        r == sprout_of(plant, size_draw as int, dir),
        r.wf(),
        SPROUT_SIZE_MIN <= r.size < SPROUT_SIZE_MIN + SPROUT_SIZE_RANGE,
{
    let size = SPROUT_SIZE_MIN + size_draw as i64;
    let position = plant.position.offset(dir, (plant.size + size) * SPROUT_SPREAD);
    Plant { position, size }
}

/// What one plant's growth draw does: with `d` = (growth draw, size draw,
/// direction), a plant on a cell whose fertility exceeds the growth draw
/// sprouts, and the cell pays `GROWTH_FERTILITY_COST`; off the grid nothing
/// happens.
pub open spec fn growth_step(g: Seq<TerrainBlock>, p: Plant, d: (int, int, Vec2)) -> (
    Seq<TerrainBlock>,
    Option<Plant>,
) {
    match cell_of(p.position.x as int, p.position.y as int) {
        Some(k) => if d.0 < g[k].fertility {
            (
                adjusted(g, p.position.x as int, p.position.y as int, -GROWTH_FERTILITY_COST),
                Some(sprout_of(p, d.1, d.2)),
            )
        } else {
            (g, None)
        },
        None => (g, None),
    }
}

/// The grid and the sprouts after the first `n` plants of `ps` draw `ds`.
pub open spec fn growth_pass(g: Seq<TerrainBlock>, ps: Seq<Plant>, ds: Seq<(int, int, Vec2)>, n: int) -> (
    Seq<TerrainBlock>,
    Seq<Plant>,
)
    decreases n,
{
    if n <= 0 {
        (g, Seq::empty())
    } else {
        let (g1, sprouts) = growth_pass(g, ps, ds, n - 1);
        let (g2, o) = growth_step(g1, ps[n - 1], ds[n - 1]);
        match o {
            Some(c) => (g2, sprouts.push(c)),
            None => (g2, sprouts),
        }
    }
}

/// A possible set of draws for one plant.
pub open spec fn valid_draw(d: (int, int, Vec2)) -> bool {
    0 <= d.0 < GROWTH_DRAW_RANGE && 0 <= d.1 < SPROUT_SIZE_RANGE && d.2.is_unit()
}

proof fn lemma_growth_pass_prefix(
    g: Seq<TerrainBlock>,
    ps: Seq<Plant>,
    d1: Seq<(int, int, Vec2)>,
    d2: Seq<(int, int, Vec2)>,
    n: int,
)
    requires
        0 <= n <= d1.len(),
        n <= d2.len(),
        forall|k: int| 0 <= k < n ==> d1[k] == d2[k],
    ensures
        growth_pass(g, ps, d1, n) == growth_pass(g, ps, d2, n),
    decreases n,
{
    if n > 0 {
        lemma_growth_pass_prefix(g, ps, d1, d2, n - 1);
    }
}

/// One plant's growth for the given draws: it sprouts when its cell's
/// fertility exceeds `draw`, and the cell then pays `GROWTH_FERTILITY_COST`.
pub fn grow_from(terrain: &mut Terrain, plant: Plant, draw: u32, size_draw: u32, dir: Vec2) -> (r: Option<Plant>)
    requires
        old(terrain).wf(),
        plant.wf(),
        size_draw < SPROUT_SIZE_RANGE,
        dir.is_unit(),
    ensures
        (final(terrain).blocks@, r) == growth_step(
            old(terrain).blocks@,
            plant,
            (draw as int, size_draw as int, dir),
        ),
        final(terrain).wf(),
        r matches Some(c) ==> c.wf() && c == sprout_of(plant, size_draw as int, dir) && (cell_of(
            plant.position.x as int,
            plant.position.y as int,
        ) matches Some(k) && old(terrain).blocks@[k].fertility > draw),
{
    match terrain.fertility_at(plant.position.x, plant.position.y) {
        Some(f) => {
            if grows(f, draw) {
                let child = sprout(plant, size_draw, dir);
                terrain.adjust_fertility(plant.position.x, plant.position.y, -GROWTH_FERTILITY_COST);
                Some(child)
            } else {
                None
            }
        },
        None => None,
    }
}

/// `(g2, ps2)` is an outcome of growth on `(g, ps)`: for some draws, the
/// grid after the growth pass, and the plants followed by their sprouts.
pub open spec fn growth_tick(g: Seq<TerrainBlock>, ps: Seq<Plant>, g2: Seq<TerrainBlock>, ps2: Seq<Plant>) -> bool {
    exists|ds: Seq<(int, int, Vec2)>|
        ds.len() == ps.len() && (forall|k: int| 0 <= k < ds.len() ==> valid_draw(#[trigger] ds[k]))
            && ({
            let pass = #[trigger] growth_pass(g, ps, ds, ps.len() as int);
            &&& g2 == pass.0
            &&& ps2 == ps + pass.1
        })
}

/// Every plant present may sprout a new plant, with probability set by its
/// cell's fertility; each sprout costs its cell `GROWTH_FERTILITY_COST`.
/// Sprouts are appended after the existing plants.
pub fn grow_plants(plants: &mut Vec<Plant>, terrain: &mut Terrain)
    requires
        plants_wf(old(plants)@),
        old(terrain).wf(),
    ensures
        plants_wf(final(plants)@),
        final(terrain).wf(),
        final(plants)@.len() >= old(plants)@.len(),
        forall|k: int| 0 <= k < old(plants)@.len() ==> #[trigger] final(plants)@[k] == old(plants)@[k],
        forall|k: int|
            old(plants)@.len() <= k < final(plants)@.len() ==> sprouted_from(
                #[trigger] final(plants)@[k],
                old(plants)@,
                old(terrain).blocks@,
            ),
        forall|c: int|
            0 <= c < final(terrain).blocks@.len() ==> #[trigger] final(terrain).blocks@[c].fertility
                <= old(terrain).blocks@[c].fertility,
        growth_tick(old(terrain).blocks@, old(plants)@, final(terrain).blocks@, final(plants)@),
{
    let ghost g0 = terrain.blocks@;
    let ghost start = plants@;
    let n = plants.len();
    let ghost mut drawn: Seq<(int, int, Vec2)> = Seq::empty();
    let mut new_plants: Vec<Plant> = Vec::new();
    let mut i: usize = 0;
    while i < n
        invariant
            i <= n == plants@.len(),
            plants@ == start,
            plants_wf(plants@),
            plants_wf(new_plants@),
            terrain.wf(),
            g0.len() == terrain.blocks@.len(),
            forall|c: int|
                0 <= c < g0.len() ==> #[trigger] terrain.blocks@[c].fertility <= g0[c].fertility,
            forall|k: int|
                0 <= k < new_plants@.len() ==> sprouted_from(#[trigger] new_plants@[k], start, g0),
            drawn.len() == i,
            forall|k: int| 0 <= k < drawn.len() ==> valid_draw(#[trigger] drawn[k]),
            (terrain.blocks@, new_plants@) == growth_pass(g0, start, drawn, i as int),
        decreases n - i,
    {
        let p = plants[i];
        assert(p.wf());
        let draw = random_below(GROWTH_DRAW_RANGE);
        let size_draw = random_below(SPROUT_SIZE_RANGE);
        let dir = random_direction();
        match grow_from(terrain, p, draw, size_draw, dir) {
            Some(child) => {
                assert(is_sprout_of(child, start[i as int], g0));
                assert(sprouted_from(child, start, g0));
                new_plants.push(child);
            },
            None => {},
        }
        proof {
            let next = drawn.push((draw as int, size_draw as int, dir));
            lemma_growth_pass_prefix(g0, start, drawn, next, i as int);
            drawn = next;
        }
        i = i + 1;
    }
    let ghost sprouts = new_plants@;
    plants.append(&mut new_plants);
    assert(growth_pass(g0, start, drawn, n as int).1 == sprouts);
    assert forall|k: int| n <= k < plants@.len() implies sprouted_from(
        #[trigger] plants@[k],
        start,
        g0,
    ) by {
        assert(plants@[k] == sprouts[k - n]);
    }
}

} // verus!
