use vstd::prelude::*;

use crate::entity::{child_of, trait_ok, Entity, Plant, ENERGY_MAX};
use crate::fixed::{tdiv, Vec2, SCALE};
use crate::terrain::{adjusted, cell_of, grid_wf, TerrainBlock};
use crate::world::{
    after_deaths, encounter, entity_gap, is_bigger, living_plants, nearest_entity_in,
    nearest_plant_in, plant_gap, sense_radius, survivors,
};

verus! {

/// A child's traits lie in `[0.1, 1.0]`, whatever the parent's traits and
/// whatever jitters were drawn.
pub proof fn lemma_child_traits_clamped(p: Entity, js: int, jd: int, jv: int, od: Vec2, cd: Vec2)
    ensures
        trait_ok(child_of(p, js, jd, jv, od, cd).size as int),
        trait_ok(child_of(p, js, jd, jv, od, cd).sense_distance as int),
        trait_ok(child_of(p, js, jd, jv, od, cd).velocity_mag as int),
{
}

/// When `a` overlaps `b` and is more than 20% bigger, `a` eats `b`: `a`
/// gains `b`'s energy times `a`'s size (a fixed-point product, rounded
/// towards zero) and `b` is left with no energy; nothing else changes.
/// Stated where `a`'s new energy stays within `ENERGY_MAX`.
pub proof fn lemma_predation_energy(a: Entity, b: Entity, gap: int, dt: int)
    requires
        a.wf(),
        b.wf(),
        gap <= 0,
        is_bigger(a, b),
        -ENERGY_MAX <= a.energy + tdiv(b.energy * a.size, SCALE as int) <= ENERGY_MAX,
    ensures
        encounter(a, b, gap, dt).0.energy == a.energy + tdiv(b.energy * a.size, SCALE as int),
        encounter(a, b, gap, dt).1.energy == 0,
        encounter(a, b, gap, dt).0 == (Entity { energy: encounter(a, b, gap, dt).0.energy, ..a }),
        encounter(a, b, gap, dt).1 == (Entity { energy: 0, ..b }),
{
}

/// The grid after a sequence of fertility adjustments `(x, y, delta)`, in order.
pub open spec fn apply_adjustments(g: Seq<TerrainBlock>, ops: Seq<(int, int, int)>) -> Seq<
    TerrainBlock,
>
    decreases ops.len(),
{
    if ops.len() == 0 {
        g
    } else {
        let o = ops.last();
        adjusted(apply_adjustments(g, ops.drop_last()), o.0, o.1, o.2)
    }
}

proof fn lemma_adjusted_wf(g: Seq<TerrainBlock>, x: int, y: int, delta: int)
    requires
        grid_wf(g),
    ensures
        grid_wf(adjusted(g, x, y, delta)),
{
}

/// Fertility is never negative: any sequence of adjustments, of any sizes
/// and anywhere, leaves every cell of a well-formed grid within
/// `[0, FERTILITY_MAX]`.
pub proof fn lemma_fertility_never_negative(g: Seq<TerrainBlock>, ops: Seq<(int, int, int)>)
    requires
        grid_wf(g),
    ensures
        grid_wf(apply_adjustments(g, ops)),
    decreases ops.len(),
{
    if ops.len() > 0 {
        lemma_fertility_never_negative(g, ops.drop_last());
        let o = ops.last();
        lemma_adjusted_wf(apply_adjustments(g, ops.drop_last()), o.0, o.1, o.2);
    }
}

/// A position far enough off the grid on either axis has no cell, and
/// adjusting fertility there leaves the grid unchanged.
pub proof fn lemma_off_grid_untouched(g: Seq<TerrainBlock>, x: int, y: int, delta: int)
    requires
        x <= -102_000 || x >= 98_000 || y <= -102_000 || y >= 98_000,
    ensures
        cell_of(x, y) is None,
        adjusted(g, x, y, delta) == g,
{
}

/// Every survivor is alive.
pub proof fn lemma_survivors_alive(s: Seq<Entity>)
    ensures
        forall|k: int| 0 <= k < survivors(s).len() ==> (#[trigger] survivors(s)[k]).energy > 0,
    decreases s.len(),
{
    if s.len() > 0 {
        lemma_survivors_alive(s.drop_last());
        let r = survivors(s.drop_last());
        assert forall|k: int| 0 <= k < survivors(s).len() implies (#[trigger] survivors(s)[k]).energy
            > 0 by {
            if s.last().energy > 0 && k < r.len() {
                assert(survivors(s)[k] == r[k]);
            }
        }
    }
}

/// Every plant left is uneaten.
pub proof fn lemma_living_plants_positive(s: Seq<Plant>)
    ensures
        forall|k: int| 0 <= k < living_plants(s).len() ==> (#[trigger] living_plants(s)[k]).size > 0,
    decreases s.len(),
{
    if s.len() > 0 {
        lemma_living_plants_positive(s.drop_last());
        let r = living_plants(s.drop_last());
        assert forall|k: int| 0 <= k < living_plants(s).len() implies (#[trigger] living_plants(
            s,
        )[k]).size > 0 by {
            if s.last().size > 0 && k < r.len() {
                assert(living_plants(s)[k] == r[k]);
            }
        }
    }
}

proof fn lemma_survivors_of_living(s: Seq<Entity>)
    requires
        forall|k: int| 0 <= k < s.len() ==> (#[trigger] s[k]).energy > 0,
    ensures
        survivors(s) == s,
        forall|g: Seq<TerrainBlock>| #[trigger] after_deaths(g, s) == g,
    decreases s.len(),
{
    if s.len() > 0 {
        assert(s[s.len() - 1].energy > 0);
        assert forall|k: int| 0 <= k < s.drop_last().len() implies (#[trigger] s.drop_last()[k]).energy
            > 0 by {
            assert(s.drop_last()[k] == s[k]);
        }
        lemma_survivors_of_living(s.drop_last());
        assert(s.drop_last().push(s.last()) =~= s);
        assert forall|g: Seq<TerrainBlock>| #[trigger] after_deaths(g, s) == g by {
            assert(after_deaths(g, s.drop_last()) == g);
        }
    }
}

proof fn lemma_living_plants_of_living(s: Seq<Plant>)
    requires
        forall|k: int| 0 <= k < s.len() ==> (#[trigger] s[k]).size > 0,
    ensures
        living_plants(s) == s,
    decreases s.len(),
{
    if s.len() > 0 {
        assert(s[s.len() - 1].size > 0);
        assert forall|k: int| 0 <= k < s.drop_last().len() implies (#[trigger] s.drop_last()[k]).size
            > 0 by {
            assert(s.drop_last()[k] == s[k]);
        }
        lemma_living_plants_of_living(s.drop_last());
        assert(s.drop_last().push(s.last()) =~= s);
    }
}

/// Culling twice in a row removes nothing the second time: the survivors
/// and the plants left stay as they are, and no fertility is returned.
pub proof fn lemma_cull_idempotent(es: Seq<Entity>, ps: Seq<Plant>, g: Seq<TerrainBlock>)
    ensures
        survivors(survivors(es)) == survivors(es),
        living_plants(living_plants(ps)) == living_plants(ps),
        after_deaths(g, survivors(es)) == g,
{
    lemma_survivors_alive(es);
    lemma_survivors_of_living(survivors(es));
    lemma_living_plants_positive(ps);
    lemma_living_plants_of_living(living_plants(ps));
}

/// The entity that `s[i]` senses among `s[0..n]` is the first of the others
/// at the least gap below its sensing radius; there is none exactly when no
/// other lies within the radius.
pub proof fn lemma_nearest_entity_is_nearest(s: Seq<Entity>, i: int, n: int)
    ensures
        match nearest_entity_in(s, i, n) {
            Some(c) => {
                &&& 0 <= c.0 < n && c.0 != i
                &&& c.1 == entity_gap(s[i], s[c.0])
                &&& c.1 < sense_radius(s[i])
                &&& forall|k: int|
                    0 <= k < n && k != i && #[trigger] entity_gap(s[i], s[k]) < sense_radius(s[i])
                        ==> c.1 <= entity_gap(s[i], s[k])
                &&& forall|k: int|
                    0 <= k < c.0 && k != i && #[trigger] entity_gap(s[i], s[k]) < sense_radius(s[i])
                        ==> c.1 < entity_gap(s[i], s[k])
            },
            None => forall|k: int|
                0 <= k < n && k != i ==> #[trigger] entity_gap(s[i], s[k]) >= sense_radius(s[i]),
        },
    decreases n,
{
    if n > 0 {
        lemma_nearest_entity_is_nearest(s, i, n - 1);
    }
}

/// The plant that `e` senses among `ps[0..n]` is the first at the least gap
/// below its sensing radius; there is none exactly when no plant lies
/// within the radius.
pub proof fn lemma_nearest_plant_is_nearest(e: Entity, ps: Seq<Plant>, n: int)
    ensures
        match nearest_plant_in(e, ps, n) {
            Some(c) => {
                &&& 0 <= c.0 < n
                &&& c.1 == plant_gap(e, ps[c.0])
                &&& c.1 < sense_radius(e)
                &&& forall|k: int|
                    0 <= k < n && #[trigger] plant_gap(e, ps[k]) < sense_radius(e) ==> c.1 <= plant_gap(
                        e,
                        ps[k],
                    )
                &&& forall|k: int|
                    0 <= k < c.0 && #[trigger] plant_gap(e, ps[k]) < sense_radius(e) ==> c.1 < plant_gap(
                        e,
                        ps[k],
                    )
            },
            None => forall|k: int| 0 <= k < n ==> #[trigger] plant_gap(e, ps[k]) >= sense_radius(e),
        },
    decreases n,
{
    if n > 0 {
        lemma_nearest_plant_is_nearest(e, ps, n - 1);
    }
}

} // verus!
