use vstd::prelude::*;

use crate::entity::{
    after_eating, after_eating_plant, can_reproduce, child_of, moved_away, moved_randomly,
    moved_towards, parent_after, Entity, Plant, DIRECTION_REUSE, DT_MAX, JITTER_RANGE,
    PLANT_SIZE_MAX, REPRODUCTION_THRESHOLD,
};
use crate::fixed::{distance_spec, Vec2, POS_MAX};
use crate::random::{random_below, random_direction};
use crate::terrain::{adjusted, Terrain, TerrainBlock};

verus! {

/// Sensing radius per unit of `sense_distance`.
pub const SENSE_SCALE: i64 = 100;

/// Gap between the surfaces of two entities; negative when they overlap.
pub open spec fn entity_gap(a: Entity, b: Entity) -> int {
    distance_spec(a.position, b.position) - (a.size + b.size)
}

/// Gap between the surfaces of an entity and a plant.
pub open spec fn plant_gap(e: Entity, p: Plant) -> int {
    distance_spec(e.position, p.position) - (e.size + p.size)
}

pub open spec fn sense_radius(e: Entity) -> int {
    e.sense_distance * SENSE_SCALE
}

/// Every entity well formed.
pub open spec fn entities_wf(s: Seq<Entity>) -> bool {
    forall|i: int| 0 <= i < s.len() ==> (#[trigger] s[i]).wf()
}

/// Every plant well formed.
pub open spec fn plants_wf(s: Seq<Plant>) -> bool {
    forall|i: int| 0 <= i < s.len() ==> (#[trigger] s[i]).wf()
}

/// Among `s[0..n]` other than `s[i]`, the entity nearest to `s[i]` within its
/// sensing radius, with its gap: the first of the nearest on a tie.
pub open spec fn nearest_entity_in(s: Seq<Entity>, i: int, n: int) -> Option<(int, int)>
    decreases n,
{
    if n <= 0 {
        None
    } else {
        let j = n - 1;
        let d = entity_gap(s[i], s[j]);
        let in_range = j != i && d < sense_radius(s[i]);
        match nearest_entity_in(s, i, n - 1) {
            Some(best) => if in_range && d < best.1 {
                Some((j, d))
            } else {
                Some(best)
            },
            None => if in_range {
                Some((j, d))
            } else {
                None
            },
        }
    }
}

/// Among `ps[0..n]`, the plant nearest to `e` within its sensing radius,
/// with its gap: the first of the nearest on a tie.
pub open spec fn nearest_plant_in(e: Entity, ps: Seq<Plant>, n: int) -> Option<(int, int)>
    decreases n,
{
    if n <= 0 {
        None
    } else {
        let j = n - 1;
        let d = plant_gap(e, ps[j]);
        let in_range = d < sense_radius(e);
        match nearest_plant_in(e, ps, n - 1) {
            Some(best) => if in_range && d < best.1 {
                Some((j, d))
            } else {
                Some(best)
            },
            None => if in_range {
                Some((j, d))
            } else {
                None
            },
        }
    }
}

/// `r` is the executable form of the choice `c`.
pub open spec fn same_choice(r: Option<(usize, i64)>, c: Option<(int, int)>) -> bool {
    match (r, c) {
        (Some(a), Some(b)) => a.0 as int == b.0 && a.1 as int == b.1,
        (None, None) => true,
        _ => false,
    }
}

/// `other` is more than 20% bigger than `e`.
pub open spec fn is_bigger(other: Entity, e: Entity) -> bool {
    other.size * 10 > e.size * 12
}

/// `other` is more than 20% smaller than `e`.
pub open spec fn is_smaller(other: Entity, e: Entity) -> bool {
    other.size * 10 < e.size * 8
}

/// What an encounter of `e` with its nearest entity `o`, at gap `d`, does
/// to the two, and whether `e` moved. Overlapping: a bigger `o` is left to
/// eat `e` on its own turn; `e` eats an `o` it is more than 20% bigger than;
/// otherwise `e` moves away. Apart: `e` flees a bigger `o`, chases a smaller
/// one, and ignores one of about its size.
pub open spec fn encounter(e: Entity, o: Entity, d: int, dt: int) -> (Entity, Entity, bool) {
    if d <= 0 {
        if is_bigger(o, e) {
            (e, o, false)
        } else if is_bigger(e, o) {
            (after_eating(e, o), Entity { energy: 0, ..o }, false)
        } else {
            (moved_away(e, o.position, dt), o, true)
        }
    } else {
        if is_bigger(o, e) {
            (moved_away(e, o.position, dt), o, true)
        } else if is_smaller(o, e) {
            (moved_towards(e, o.position, d, dt), o, true)
        } else {
            (e, o, false)
        }
    }
}

/// What `e` does with its nearest plant `p`, at gap `d`: eats it when they
/// overlap, else steps towards it.
pub open spec fn forage(e: Entity, p: Plant, d: int, dt: int) -> (Entity, Plant) {
    if d <= 0 {
        (after_eating_plant(e, p), Plant { size: 0, ..p })
    } else {
        (moved_towards(e, p.position, d, dt), p)
    }
}

/// The populations after the entity at `i` senses, interacts and moves.
/// Sensing sees the populations as earlier entities of the tick left them.
pub open spec fn entity_step(
    es: Seq<Entity>,
    ps: Seq<Plant>,
    i: int,
    dt: int,
    fresh: Vec2,
) -> (Seq<Entity>, Seq<Plant>) {
    let near_e = nearest_entity_in(es, i, es.len() as int);
    let near_p = nearest_plant_in(es[i], ps, ps.len() as int);
    let (es1, moved1) = match near_e {
        Some(c) => {
            let (a, b, m) = encounter(es[i], es[c.0], c.1, dt);
            (es.update(i, a).update(c.0, b), m)
        },
        None => (es, false),
    };
    let (es2, ps2, moved2) = match near_p {
        Some(c) => {
            let (a, p) = forage(es1[i], ps[c.0], c.1, dt);
            (es1.update(i, a), ps.update(c.0, p), true)
        },
        None => (es1, ps, moved1),
    };
    if moved2 {
        (es2, ps2)
    } else {
        (es2.update(i, moved_randomly(es2[i], dt, fresh)), ps2)
    }
}

/// The nearest other entity that `entities[i]` senses, with its gap.
pub fn nearest_entity(entities: &Vec<Entity>, i: usize) -> (r: Option<(usize, i64)>)
    requires
        i < entities.len(),
        entities_wf(entities@),
    ensures
        same_choice(r, nearest_entity_in(entities@, i as int, entities.len() as int)),
        r matches Some(c) ==> c.0 < entities.len() && c.0 != i && -(crate::fixed::SCALE + PLANT_SIZE_MAX) <= c.1 <= 3 * POS_MAX,
{
    let e = entities[i];
    let radius = e.sense_distance * SENSE_SCALE;
    let mut best: Option<(usize, i64)> = None;
    let mut j: usize = 0;
    while j < entities.len()
        invariant
            j <= entities.len(),
            i < entities.len(),
            e == entities@[i as int],
            radius == e.sense_distance * SENSE_SCALE,
            entities_wf(entities@),
            same_choice(best, nearest_entity_in(entities@, i as int, j as int)),
            best matches Some(c) ==> c.0 < j && c.0 != i && -(crate::fixed::SCALE + PLANT_SIZE_MAX) <= c.1 <= 3 * POS_MAX,
        decreases entities.len() - j,
    {
        if j != i {
            let o = entities[j];
            assert(o.wf());
            let d = o.position.distance(e.position) - (o.size + e.size);
            assert(distance_spec(o.position, e.position) == distance_spec(e.position, o.position)) by {
                assert((o.position.x - e.position.x) * (o.position.x - e.position.x)
                    == (e.position.x - o.position.x) * (e.position.x - o.position.x)) by (nonlinear_arith);
                assert((o.position.y - e.position.y) * (o.position.y - e.position.y)
                    == (e.position.y - o.position.y) * (e.position.y - o.position.y)) by (nonlinear_arith);
            }
            if d < radius {
                match best {
                    Some(c) => {
                        if d < c.1 {
                            best = Some((j, d));
                        }
                    },
                    None => {
                        best = Some((j, d));
                    },
                }
            }
        }
        j = j + 1;
    }
    best
}

/// The nearest plant that `entity` senses, with its gap.
pub fn nearest_plant(entity: Entity, plants: &Vec<Plant>) -> (r: Option<(usize, i64)>)
    requires
        entity.wf(),
        plants_wf(plants@),
    ensures
        same_choice(r, nearest_plant_in(entity, plants@, plants.len() as int)),
        r matches Some(c) ==> c.0 < plants.len() && -(crate::fixed::SCALE + PLANT_SIZE_MAX) <= c.1 <= 3 * POS_MAX,
{
    let radius = entity.sense_distance * SENSE_SCALE;
    let mut best: Option<(usize, i64)> = None;
    let mut j: usize = 0;
    while j < plants.len()
        invariant
            j <= plants.len(),
            entity.wf(),
            radius == entity.sense_distance * SENSE_SCALE,
            plants_wf(plants@),
            same_choice(best, nearest_plant_in(entity, plants@, j as int)),
            best matches Some(c) ==> c.0 < j && -(crate::fixed::SCALE + PLANT_SIZE_MAX) <= c.1 <= 3 * POS_MAX,
        decreases plants.len() - j,
    {
        let p = plants[j];
        assert(p.wf());
        let d = entity.position.distance(p.position) - (entity.size + p.size);
        if d < radius {
            match best {
                Some(c) => {
                    if d < c.1 {
                        best = Some((j, d));
                    }
                },
                None => {
                    best = Some((j, d));
                },
            }
        }
        j = j + 1;
    }
    best
}

/// Resolves an encounter of `entity` with its nearest entity `other`, at gap
/// `distance`; returns both afterwards and whether `entity` moved.
pub fn resolve_encounter(entity: Entity, other: Entity, distance: i64, dt: i64) -> (r: (
    Entity,
    Entity,
    bool,
))
    requires
        entity.wf(),
        other.wf(),
        -4 * POS_MAX <= distance <= 4 * POS_MAX,
        0 <= dt <= DT_MAX,
    ensures
        r == encounter(entity, other, distance as int, dt as int),
        r.0.wf(),
        r.1.wf(),
{
    let mut e = entity;
    let mut o = other;
    let mut moved = false;
    if distance <= 0 {
        if o.size * 10 > e.size * 12 {
        } else if e.size * 10 > o.size * 12 {
            e.eat(&mut o);
        } else {
            e.move_away(o.position, dt);
            moved = true;
        }
    } else {
        if o.size * 10 > e.size * 12 {
            e.move_away(o.position, dt);
            moved = true;
        } else if o.size * 10 < e.size * 8 {
            e.move_towards(o.position, distance, dt);
            moved = true;
        }
    }
    (e, o, moved)
}

/// Resolves `entity` meeting its nearest plant `plant`, at gap `distance`.
pub fn resolve_forage(entity: Entity, plant: Plant, distance: i64, dt: i64) -> (r: (Entity, Plant))
    requires
        entity.wf(),
        plant.wf(),
        -4 * POS_MAX <= distance <= 4 * POS_MAX,
        0 <= dt <= DT_MAX,
    ensures
        r == forage(entity, plant, distance as int, dt as int),
        r.0.wf(),
        r.1.wf(),
{
    let mut e = entity;
    let mut p = plant;
    if distance <= 0 {
        e.eat_plant(&mut p);
    } else {
        e.move_towards(p.position, distance, dt);
    }
    (e, p)
}

/// One entity's turn: it senses its nearest entity and plant, resolves both
/// encounters, and walks randomly (drawing on `fresh` if its direction is
/// used up) when neither moved it. Both encounters may fire in one turn, and
/// each movement is paid for, so an entity can pay for two steps in a turn.
/// The plant is sensed before the entity encounter is resolved.
pub fn step_entity(entities: &mut Vec<Entity>, plants: &mut Vec<Plant>, i: usize, dt: i64, fresh: Vec2)
    requires
        i < old(entities).len(),
        entities_wf(old(entities)@),
        plants_wf(old(plants)@),
        0 <= dt <= DT_MAX,
        fresh.is_unit(),
    ensures
        (final(entities)@, final(plants)@) == entity_step(
            old(entities)@,
            old(plants)@,
            i as int,
            dt as int,
            fresh,
        ),
        entities_wf(final(entities)@),
        plants_wf(final(plants)@),
{
    let near_e = nearest_entity(entities, i);
    let near_p = nearest_plant(entities[i], plants);
    let mut moved = false;
    match near_e {
        Some(c) => {
            let (a, b, m) = resolve_encounter(entities[i], entities[c.0], c.1, dt);
            entities.set(i, a);
            entities.set(c.0, b);
            moved = m;
        },
        None => {},
    }
    match near_p {
        Some(c) => {
            let (a, p) = resolve_forage(entities[i], plants[c.0], c.1, dt);
            entities.set(i, a);
            plants.set(c.0, p);
            moved = true;
        },
        None => {},
    }
    if !moved {
        let mut e = entities[i];
        e.move_randomly(dt, fresh);
        entities.set(i, e);
    }
}

/// The entities of `s` that have enough energy to reproduce, in order.
pub open spec fn reproducers(s: Seq<Entity>) -> Seq<Entity>
    decreases s.len(),
{
    if s.len() == 0 {
        Seq::empty()
    } else {
        let r = reproducers(s.drop_last());
        if can_reproduce(s.last()) {
            r.push(s.last())
        } else {
            r
        }
    }
}

/// `e` after the reproduction stage.
pub open spec fn after_reproducing(e: Entity) -> Entity {
    if can_reproduce(e) {
        parent_after(e)
    } else {
        e
    }
}

/// `c` is a child that `p` may have: its traits are `p`'s jittered and
/// clamped, it carries `p`'s energy after reproducing, and it sits beside `p`.
pub open spec fn is_child_of(c: Entity, p: Entity) -> bool {
    exists|js: int, jd: int, jv: int, od: Vec2, cd: Vec2|
        0 <= js < JITTER_RANGE && 0 <= jd < JITTER_RANGE && 0 <= jv < JITTER_RANGE
            && od.is_unit() && cd.is_unit() && c == #[trigger] child_of(
            p,
            js,
            jd,
            jv,
            od,
            cd,
        )
}

/// `after` is `before` after the reproduction stage: each entity with
/// enough energy pays for one child, and the children follow all existing
/// entities, in the order of their parents.
pub open spec fn reproduced(before: Seq<Entity>, after: Seq<Entity>) -> bool {
    &&& after.len() == before.len() + reproducers(before).len()
    &&& forall|i: int| 0 <= i < before.len() ==> #[trigger] after[i] == after_reproducing(before[i])
    &&& forall|c: int|
        0 <= c < reproducers(before).len() ==> is_child_of(
            #[trigger] after[before.len() + c],
            reproducers(before)[c],
        )
}

/// Every entity with enough energy has one child: the parents pay for it,
/// and the children are appended after all existing entities, in the order
/// of their parents.
pub fn add_children(entities: &mut Vec<Entity>)
    requires
        entities_wf(old(entities)@),
    ensures
        entities_wf(final(entities)@),
        reproduced(old(entities)@, final(entities)@),
{
    let ghost start = entities@;
    let n = entities.len();
    let mut new_entities: Vec<Entity> = Vec::new();
    let mut i: usize = 0;
    while i < n
        invariant
            i <= n == entities@.len() == start.len(),
            entities_wf(entities@),
            entities_wf(new_entities@),
            forall|k: int| 0 <= k < i ==> #[trigger] entities@[k] == after_reproducing(start[k]),
            forall|k: int| i <= k < n ==> #[trigger] entities@[k] == start[k],
            new_entities@.len() == reproducers(start.subrange(0, i as int)).len(),
            forall|c: int|
                0 <= c < new_entities@.len() ==> is_child_of(
                    #[trigger] new_entities@[c],
                    reproducers(start.subrange(0, i as int))[c],
                ),
        decreases n - i,
    {
        let mut e = entities[i];
        assert(start.subrange(0, i + 1).drop_last() =~= start.subrange(0, i as int));
        assert(start.subrange(0, i + 1).last() == start[i as int]);
        let c = e.energy_cost();
        if e.energy >= c * REPRODUCTION_THRESHOLD {
            let js = random_below(JITTER_RANGE);
            let jd = random_below(JITTER_RANGE);
            let jv = random_below(JITTER_RANGE);
            let od = random_direction();
            let cd = random_direction();
            let child = e.reproduce(js, jd, jv, od, cd);
            assert(is_child_of(child, start[i as int]));
            new_entities.push(child);
            entities.set(i, e);
        }
        i = i + 1;
    }
    assert(start.subrange(0, n as int) =~= start);
    entities.append(&mut new_entities);
}

/// The shape of one entity's turn: the populations keep their lengths and
/// well-formedness, and a plant is at most eaten.
proof fn lemma_entity_step_shape(es: Seq<Entity>, ps: Seq<Plant>, i: int, dt: int, fresh: Vec2)
    requires
        0 <= i < es.len(),
        entities_wf(es),
        plants_wf(ps),
        0 <= dt <= DT_MAX,
        fresh.is_unit(),
    ensures
        entity_step(es, ps, i, dt, fresh).0.len() == es.len(),
        entity_step(es, ps, i, dt, fresh).1.len() == ps.len(),
        forall|k: int|
            0 <= k < ps.len() ==> {
                let q = #[trigger] entity_step(es, ps, i, dt, fresh).1[k];
                q == ps[k] || q == (Plant { size: 0, ..ps[k] })
            },
{
    lemma_nearest_entity_index(es, i, es.len() as int);
    lemma_nearest_plant_index(es[i], ps, ps.len() as int);
}

proof fn lemma_nearest_entity_index(s: Seq<Entity>, i: int, n: int)
    ensures
        nearest_entity_in(s, i, n) matches Some(c) ==> 0 <= c.0 < n && c.0 != i,
    decreases n,
{
    if n > 0 {
        lemma_nearest_entity_index(s, i, n - 1);
    }
}

proof fn lemma_nearest_plant_index(e: Entity, ps: Seq<Plant>, n: int)
    ensures
        nearest_plant_in(e, ps, n) matches Some(c) ==> 0 <= c.0 < n,
    decreases n,
{
    if n > 0 {
        lemma_nearest_plant_index(e, ps, n - 1);
    }
}

/// The populations after the first `n` entities take their turns in order,
/// the entity at `i` drawing on `fresh[i]` if its direction is used up.
pub open spec fn entity_pass(
    es: Seq<Entity>,
    ps: Seq<Plant>,
    dt: int,
    fresh: Seq<Vec2>,
    n: int,
) -> (Seq<Entity>, Seq<Plant>)
    decreases n,
{
    if n <= 0 {
        (es, ps)
    } else {
        let (es1, ps1) = entity_pass(es, ps, dt, fresh, n - 1);
        entity_step(es1, ps1, n - 1, dt, fresh[n - 1])
    }
}

proof fn lemma_entity_pass_prefix(
    es: Seq<Entity>,
    ps: Seq<Plant>,
    dt: int,
    f1: Seq<Vec2>,
    f2: Seq<Vec2>,
    n: int,
)
    requires
        0 <= n <= f1.len(),
        n <= f2.len(),
        forall|k: int| 0 <= k < n ==> f1[k] == f2[k],
    ensures
        entity_pass(es, ps, dt, f1, n) == entity_pass(es, ps, dt, f2, n),
    decreases n,
{
    if n > 0 {
        lemma_entity_pass_prefix(es, ps, dt, f1, f2, n - 1);
    }
}

/// `(es2, ps2)` is an outcome of the entity pass and reproduction on
/// `(es, ps)`: for some drawn directions, the pass in order, then
/// reproduction.
pub open spec fn entity_tick(
    es: Seq<Entity>,
    ps: Seq<Plant>,
    dt: int,
    es2: Seq<Entity>,
    ps2: Seq<Plant>,
) -> bool {
    exists|fresh: Seq<Vec2>|
        fresh.len() == es.len() && (forall|k: int|
            0 <= k < fresh.len() ==> (#[trigger] fresh[k]).is_unit()) && ({
            let pass = #[trigger] entity_pass(es, ps, dt, fresh, es.len() as int);
            &&& ps2 == pass.1
            &&& reproduced(pass.0, es2)
        })
}

/// One tick of the entity pass: every entity, in order, takes its turn
/// against the populations as earlier turns left them, so that a later
/// entity senses what earlier turns did (a random direction is drawn for
/// those whose direction is used up); then every entity with enough energy
/// reproduces. The children take no turn in this tick.
pub fn update(entities: &mut Vec<Entity>, plants: &mut Vec<Plant>, dt: i64)
    requires
        entities_wf(old(entities)@),
        plants_wf(old(plants)@),
        0 <= dt <= DT_MAX,
    ensures
        entities_wf(final(entities)@),
        plants_wf(final(plants)@),
        entity_tick(old(entities)@, old(plants)@, dt as int, final(entities)@, final(plants)@),
        final(plants)@.len() == old(plants)@.len(),
        forall|k: int|
            0 <= k < old(plants)@.len() ==> #[trigger] final(plants)@[k] == old(plants)@[k]
                || final(plants)@[k] == (Plant { size: 0, ..old(plants)@[k] }),
{
    let ghost es0 = entities@;
    let ghost ps0 = plants@;
    let ghost mut drawn: Seq<Vec2> = Seq::empty();
    let n = entities.len();
    let mut i: usize = 0;
    while i < n
        invariant
            i <= n == entities@.len(),
            entities_wf(entities@),
            plants_wf(plants@),
            0 <= dt <= DT_MAX,
            plants@.len() == ps0.len(),
            forall|k: int|
                0 <= k < ps0.len() ==> #[trigger] plants@[k] == ps0[k] || plants@[k] == (Plant {
                    size: 0,
                    ..ps0[k]
                }),
            n == es0.len(),
            drawn.len() == i,
            forall|k: int| 0 <= k < drawn.len() ==> (#[trigger] drawn[k]).is_unit(),
            (entities@, plants@) == entity_pass(es0, ps0, dt as int, drawn, i as int),
        decreases n - i,
    {
        let fresh = if entities[i].random_direction_uses >= DIRECTION_REUSE {
            random_direction()
        } else {
            entities[i].random_direction
        };
        proof {
            lemma_entity_step_shape(entities@, plants@, i as int, dt as int, fresh);
        }
        step_entity(entities, plants, i, dt, fresh);
        proof {
            let next = drawn.push(fresh);
            lemma_entity_pass_prefix(es0, ps0, dt as int, drawn, next, i as int);
            drawn = next;
        }
        i = i + 1;
    }
    let ghost pass_es = entities@;
    add_children(entities);
    assert(entity_pass(es0, ps0, dt as int, drawn, n as int).0 == pass_es);
}

/// Fertility added to the ground where an entity dies (0.3).
pub const DEATH_FERTILITY: i64 = 300;

/// The entities of `s` that are alive (positive energy), in order.
pub open spec fn survivors(s: Seq<Entity>) -> Seq<Entity>
    decreases s.len(),
{
    if s.len() == 0 {
        Seq::empty()
    } else {
        let r = survivors(s.drop_last());
        if s.last().energy > 0 {
            r.push(s.last())
        } else {
            r
        }
    }
}

/// The plants of `s` that are not eaten (positive size), in order.
pub open spec fn living_plants(s: Seq<Plant>) -> Seq<Plant>
    decreases s.len(),
{
    if s.len() == 0 {
        Seq::empty()
    } else {
        let r = living_plants(s.drop_last());
        if s.last().size > 0 {
            r.push(s.last())
        } else {
            r
        }
    }
}

/// The grid after each dead entity of `s`, in order, returns
/// `DEATH_FERTILITY` to the cell it died on.
pub open spec fn after_deaths(g: Seq<TerrainBlock>, s: Seq<Entity>) -> Seq<TerrainBlock>
    decreases s.len(),
{
    if s.len() == 0 {
        g
    } else {
        let g1 = after_deaths(g, s.drop_last());
        let e = s.last();
        if e.energy <= 0 {
            adjusted(g1, e.position.x as int, e.position.y as int, DEATH_FERTILITY as int)
        } else {
            g1
        }
    }
}

/// Removes dead entities, returning fertility to the ground where each died,
/// and removes eaten plants.
pub fn cull(entities: &mut Vec<Entity>, plants: &mut Vec<Plant>, terrain: &mut Terrain)
    requires
        entities_wf(old(entities)@),
        plants_wf(old(plants)@),
        old(terrain).wf(),
    ensures
        final(entities)@ == survivors(old(entities)@),
        final(plants)@ == living_plants(old(plants)@),
        final(terrain).blocks@ == after_deaths(old(terrain).blocks@, old(entities)@),
        entities_wf(final(entities)@),
        plants_wf(final(plants)@),
        final(terrain).wf(),
{
    let ghost es0 = entities@;
    let ghost g0 = terrain.blocks@;
    let mut kept: Vec<Entity> = Vec::new();
    let mut i: usize = 0;
    while i < entities.len()
        invariant
            i <= entities@.len(),
            entities@ == es0,
            entities_wf(es0),
            entities_wf(kept@),
            terrain.wf(),
            kept@ == survivors(es0.subrange(0, i as int)),
            terrain.blocks@ == after_deaths(g0, es0.subrange(0, i as int)),
        decreases entities@.len() - i,
    {
        let e = entities[i];
        assert(es0.subrange(0, i + 1).drop_last() =~= es0.subrange(0, i as int));
        assert(es0.subrange(0, i + 1).last() == es0[i as int]);
        if e.energy <= 0 {
            terrain.adjust_fertility(e.position.x, e.position.y, DEATH_FERTILITY);
        } else {
            kept.push(e);
        }
        i = i + 1;
    }
    assert(es0.subrange(0, es0.len() as int) =~= es0);
    let ghost ps0 = plants@;
    let mut left: Vec<Plant> = Vec::new();
    let mut j: usize = 0;
    while j < plants.len()
        invariant
            j <= plants@.len(),
            plants@ == ps0,
            plants_wf(ps0),
            plants_wf(left@),
            left@ == living_plants(ps0.subrange(0, j as int)),
        decreases plants@.len() - j,
    {
        let p = plants[j];
        assert(ps0.subrange(0, j + 1).drop_last() =~= ps0.subrange(0, j as int));
        assert(ps0.subrange(0, j + 1).last() == ps0[j as int]);
        if p.size > 0 {
            left.push(p);
        }
        j = j + 1;
    }
    assert(ps0.subrange(0, ps0.len() as int) =~= ps0);
    *entities = kept;
    *plants = left;
}

} // verus!
