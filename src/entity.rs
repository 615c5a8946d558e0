use vstd::prelude::*;

use crate::fixed::{
    clamp, div_trunc, direction_between, direction_to, offset_spec, tdiv, Vec2, POS_MAX, SCALE,
};
use crate::random::random_direction;

verus! {

/// Smallest value of a heritable trait (0.1).
pub const TRAIT_MIN: i64 = 100;

/// Largest value of a heritable trait (1.0).
pub const TRAIT_MAX: i64 = 1000;

/// Largest magnitude of an entity's energy, in milli-units.
pub const ENERGY_MAX: i64 = 1_000_000_000_000_000;

/// Energy gained per unit of plant energy eaten.
pub const PLANT_ENERGY_SCALE: i64 = 5000;

/// Largest size of a plant (1000 units), which keeps its energy and the
/// distances measured to it within range of the arithmetic.
pub const PLANT_SIZE_MAX: i64 = 1_000_000;

/// Most ticks a random direction is followed before a new one is drawn.
pub const DIRECTION_REUSE: u32 = 100;

/// Largest time step, in milli-seconds.
pub const DT_MAX: i64 = 1_000_000;

/// Energy, in units of `energy_cost`, needed to reproduce.
pub const REPRODUCTION_THRESHOLD: i64 = 10_000;

/// Energy, in units of `energy_cost`, spent on reproducing.
pub const REPRODUCTION_COST: i64 = 1000;

/// Range of the jitter drawn for a child's trait: `[0, 200)` milli-units,
/// giving a factor in `[0.9, 1.1)`.
pub const JITTER_RANGE: u32 = 200;

/// A stationary food item.
#[derive(Clone, Copy, Debug)]
pub struct Plant {
    pub position: Vec2,
    /// Size in milli-units; zero once eaten.
    pub size: i64,
}

/// A mobile agent with heritable traits and an energy budget.
#[derive(Clone, Copy, Debug)]
pub struct Entity {
    pub size: i64,
    pub sense_distance: i64,
    pub velocity_mag: i64,
    pub random_direction: Vec2,
    pub random_direction_uses: u32,
    pub position: Vec2,
    pub energy: i64,
}

pub open spec fn trait_ok(v: int) -> bool {
    TRAIT_MIN <= v <= TRAIT_MAX
}

pub open spec fn clamp_energy(v: int) -> int {
    clamp(v, -ENERGY_MAX as int, ENERGY_MAX as int)
}

pub open spec fn plant_energy(p: Plant) -> int {
    p.size * p.size / SCALE as int
}

pub open spec fn mass_spec(e: Entity) -> int {
    e.size * e.size / SCALE as int
}

pub open spec fn velocity_spec(e: Entity) -> int {
    e.velocity_mag / 10
}

/// Energy spent per second alive and moving.
pub open spec fn cost_spec(e: Entity) -> int {
    e.size * e.velocity_mag / SCALE as int + e.sense_distance
}

/// `e` after paying for `dt` milli-seconds of activity.
pub open spec fn consumed(e: Entity, dt: int) -> Entity {
    Entity { energy: clamp_energy(e.energy - cost_spec(e) * dt / SCALE as int) as i64, ..e }
}

/// `e` after eating `other`.
pub open spec fn after_eating(e: Entity, other: Entity) -> Entity {
    Entity { energy: clamp_energy(e.energy + tdiv(other.energy * e.size, SCALE as int)) as i64, ..e }
}

/// `e` after eating the plant `p`.
pub open spec fn after_eating_plant(e: Entity, p: Plant) -> Entity {
    Entity { energy: clamp_energy(e.energy + plant_energy(p) * PLANT_ENERGY_SCALE) as i64, ..e }
}

/// `e` after one step towards `target`, whose surface lies `distance` away;
/// it lands on the target when that is closer than one step.
pub open spec fn moved_towards(e: Entity, target: Vec2, distance: int, dt: int) -> Entity {
    let p = if distance + e.size < velocity_spec(e) {
        target
    } else {
        offset_spec(e.position, direction_to(e.position, target), velocity_spec(e))
    };
    consumed(Entity { position: p, ..e }, dt)
}

/// `e` after one step away from `target`.
pub open spec fn moved_away(e: Entity, target: Vec2, dt: int) -> Entity {
    consumed(
        Entity {
            position: offset_spec(e.position, direction_to(e.position, target), -velocity_spec(e)),
            ..e
        },
        dt,
    )
}

/// `e` after one step along its random direction, which is replaced by
/// `fresh` once it has been used `DIRECTION_REUSE` times.
pub open spec fn moved_randomly(e: Entity, dt: int, fresh: Vec2) -> Entity {
    let e1 = if e.random_direction_uses >= DIRECTION_REUSE {
        Entity { random_direction: fresh, random_direction_uses: 0, ..e }
    } else {
        e
    };
    consumed(
        Entity {
            position: offset_spec(e1.position, e1.random_direction, velocity_spec(e1)),
            random_direction_uses: (e1.random_direction_uses + 1) as u32,
            ..e1
        },
        dt,
    )
}

/// A trait scaled by `(900 + jitter) / 1000` and clamped to the trait range.
pub open spec fn jittered(v: int, jitter: int) -> int {
    clamp(tdiv(v * (900 + jitter), SCALE as int), TRAIT_MIN as int, TRAIT_MAX as int)
}

/// Has enough energy to reproduce.
pub open spec fn can_reproduce(e: Entity) -> bool {
    e.energy >= cost_spec(e) * REPRODUCTION_THRESHOLD
}

/// A parent after reproducing: the reproduction cost is paid and the rest
/// halved with the child.
pub open spec fn parent_after(e: Entity) -> Entity {
    Entity { energy: ((e.energy - cost_spec(e) * REPRODUCTION_COST) / 2) as i64, ..e }
}

/// The child of `e` for the given jitters, offset direction and own direction.
pub open spec fn child_of(e: Entity, js: int, jd: int, jv: int, offset_dir: Vec2, dir: Vec2) -> Entity {
    let size = jittered(e.size as int, js);
    Entity {
        size: size as i64,
        sense_distance: jittered(e.sense_distance as int, jd) as i64,
        velocity_mag: jittered(e.velocity_mag as int, jv) as i64,
        random_direction: dir,
        random_direction_uses: 0,
        position: offset_spec(e.position, offset_dir, e.size + size),
        energy: parent_after(e).energy,
    }
}

/// A trait scaled by a jitter factor in `[0.9, 1.1)` and clamped to `[0.1, 1.0]`.
pub fn randomize_trait(trait_value: i64, jitter: u32) -> (r: i64)
    requires
        -ENERGY_MAX <= trait_value <= ENERGY_MAX,
        jitter < JITTER_RANGE,
    ensures
        r as int == jittered(trait_value as int, jitter as int),
        trait_ok(r as int),
{
    let factor: i64 = 900 + jitter as i64;
    assert(-ENERGY_MAX * 1100 <= trait_value * factor <= ENERGY_MAX * 1100) by (nonlinear_arith)
        requires
            -ENERGY_MAX <= trait_value <= ENERGY_MAX,
            0 <= factor <= 1100,
    ;
    let v = div_trunc(trait_value * factor, SCALE);
    if v < TRAIT_MIN {
        TRAIT_MIN
    } else if v > TRAIT_MAX {
        TRAIT_MAX
    } else {
        v
    }
}

impl Plant {
    pub open spec fn wf(self) -> bool {
        self.position.in_world() && 0 <= self.size <= PLANT_SIZE_MAX
    }

    pub fn new(position: Vec2, size: i64) -> (r: Plant)
        ensures
            r.position == position,
            r.size == size,
    {
        Plant { position, size }
    }

    /// Stored energy: the square of the size.
    pub fn energy(&self) -> (r: i64)
        requires
            self.wf(),
        ensures
            r as int == plant_energy(*self),
            0 <= r <= 1_000_000_000,
    {
        assert(0 <= self.size * self.size <= 1_000_000_000_000) by (nonlinear_arith)
            requires
                0 <= self.size <= PLANT_SIZE_MAX,
        ;
        self.size * self.size / SCALE
    }
}

impl Entity {
    pub open spec fn wf(self) -> bool {
        &&& trait_ok(self.size as int)
        &&& trait_ok(self.sense_distance as int)
        &&& trait_ok(self.velocity_mag as int)
        &&& self.random_direction.is_unit()
        &&& self.random_direction_uses <= DIRECTION_REUSE
        &&& self.position.in_world()
        &&& -ENERGY_MAX <= self.energy <= ENERGY_MAX
    }

    /// An entity with the given traits, position and energy, heading in a
    /// random direction.
    pub fn new(size: i64, sense_distance: i64, velocity_mag: i64, position: Vec2, energy: i64) -> (r: Entity)
        ensures
            r.size == size,
            r.sense_distance == sense_distance,
            r.velocity_mag == velocity_mag,
            r.position == position,
            r.energy == energy,
            r.random_direction.is_unit(),
            r.random_direction_uses == 0,
            trait_ok(size as int) && trait_ok(sense_distance as int) && trait_ok(velocity_mag as int)
                && position.in_world() && -ENERGY_MAX <= energy <= ENERGY_MAX ==> r.wf(),
    {
        Entity {
            size,
            sense_distance,
            velocity_mag,
            random_direction: random_direction(),
            random_direction_uses: 0,
            position,
            energy,
        }
    }

    /// The square of the size.
    pub fn mass(&self) -> (r: i64)
        requires
            self.wf(),
        ensures
            r as int == mass_spec(*self),
    {
        assert(0 <= self.size * self.size <= SCALE * SCALE) by (nonlinear_arith)
            requires
                0 <= self.size <= SCALE,
        ;
        self.size * self.size / SCALE
    }

    /// Distance covered per tick: a tenth of `velocity_mag`.
    pub fn velocity(&self) -> (r: i64)
        requires
            self.wf(),
        ensures
            r as int == velocity_spec(*self),
            10 <= r <= 100,
    {
        self.velocity_mag / 10
    }

    /// Energy spent per second: `size * velocity_mag + sense_distance`.
    pub fn energy_cost(&self) -> (r: i64)
        requires
            self.wf(),
        ensures
            r as int == cost_spec(*self),
            TRAIT_MIN <= r <= 2 * SCALE,
    {
        assert(0 <= self.size * self.velocity_mag <= SCALE * SCALE) by (nonlinear_arith)
            requires
                0 <= self.size <= SCALE,
                0 <= self.velocity_mag <= SCALE,
        ;
        self.size * self.velocity_mag / SCALE + self.sense_distance
    }

    /// Pays for `dt` milli-seconds of activity.
    pub fn consume_energy(&mut self, dt: i64)
        requires
            old(self).wf(),
            0 <= dt <= DT_MAX,
        ensures
            *final(self) == consumed(*old(self), dt as int),
            final(self).wf(),
    {
        let c = self.energy_cost();
        assert(0 <= c * dt <= 2 * SCALE * DT_MAX) by (nonlinear_arith)
            requires
                0 <= c <= 2 * SCALE,
                0 <= dt <= DT_MAX,
        ;
        self.energy = clamp_energy_exec(self.energy - c * dt / SCALE);
    }

    /// Eats `other`: gains `other.energy * size`; `other` is left with none.
    pub fn eat(&mut self, other: &mut Entity)
        requires
            old(self).wf(),
            old(other).wf(),
        ensures
            *final(self) == after_eating(*old(self), *old(other)),
            *final(other) == (Entity { energy: 0, ..*old(other) }),
            final(self).wf(),
            final(other).wf(),
    {
        assert(-ENERGY_MAX * SCALE <= other.energy * self.size <= ENERGY_MAX * SCALE) by (nonlinear_arith)
            requires
                -ENERGY_MAX <= other.energy <= ENERGY_MAX,
                0 <= self.size <= SCALE,
        ;
        let gain = div_trunc(other.energy * self.size, SCALE);
        self.energy = clamp_energy_exec(self.energy + gain);
        other.energy = 0;
    }

    /// Eats `plant`: gains its energy times `PLANT_ENERGY_SCALE`; the plant's
    /// size becomes zero.
    pub fn eat_plant(&mut self, plant: &mut Plant)
        requires
            old(self).wf(),
            old(plant).wf(),
        ensures
            *final(self) == after_eating_plant(*old(self), *old(plant)),
            *final(plant) == (Plant { size: 0, ..*old(plant) }),
            final(self).wf(),
            final(plant).wf(),
    {
        let gain = plant.energy() * PLANT_ENERGY_SCALE;
        self.energy = clamp_energy_exec(self.energy + gain);
        plant.size = 0;
    }

    /// One step along the random direction, drawing on `fresh` once the
    /// current direction is used up.
    pub fn move_randomly(&mut self, dt: i64, fresh: Vec2)
        requires
            old(self).wf(),
            0 <= dt <= DT_MAX,
            fresh.is_unit(),
        ensures
            *final(self) == moved_randomly(*old(self), dt as int, fresh),
            final(self).wf(),
    {
        if self.random_direction_uses >= DIRECTION_REUSE {
            self.random_direction = fresh;
            self.random_direction_uses = 0;
        }
        let v = self.velocity();
        self.position = self.position.offset(self.random_direction, v);
        self.random_direction_uses = self.random_direction_uses + 1;
        self.consume_energy(dt);
    }

    /// One step towards `target`, whose surface lies `distance` away.
    pub fn move_towards(&mut self, target: Vec2, distance: i64, dt: i64)
        requires
            old(self).wf(),
            target.in_world(),
            -4 * POS_MAX <= distance <= 4 * POS_MAX,
            0 <= dt <= DT_MAX,
        ensures
            *final(self) == moved_towards(*old(self), target, distance as int, dt as int),
            final(self).wf(),
    {
        let v = self.velocity();
        if distance + self.size < v {
            self.position = target;
        } else {
            let d = direction_between(self.position, target);
            self.position = self.position.offset(d, v);
        }
        self.consume_energy(dt);
    }

    /// One step away from `target`.
    pub fn move_away(&mut self, target: Vec2, dt: i64)
        requires
            old(self).wf(),
            target.in_world(),
            0 <= dt <= DT_MAX,
        ensures
            *final(self) == moved_away(*old(self), target, dt as int),
            final(self).wf(),
    {
        let v = self.velocity();
        let d = direction_between(self.position, target);
        self.position = self.position.offset(d, -v);
        self.consume_energy(dt);
    }

    /// Reproduces: pays the reproduction cost, halves what is left with the
    /// child, and returns the child, whose traits are this entity's scaled by
    /// the jitters and clamped, placed along `offset_dir` at the sum of the
    /// two sizes, heading along `child_dir`.
    pub fn reproduce(
        &mut self,
        size_jitter: u32,
        sense_jitter: u32,
        velocity_jitter: u32,
        offset_dir: Vec2,
        child_dir: Vec2,
    ) -> (child: Entity)
        requires
            old(self).wf(),
            can_reproduce(*old(self)),
            size_jitter < JITTER_RANGE,
            sense_jitter < JITTER_RANGE,
            velocity_jitter < JITTER_RANGE,
            offset_dir.is_unit(),
            child_dir.is_unit(),
        ensures
            *final(self) == parent_after(*old(self)),
            child == child_of(
                *old(self),
                size_jitter as int,
                sense_jitter as int,
                velocity_jitter as int,
                offset_dir,
                child_dir,
            ),
            final(self).wf(),
            child.wf(),
    {
        let c = self.energy_cost();
        self.energy = (self.energy - c * REPRODUCTION_COST) / 2;
        let size = randomize_trait(self.size, size_jitter);
        let sense_distance = randomize_trait(self.sense_distance, sense_jitter);
        let velocity_mag = randomize_trait(self.velocity_mag, velocity_jitter);
        let position = self.position.offset(offset_dir, self.size + size);
        Entity {
            size,
            sense_distance,
            velocity_mag,
            random_direction: child_dir,
            random_direction_uses: 0,
            position,
            energy: self.energy,
        }
    }
}

/// `v` limited to `[-ENERGY_MAX, ENERGY_MAX]`.
pub fn clamp_energy_exec(v: i64) -> (r: i64)
    ensures
        r as int == clamp_energy(v as int),
{
    if v < -ENERGY_MAX {
        -ENERGY_MAX
    } else if v > ENERGY_MAX {
        ENERGY_MAX
    } else {
        v
    }
}

} // verus!
