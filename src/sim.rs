use vstd::prelude::*;

use crate::entity::{Entity, Plant, DT_MAX};
use crate::fixed::Vec2;
use crate::growth::{
    grow_plants, growth_tick, is_sprout_of, sprout_of, sprouted_from, SPROUT_SIZE_RANGE,
};
use crate::laws::{lemma_living_plants_positive, lemma_survivors_alive};
use crate::terrain::{initial_fertility, Terrain, CELL_COUNT, MAX_CARRYING_CAPACITY};
use crate::world::{
    after_deaths, cull, entities_wf, entity_tick, living_plants, plants_wf, survivors, update,
};

verus! {

/// Size of a plant placed by hand (0.1).
pub const PLACED_PLANT_SIZE: i64 = 100;

/// The whole simulation: the populations and the terrain they live on.
pub struct App {
    pub entities: Vec<Entity>,
    pub plants: Vec<Plant>,
    pub terrain: Terrain,
}

impl App {
    pub open spec fn wf(&self) -> bool {
        &&& entities_wf(self.entities@)
        &&& plants_wf(self.plants@)
        &&& self.terrain.wf()
    }

    /// An empty world on fresh terrain.
    pub fn new() -> (r: App)
        ensures
            r.wf(),
            r.entities@.len() == 0,
            r.plants@.len() == 0,
            forall|k: int|
                0 <= k < CELL_COUNT ==> {
                    &&& (#[trigger] r.terrain.blocks@[k]).fertility == initial_fertility(k)
                    &&& r.terrain.blocks@[k].number_of_plants == 0
                    &&& r.terrain.blocks@[k].max_carrying_capacity == MAX_CARRYING_CAPACITY
                },
            r.terrain.blocks@.len() == CELL_COUNT,
    {
        App { entities: Vec::new(), plants: Vec::new(), terrain: Terrain::new() }
    }

    /// One tick of `dt` milli-seconds: the entity pass and reproduction,
    /// then culling with fertility returned at each death, then plant growth.
    /// Afterwards every entity is alive and every plant uneaten.
    pub fn update(&mut self, dt: i64)
        requires
            old(self).wf(),
            0 <= dt <= DT_MAX,
        ensures
            final(self).wf(),
            forall|i: int|
                0 <= i < final(self).entities@.len() ==> (#[trigger] final(self).entities@[i]).energy
                    > 0,
            forall|i: int| 0 <= i < final(self).plants@.len() ==> (#[trigger] final(self).plants@[i]).size > 0,
            exists|es1: Seq<Entity>, ps1: Seq<Plant>|
                #[trigger] entity_tick(old(self).entities@, old(self).plants@, dt as int, es1, ps1) && {
                    let g1 = after_deaths(old(self).terrain.blocks@, es1);
                    &&& final(self).entities@ == survivors(es1)
                    &&& growth_tick(g1, living_plants(ps1), final(self).terrain.blocks@, final(self).plants@)
                },
    {
        update(&mut self.entities, &mut self.plants, dt);
        let ghost es_mid = self.entities@;
        let ghost ps_mid = self.plants@;
        cull(&mut self.entities, &mut self.plants, &mut self.terrain);
        proof {
            lemma_survivors_alive(es_mid);
            lemma_living_plants_positive(ps_mid);
        }
        let ghost ps_culled = self.plants@;
        let ghost g_culled = self.terrain.blocks@;
        grow_plants(&mut self.plants, &mut self.terrain);
        assert forall|i: int| 0 <= i < self.plants@.len() implies (#[trigger] self.plants@[i]).size > 0 by {
            if i >= ps_culled.len() {
                assert(sprouted_from(self.plants@[i], ps_culled, g_culled));
                let j = choose|j: int|
                    0 <= j < ps_culled.len() && is_sprout_of(self.plants@[i], #[trigger] ps_culled[j], g_culled);
                let (sd, dir) = choose|sd: int, dir: Vec2|
                    0 <= sd < SPROUT_SIZE_RANGE && dir.is_unit() && self.plants@[i] == #[trigger] sprout_of(
                        ps_culled[j],
                        sd,
                        dir,
                    );
            }
        }
        assert(entity_tick(old(self).entities@, old(self).plants@, dt as int, es_mid, ps_mid));
    }

    /// Places a plant of `PLACED_PLANT_SIZE` at `position`.
    pub fn add_plant(&mut self, position: Vec2)
        requires
            old(self).wf(),
            position.in_world(),
        ensures
            final(self).wf(),
            final(self).plants@ == old(self).plants@.push(Plant { position, size: PLACED_PLANT_SIZE }),
            final(self).entities@ == old(self).entities@,
            final(self).terrain == old(self).terrain,
    {
        self.plants.push(Plant { position, size: PLACED_PLANT_SIZE });
    }

    /// Adds an entity to the population.
    pub fn add_entity(&mut self, entity: Entity)
        requires
            old(self).wf(),
            entity.wf(),
        ensures
            final(self).wf(),
            final(self).entities@ == old(self).entities@.push(entity),
            final(self).plants@ == old(self).plants@,
            final(self).terrain == old(self).terrain,
    {
        self.entities.push(entity);
    }
}

} // verus!
