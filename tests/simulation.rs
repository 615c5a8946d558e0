use ecosim::entity::{randomize_trait, Entity, Plant, ENERGY_MAX};
use ecosim::fixed::{isqrt, normalize, Vec2};
use ecosim::growth::{grow_from, grow_plants, grows, sprout};
use ecosim::sim::App;
use ecosim::terrain::{cell_index, Terrain, FERTILITY_MAX};
use ecosim::world::{
    add_children, cull, nearest_entity, nearest_plant, resolve_encounter, resolve_forage,
    step_entity, update,
};

fn entity(size: i64, sense: i64, vel: i64, x: i64, y: i64, energy: i64) -> Entity {
    Entity {
        size,
        sense_distance: sense,
        velocity_mag: vel,
        random_direction: Vec2 { x: 1000, y: 0 },
        random_direction_uses: 0,
        position: Vec2 { x, y },
        energy,
    }
}

fn trait_ok(v: i64) -> bool {
    (100..=1000).contains(&v)
}

#[test]
fn simple_predation_in_one_tick() {
    let mut entities = vec![
        entity(1000, 100, 100, 0, 0, 100_000),
        entity(500, 100, 100, 0, 0, 50_000),
    ];
    let mut plants: Vec<Plant> = Vec::new();
    update(&mut entities, &mut plants, 0);
    assert_eq!(entities.len(), 2);
    assert_eq!(entities[0].energy, 150_000);
    assert_eq!(entities[1].energy, 0);
}

#[test]
fn eating_transfers_energy_scaled_by_size() {
    let mut a = entity(800, 100, 100, 0, 0, 1_000);
    let mut b = entity(300, 100, 100, 0, 0, 2_000);
    a.eat(&mut b);
    assert_eq!(a.energy, 1_000 + 2_000 * 800 / 1000);
    assert_eq!(b.energy, 0);
}

#[test]
fn encounter_overlapping_bigger_eats() {
    let a = entity(1000, 100, 100, 0, 0, 100_000);
    let b = entity(500, 100, 100, 0, 0, 50_000);
    let (a2, b2, moved) = resolve_encounter(a, b, -1500, 0);
    assert_eq!(a2.energy, 150_000);
    assert_eq!(b2.energy, 0);
    assert!(!moved);
    // The smaller one, on its own turn, is left alone.
    let (b3, a3, moved) = resolve_encounter(b, a, -1500, 0);
    assert_eq!(b3.energy, 50_000);
    assert_eq!(a3.energy, 100_000);
    assert!(!moved);
}

#[test]
fn encounter_near_equal_overlap_moves_away() {
    let a = entity(1000, 100, 1000, 0, 0, 10_000);
    let b = entity(900, 100, 100, 1000, 0, 10_000);
    let (a2, b2, moved) = resolve_encounter(a, b, -900, 1000);
    assert!(moved);
    assert_eq!(a2.position.x, -100);
    assert_eq!(a2.position.y, 0);
    // cost = 1000 * 1000 / 1000 + 100 = 1100 per second
    assert_eq!(a2.energy, 10_000 - 1100);
    assert_eq!(b2.energy, 10_000);
}

#[test]
fn encounter_apart_flees_chases_ignores() {
    let me = entity(500, 100, 1000, 0, 0, 10_000);
    let big = entity(1000, 100, 100, 10_000, 0, 10_000);
    let (fled, _, moved) = resolve_encounter(me, big, 8_500, 0);
    assert!(moved);
    assert_eq!(fled.position.x, -100);
    let small = entity(300, 100, 100, 10_000, 0, 10_000);
    let (chased, _, moved) = resolve_encounter(me, small, 9_200, 0);
    assert!(moved);
    assert_eq!(chased.position.x, 100);
    let same = entity(500, 100, 100, 10_000, 0, 10_000);
    let (still, _, moved) = resolve_encounter(me, same, 9_000, 0);
    assert!(!moved);
    assert_eq!(still.position.x, 0);
}

#[test]
fn move_towards_lands_on_close_target() {
    let mut e = entity(100, 100, 1000, 0, 0, 10_000);
    e.move_towards(Vec2 { x: 150, y: 0 }, -50, 0);
    assert_eq!(e.position.x, 150);
    assert_eq!(e.position.y, 0);
}

#[test]
fn forage_eats_overlapping_plant() {
    let e = entity(500, 100, 100, 0, 0, 0);
    let p = Plant { position: Vec2 { x: 0, y: 0 }, size: 200 };
    let (e2, p2) = resolve_forage(e, p, -700, 0);
    // plant energy = 200 * 200 / 1000 = 40, times 5000
    assert_eq!(e2.energy, 200_000);
    assert_eq!(p2.size, 0);
}

#[test]
fn reproduction_threshold() {
    // energy_cost = 1000 * 400 / 1000 + 100 = 500 (0.5)
    let parent = entity(1000, 100, 400, 0, 0, 5_100_000);
    assert_eq!(parent.energy_cost(), 500);
    let mut entities = vec![parent];
    add_children(&mut entities);
    assert_eq!(entities.len(), 2);
    assert_eq!(entities[0].energy, 2_300_000);
    assert_eq!(entities[1].energy, 2_300_000);
    assert!(trait_ok(entities[1].size));
    assert!(trait_ok(entities[1].sense_distance));
    assert!(trait_ok(entities[1].velocity_mag));
    assert_eq!(entities[1].random_direction_uses, 0);
}

#[test]
fn no_reproduction_below_threshold() {
    let mut entities = vec![entity(1000, 100, 400, 0, 0, 4_999_999)];
    add_children(&mut entities);
    assert_eq!(entities.len(), 1);
    assert_eq!(entities[0].energy, 4_999_999);
}

#[test]
fn child_traits_clamped_at_extremes() {
    let mut entities = vec![
        entity(1000, 1000, 1000, 0, 0, ENERGY_MAX),
        entity(100, 100, 100, 0, 0, ENERGY_MAX),
    ];
    for _ in 0..5 {
        add_children(&mut entities);
    }
    for e in entities.iter() {
        assert!(trait_ok(e.size));
        assert!(trait_ok(e.sense_distance));
        assert!(trait_ok(e.velocity_mag));
    }
}

#[test]
fn randomize_trait_values() {
    assert_eq!(randomize_trait(1000, 199), 1000);
    assert_eq!(randomize_trait(100, 0), 100);
    assert_eq!(randomize_trait(500, 100), 500);
    assert_eq!(randomize_trait(500, 0), 450);
    assert_eq!(randomize_trait(500, 199), 549);
    assert_eq!(randomize_trait(-5000, 100), 100);
}

#[test]
fn derived_quantities() {
    let e = entity(500, 200, 300, 0, 0, 0);
    assert_eq!(e.mass(), 250);
    assert_eq!(e.velocity(), 30);
    assert_eq!(e.energy_cost(), 150 + 200);
    let p = Plant::new(Vec2::new(0, 0), 300);
    assert_eq!(p.energy(), 90);
}

#[test]
fn consume_energy_pays_cost_times_dt() {
    let mut e = entity(500, 200, 300, 0, 0, 1_000);
    e.consume_energy(2_000);
    assert_eq!(e.energy, 1_000 - 350 * 2);
}

#[test]
fn move_randomly_redraws_after_reuse() {
    let mut e = entity(500, 200, 500, 0, 0, 0);
    e.move_randomly(0, Vec2 { x: 0, y: 1000 });
    assert_eq!(e.position.x, 50);
    assert_eq!(e.random_direction_uses, 1);
    e.random_direction_uses = 99;
    e.move_randomly(0, Vec2 { x: 0, y: 1000 });
    assert_eq!(e.position.x, 100);
    assert_eq!(e.position.y, 0);
    assert_eq!(e.random_direction_uses, 100);
    e.move_randomly(0, Vec2 { x: 0, y: 1000 });
    assert_eq!(e.position.x, 100);
    assert_eq!(e.position.y, 50);
    assert_eq!(e.random_direction_uses, 1);
}

fn squared_length(v: Vec2) -> i64 {
    v.x * v.x + v.y * v.y
}

#[test]
fn normalized_vectors_have_unit_length() {
    let d = normalize(1, 1);
    assert_eq!((d.x, d.y), (707, 707));
    let d = normalize(-1, 0);
    assert_eq!((d.x, d.y), (-1000, 0));
    for (x, y) in [(1, 2), (-3, 7), (999, -1000), (2_000_000_000, 1), (5, -2_000_000_000)] {
        let l = squared_length(normalize(x, y));
        assert!(l > 1000 * 1000 - 4 * 1000 - 2 && l < 1001 * 1001, "{x} {y} {l}");
    }
}

#[test]
fn new_entities_head_in_a_unit_direction() {
    for _ in 0..200 {
        let e = Entity::new(500, 500, 500, Vec2::new(0, 0), 1_000);
        let l = squared_length(e.random_direction);
        assert!(l > 1000 * 1000 - 4 * 1000 - 2 && l < 1001 * 1001);
        assert_eq!(e.random_direction_uses, 0);
    }
}

#[test]
fn integer_square_root() {
    assert_eq!(isqrt(0), 0);
    assert_eq!(isqrt(15), 3);
    assert_eq!(isqrt(16), 4);
    assert_eq!(isqrt(u64::MAX), 4_294_967_295);
}

#[test]
fn normalize_and_distance() {
    let d = normalize(3000, 4000);
    assert_eq!((d.x, d.y), (600, 800));
    let z = normalize(0, 0);
    assert_eq!((z.x, z.y), (0, 0));
    assert_eq!(Vec2::new(0, 0).distance(Vec2::new(3000, -4000)), 5000);
}

#[test]
fn nearest_entity_within_sense_radius() {
    let entities = vec![
        entity(100, 100, 100, 0, 0, 1),
        entity(100, 100, 100, 5_000, 0, 1),
        entity(100, 100, 100, 3_000, 0, 1),
        entity(100, 100, 100, 20_000, 0, 1),
    ];
    assert_eq!(nearest_entity(&entities, 0), Some((2, 2_800)));
    let lonely = vec![entity(100, 100, 100, 0, 0, 1), entity(100, 100, 100, 10_200, 0, 1)];
    // gap 10_000 is not below the radius 100 * 100
    assert_eq!(nearest_entity(&lonely, 0), None);
    let plants = vec![
        Plant::new(Vec2::new(0, 4_000), 100),
        Plant::new(Vec2::new(0, -4_000), 100),
    ];
    assert_eq!(nearest_plant(entities[0], &plants), Some((0, 3_800)));
}

#[test]
fn step_entity_eats_and_forages_in_one_turn() {
    let mut entities = vec![entity(1000, 100, 100, 0, 0, 100), entity(500, 100, 100, 0, 0, 50)];
    let mut plants = vec![Plant::new(Vec2::new(0, 0), 100)];
    step_entity(&mut entities, &mut plants, 0, 0, Vec2::new(1000, 0));
    assert_eq!(entities[0].energy, 100 + 50 + 10 * 5000);
    assert_eq!(entities[1].energy, 0);
    assert_eq!(plants[0].size, 0);
}

#[test]
fn terrain_initial_fertility() {
    let t = Terrain::new();
    assert_eq!(t.blocks.len(), 2500);
    assert_eq!(t.fertility_at(0, 0), Some(1000));
    assert_eq!(t.fertility_at(-100_000, -100_000), Some(0));
    assert_eq!(t.blocks[25 * 50 + 25].fertility, 1000);
    assert_eq!(t.blocks[0].max_carrying_capacity, 2500);
}

#[test]
fn cell_index_rounds_half_away_from_zero() {
    assert_eq!(cell_index(-2_000, 0), Some(24 * 50 + 25));
    assert_eq!(cell_index(-1_999, 0), Some(25 * 50 + 25));
    assert_eq!(cell_index(2_000, 0), Some(26 * 50 + 25));
    assert_eq!(cell_index(1_999, 0), Some(25 * 50 + 25));
    assert_eq!(cell_index(-102_000, 0), None);
    assert_eq!(cell_index(-101_999, 0), Some(25));
    assert_eq!(cell_index(97_999, 0), Some(49 * 50 + 25));
    assert_eq!(cell_index(98_000, 0), None);
}

#[test]
fn fertility_never_negative() {
    let mut t = Terrain::new();
    t.adjust_fertility(0, 0, -FERTILITY_MAX);
    assert_eq!(t.fertility_at(0, 0), Some(0));
    t.adjust_fertility(0, 0, -30);
    assert_eq!(t.fertility_at(0, 0), Some(0));
    t.adjust_fertility(0, 0, 300);
    assert_eq!(t.fertility_at(0, 0), Some(300));
}

#[test]
fn far_positions_do_not_touch_terrain() {
    let mut t = Terrain::new();
    let before: Vec<i64> = t.blocks.iter().map(|b| b.fertility).collect();
    t.adjust_fertility(i64::MAX, 0, 300);
    t.adjust_fertility(0, i64::MIN, 300);
    t.adjust_fertility(1_000_000_000, 1_000_000_000, -300);
    let after: Vec<i64> = t.blocks.iter().map(|b| b.fertility).collect();
    assert_eq!(before, after);
    assert_eq!(t.fertility_at(i64::MIN, i64::MAX), None);

    let mut plants = vec![Plant::new(Vec2::new(1_000_000_000, 0), 100)];
    for _ in 0..100 {
        grow_plants(&mut plants, &mut t);
    }
    assert_eq!(plants.len(), 1);
}

#[test]
fn cull_deposits_fertility_and_is_idempotent() {
    let mut t = Terrain::new();
    t.adjust_fertility(0, 0, -FERTILITY_MAX);
    let mut entities = vec![
        entity(100, 100, 100, 0, 0, 0),
        entity(100, 100, 100, 0, 0, 5),
        entity(100, 100, 100, 1_000_000_000, 0, -3),
    ];
    let mut plants = vec![Plant::new(Vec2::new(0, 0), 0), Plant::new(Vec2::new(0, 0), 100)];
    cull(&mut entities, &mut plants, &mut t);
    assert_eq!(entities.len(), 1);
    assert_eq!(entities[0].energy, 5);
    assert_eq!(plants.len(), 1);
    assert_eq!(t.fertility_at(0, 0), Some(300));
    cull(&mut entities, &mut plants, &mut t);
    assert_eq!(entities.len(), 1);
    assert_eq!(plants.len(), 1);
    assert_eq!(t.fertility_at(0, 0), Some(300));
}

#[test]
fn growth_needs_fertility() {
    assert!(!grows(0, 0));
    assert!(!grows(0, 99_999));
    assert!(grows(1, 0));
    assert!(!grows(1, 1));
    let mut t = Terrain::new();
    t.adjust_fertility(0, 0, -FERTILITY_MAX);
    let mut plants = vec![Plant::new(Vec2::new(0, 0), 100)];
    for _ in 0..500 {
        grow_plants(&mut plants, &mut t);
    }
    assert_eq!(plants.len(), 1);
}

#[test]
fn growth_on_rich_soil_spends_fertility() {
    let mut t = Terrain::new();
    t.adjust_fertility(0, 0, 1_000_000);
    let mut plants = vec![Plant::new(Vec2::new(0, 0), 100)];
    grow_plants(&mut plants, &mut t);
    assert_eq!(plants.len(), 2);
    assert_eq!(t.fertility_at(0, 0), Some(1_001_000 - 30));
    assert!(plants[1].size >= 100 && plants[1].size < 200);
}

#[test]
fn sprout_is_placed_beside_parent() {
    let p = Plant::new(Vec2::new(0, 0), 100);
    let s = sprout(p, 50, Vec2::new(1000, 0));
    assert_eq!(s.size, 150);
    assert_eq!(s.position.x, 2500);
    assert_eq!(s.position.y, 0);
}

#[test]
fn app_tick_leaves_only_the_living() {
    let mut app = App::new();
    app.add_entity(entity(1000, 500, 500, 0, 0, 100_000));
    app.add_entity(entity(500, 500, 500, 0, 0, 50_000));
    app.add_plant(Vec2::new(20_000, 0));
    for _ in 0..50 {
        app.update(16);
        assert!(app.entities.iter().all(|e| e.energy > 0));
        assert!(app.plants.iter().all(|p| p.size > 0));
    }
    assert!(app.entities.len() <= 2 || app.entities.iter().all(|e| e.energy > 0));
}

#[test]
fn grow_from_follows_the_draws() {
    let mut t = Terrain::new();
    let p = Plant::new(Vec2::new(0, 0), 100);
    let c = grow_from(&mut t, p, 999, 0, Vec2::new(1000, 0)).expect("fertility 1000 exceeds draw 999");
    assert_eq!(c.size, 100);
    assert_eq!(c.position.x, 2000);
    assert_eq!(t.fertility_at(0, 0), Some(970));
    assert!(grow_from(&mut t, p, 970, 0, Vec2::new(1000, 0)).is_none());
    assert_eq!(t.fertility_at(0, 0), Some(970));
    let far = Plant::new(Vec2::new(500_000, 0), 100);
    assert!(grow_from(&mut t, far, 0, 0, Vec2::new(1000, 0)).is_none());
}
