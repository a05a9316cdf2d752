use evolution_sim::creature::Direction;
use evolution_sim::genome::{Action, Behavior, UNIT};
use evolution_sim::leaderboard::leaderboard;
use evolution_sim::map::GridMap;
use evolution_sim::plant::Plant;
use evolution_sim::population::plant_is_here;
use evolution_sim::position::Position;
use evolution_sim::terminal_graphics::{Cursor, Interaction, Viewer};
use evolution_sim::world::{World, WorldState};
use evolution_sim::DisplayMode;

fn world(width: usize, height: usize, capacity: usize, save_history: bool) -> World {
    World::new(width, height, "World".to_string(), capacity, save_history, 42)
}

fn set_pattern(w: &mut World, i: usize, action: Action) {
    w.current_state.creatures[i].genome.behavior = Behavior { action_pattern: [action; 5] };
}

#[test]
fn food_follows_the_modular_rule() {
    assert!(plant_is_here(Position::new(0, 0)));
    assert!(plant_is_here(Position::new(6, 7)));
    assert!(plant_is_here(Position::new(-13, 0)));
    assert!(plant_is_here(Position::new(-20, 7)));
    assert!(!plant_is_here(Position::new(1, 0)));
    assert!(!plant_is_here(Position::new(-1, 0)));
    assert!(plant_is_here(Position::new(i32::MAX, i32::MAX - 2 * (i32::MAX % 13))));
}

#[test]
fn plant_keeps_its_position() {
    assert_eq!(Plant::new(Position::new(3, 9)).position, Position::new(3, 9));
}

#[test]
fn new_world_is_empty() {
    let w = world(80, 30, 100, false);
    assert!(w.current_state.creatures.is_empty());
    assert!(w.history.is_empty());
    assert_eq!(w.creature_count, 0);
    assert_eq!(w.current_state.num_alive(), 0);
    assert_eq!(WorldState::new().creatures.len(), 0);
}

#[test]
fn added_creatures_get_consecutive_ids_at_the_center() {
    let mut w = world(80, 30, 100, false);
    w.add_creature("Ada");
    w.add_creature("Bob");
    w.add_creature_with_position("Cy", Position::new(1, 2));
    assert_eq!(w.creature_count, 3);
    let cs = &w.current_state.creatures;
    assert_eq!(cs[0].id(), 0);
    assert_eq!(cs[1].id(), 1);
    assert_eq!(cs[2].id(), 2);
    assert_eq!(cs[1].strain, 1);
    assert_eq!(cs[0].position, Position::new(40, 15));
    assert_eq!(cs[2].position, Position::new(1, 2));
    assert_eq!(cs[2].world_bounds, Position::new(80, 30));
    assert_eq!(cs[0].generation(), 1);
    assert_eq!(w.current_state.num_alive(), 3);
}

#[test]
fn creatures_at_a_cell_are_listed_in_order() {
    let mut w = world(10, 10, 100, false);
    w.add_creature("A");
    w.add_creature_with_position("B", Position::new(1, 1));
    w.add_creature("C");
    let here = w.current_state.get_creatures_at(Position::new(5, 5));
    assert_eq!(here.len(), 2);
    assert_eq!(here[0].id(), 0);
    assert_eq!(here[1].id(), 2);
    assert!(w.current_state.get_creatures_at(Position::new(0, 0)).is_empty());
}

#[test]
fn num_alive_skips_the_dead() {
    let mut w = world(10, 10, 100, false);
    w.add_creature("A");
    w.add_creature("B");
    w.add_creature("C");
    w.current_state.creatures[1].life = 0;
    assert_eq!(w.current_state.num_alive(), 2);
}

#[test]
fn offspring_is_admitted_up_to_capacity_then_discarded() {
    let mut w = world(10, 10, 2, false);
    w.add_creature("A");
    set_pattern(&mut w, 0, Action::TurnLeft);
    assert_eq!(w.current_state.num_alive(), 1);
    w.step_with(&vec![false], &vec![true]);
    assert_eq!(w.current_state.creatures.len(), 2);
    assert_eq!(w.current_state.num_alive(), 2);
    let parent = w.current_state.creatures[0];
    let child = w.current_state.creatures[1];
    assert_eq!(child.id(), 1);
    assert_eq!(child.life, 255 * UNIT);
    assert_eq!(child.generation(), 2);
    assert_eq!(child.strain, parent.strain);
    assert_eq!(child.position, parent.position);
    assert_eq!(w.creature_count, 2);
    w.step_with(&vec![false, false], &vec![true, true]);
    assert_eq!(w.current_state.creatures.len(), 2);
    assert_eq!(w.current_state.num_alive(), 2);
}

#[test]
fn admission_stops_at_capacity_within_one_tick() {
    let mut w = world(10, 10, 3, false);
    w.add_creature("A");
    w.add_creature("B");
    w.step_with(&vec![false, false], &vec![true, true]);
    assert_eq!(w.current_state.creatures.len(), 3);
    assert_eq!(w.current_state.num_alive(), 3);
    assert_eq!(w.current_state.creatures[2].id(), 2);
    assert_eq!(w.current_state.creatures[2].strain, 0);
}

#[test]
fn no_offspring_without_a_fired_trial_or_enough_energy() {
    let mut w = world(10, 10, 10, false);
    w.add_creature("A");
    w.add_creature("B");
    w.current_state.creatures[1].life = 100 * UNIT;
    w.step_with(&vec![false, false], &vec![false, true]);
    assert_eq!(w.current_state.creatures.len(), 2);
}

#[test]
fn dead_creatures_stay_in_the_population() {
    let mut w = world(10, 10, 10, false);
    w.add_creature("A");
    w.add_creature("B");
    w.current_state.creatures[0].life = 0;
    let dead = w.current_state.creatures[0];
    w.simulate(20);
    assert_eq!(w.current_state.creatures[0], dead);
    assert!(w.current_state.creatures.len() >= 2);
}

#[test]
fn population_stays_within_capacity_and_bounds() {
    let mut w = world(12, 7, 6, false);
    for _ in 0..6 {
        w.add_creature("A");
    }
    for _ in 0..400 {
        w.step();
        assert!(w.current_state.num_alive() <= 6);
        for c in &w.current_state.creatures {
            assert!(c.life <= 255 * UNIT);
            assert!(c.position.x >= 0 && c.position.x < 12);
            assert!(c.position.y >= 0 && c.position.y < 7);
        }
    }
}

#[test]
fn history_records_the_frame_before_each_tick() {
    let mut w = world(10, 10, 5, true);
    w.add_creature("A");
    let first = w.current_state.clone();
    w.simulate(3);
    assert_eq!(w.history.len(), 3);
    assert_eq!(w.history[0], first);
    let mut off = world(10, 10, 5, false);
    off.add_creature("A");
    off.simulate(3);
    assert!(off.history.is_empty());
}

#[test]
fn simulate_with_negative_count_does_nothing() {
    let mut w = world(10, 10, 5, true);
    w.add_creature("A");
    let before = w.current_state.clone();
    w.simulate(-4);
    assert_eq!(w.current_state, before);
    assert!(w.history.is_empty());
}

#[test]
fn same_seed_gives_the_same_history() {
    let run = || {
        let mut w = world(20, 20, 8, true);
        for _ in 0..5 {
            w.add_creature("A");
        }
        w.simulate(300);
        w.history
    };
    let a = run();
    let b = run();
    assert_eq!(a.len(), 300);
    assert_eq!(a, b);
}

#[test]
fn seeding_from_an_extinct_world_adds_nobody() {
    let mut prior = world(10, 10, 5, false);
    prior.add_creature("A");
    prior.current_state.creatures[0].life = 0;
    let mut next = world(10, 10, 5, false);
    next.add_creatures_from_world(prior);
    assert_eq!(next.creature_count, 0);
    next.simulate(50);
    assert!(next.current_state.creatures.is_empty());
}

#[test]
fn seeding_cycles_through_survivors_until_capacity() {
    let mut prior = world(10, 10, 5, false);
    prior.add_creature("A");
    prior.add_creature("B");
    prior.add_creature("C");
    prior.current_state.creatures[1].life = 0;
    prior.current_state.creatures[2].generation = 4;
    let parents = prior.current_state.creatures.clone();
    let mut next = world(30, 20, 5, false);
    next.add_creatures_from_world(prior);
    let cs = &next.current_state.creatures;
    assert_eq!(cs.len(), 5);
    assert_eq!(next.creature_count, 5);
    let expected_parent = [0usize, 2, 0, 2, 0];
    for (j, c) in cs.iter().enumerate() {
        let p = &parents[expected_parent[j]];
        assert_eq!(c.id(), j as u64);
        assert_eq!(c.strain, j as u64);
        assert_eq!(c.generation(), p.generation() + 1);
        assert_eq!(c.genome, p.genome);
        assert_eq!(c.life, 255 * UNIT);
        assert_eq!(c.position, Position::new(15, 10));
        assert_eq!(c.world_bounds, Position::new(30, 20));
    }
}

#[test]
fn seeding_a_full_world_adds_nobody() {
    let mut prior = world(10, 10, 5, false);
    prior.add_creature("A");
    let mut next = world(10, 10, 1, false);
    next.add_creature("B");
    next.add_creatures_from_world(prior);
    assert_eq!(next.current_state.creatures.len(), 1);
}

#[test]
fn blank_map_and_slot_strength() {
    let mut m = GridMap::new(4, 3, "m".to_string());
    assert_eq!(m.slots.len(), 3);
    assert_eq!(m.slots[0].len(), 4);
    assert_eq!(m.get_slot(Position::new(1, 1)), (' ', 0));
    m.set_plant(Position::new(1, 1));
    assert_eq!(m.get_slot(Position::new(1, 1)), ('.', 2));
    m.set_creature(Position::new(1, 1), Direction::North, 2);
    assert_eq!(m.get_slot(Position::new(1, 1)), ('.', 2));
    m.set_creature(Position::new(1, 1), Direction::East, 200);
    assert_eq!(m.slots[1][1], ('>', 200));
    m.set_creature(Position::new(2, 0), Direction::South, 0);
    assert_eq!(m.slots[0][2], ('x', 1));
    m.set_creature(Position::new(3, 2), Direction::West, 9);
    assert_eq!(m.slots[2][3], ('<', 9));
    m.set_slot(Position::new(4, 0), '#', 50);
    m.set_slot(Position::new(-1, 0), '#', 50);
    assert_eq!(m.get_slot(Position::new(4, 0)), (' ', 0));
    assert!(m.slots.iter().flatten().all(|s| s.0 != '#'));
}

#[test]
fn map_of_paints_food_then_creatures() {
    let mut w = world(14, 3, 5, false);
    w.add_creature_with_position("A", Position::new(0, 0));
    w.current_state.creatures[0].direction = Direction::South;
    w.current_state.creatures[0].life = 120 * UNIT + 7;
    w.add_creature_with_position("B", Position::new(3, 1));
    w.current_state.creatures[1].life = 0;
    let state = w.current_state.clone();
    let m = w.map_of(&state);
    assert_eq!(m.name, "World");
    assert_eq!(m.slots[0][0], ('v', 120));
    assert_eq!(m.slots[0][13], ('.', 2));
    assert_eq!(m.slots[1][12], ('.', 2));
    assert_eq!(m.slots[1][3], ('x', 1));
    assert_eq!(m.slots[2][2], (' ', 0));
}

#[test]
fn keys_map_to_interactions() {
    assert_eq!(Interaction::from_key(' '), Some(Interaction::Pause));
    assert_eq!(Interaction::from_key('p'), Some(Interaction::Pause));
    assert_eq!(Interaction::from_key(','), Some(Interaction::Back));
    assert_eq!(Interaction::from_key('.'), Some(Interaction::Forward));
    assert_eq!(Interaction::from_key('q'), Some(Interaction::Halt));
    assert_eq!(Interaction::from_key('['), Some(Interaction::SpeedUp));
    assert_eq!(Interaction::from_key(']'), Some(Interaction::SlowDown));
    assert_eq!(Interaction::from_key('k'), Some(Interaction::Up));
    assert_eq!(Interaction::from_key('z'), None);
}

#[test]
fn viewer_steps_wraps_and_pauses() {
    let mut v = Viewer::new(80, 30, 10);
    assert_eq!(v.cursor, Cursor { show: false, x: 40, y: 15 });
    assert!(v.apply(Interaction::Progress, 3));
    assert_eq!(v.frame_count, 1);
    assert!(v.apply(Interaction::Forward, 3));
    assert!(v.apply(Interaction::Progress, 3));
    assert_eq!(v.frame_count, 0);
    assert!(v.apply(Interaction::Back, 3));
    assert_eq!(v.frame_count, 0);
    assert!(v.apply(Interaction::Pause, 3));
    assert!(v.is_paused && v.cursor.show);
    assert!(v.apply(Interaction::Progress, 3));
    assert_eq!(v.frame_count, 0);
    assert!(v.apply(Interaction::Up, 3));
    assert!(v.apply(Interaction::Left, 3));
    assert_eq!((v.cursor.x, v.cursor.y), (39, 16));
    assert!(v.apply(Interaction::SpeedUp, 3));
    assert_eq!(v.frame_delay, 10);
    for _ in 0..200 {
        v.apply(Interaction::SlowDown, 3);
    }
    assert_eq!(v.frame_delay, 1000);
    assert!(v.apply(Interaction::ToggleShowDead, 3));
    assert!(v.show_dead);
    let before = v;
    assert!(!v.apply(Interaction::Halt, 3));
    assert_eq!(v, before);
}

#[test]
fn display_modes_differ() {
    assert_ne!(DisplayMode::TerminalStatic, DisplayMode::TerminalDynamic);
}

#[test]
fn leaderboard_counts_living_strains_largest_first() {
    let mut w = world(10, 10, 10, false);
    for _ in 0..6 {
        w.add_creature("A");
    }
    let strains = [7u64, 7, 3, 9, 5, 7];
    for (i, s) in strains.iter().enumerate() {
        w.current_state.creatures[i].strain = *s;
    }
    w.current_state.creatures[3].life = 0;
    w.current_state.creatures[5].life = 0;
    assert_eq!(leaderboard(&w.current_state), vec![(7, 2), (5, 1), (3, 1)]);
    assert!(leaderboard(&WorldState::new()).is_empty());
}
