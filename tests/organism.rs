use evolution_sim::creature::{Creature, Direction, MAX_LIFE};
use evolution_sim::genome::{
    Action, Behavior, Genome, Trait, TraitKind, AGING_WEIGHT, EATING_WEIGHT, UNIT,
};
use evolution_sim::position::Position;
use evolution_sim::random::RandomSource;
use evolution_sim::text::{array_from_str, string_from_array};

fn creature_at(x: i32, y: i32, width: i32, height: i32) -> Creature {
    let mut random = RandomSource::seeded(7);
    Creature::new(Position::new(x, y), Position::new(width, height), "Ada", 1, 0, &mut random)
}

fn with_pattern(mut c: Creature, pattern: [Action; 5]) -> Creature {
    c.genome.behavior = Behavior { action_pattern: pattern };
    c
}

#[test]
fn position_hash_depends_on_coordinates() {
    let a = Position::new(3, 4);
    assert_eq!(a.rand(), Position::new(3, 4).rand());
    assert_ne!(a.rand(), Position::new(4, 3).rand());
    assert_ne!(a.rand(), 3);
}

#[test]
fn squared_distance_is_exact() {
    assert_eq!(Position::new(0, 0).dist_squared(&Position::new(3, 4)), 25);
    assert_eq!(Position::new(-2, 5).dist_squared(&Position::new(1, 1)), 25);
    let far = Position::new(i32::MIN, i32::MIN).dist_squared(&Position::new(i32::MAX, i32::MAX));
    assert_eq!(far, 2 * (u32::MAX as u128) * (u32::MAX as u128));
}

#[test]
fn name_field_pads_and_truncates() {
    let short = array_from_str("Bob");
    assert_eq!(short[0], 'B');
    assert_eq!(short[2], 'b');
    assert!(short[3..].iter().all(|c| *c == ' '));
    let long = array_from_str("Bartholomew Longname");
    assert_eq!(string_from_array(long), "Bartholomew Lon");
    assert_eq!(string_from_array(short), "Bob            ");
}

#[test]
fn actions_are_listed_once_each() {
    let all = Action::iterator();
    assert_eq!(
        all,
        vec![Action::MoveForward, Action::TurnLeft, Action::TurnRandom, Action::TurnRight]
    );
}

#[test]
fn behavior_code_has_one_letter_per_action() {
    let b = Behavior {
        action_pattern: [
            Action::MoveForward,
            Action::TurnLeft,
            Action::TurnRight,
            Action::TurnRandom,
            Action::MoveForward,
        ],
    };
    assert_eq!(b.code(), "FLRAF");
}

#[test]
fn trait_value_is_magnitude_times_weight() {
    let aging = Trait::new(5, AGING_WEIGHT);
    assert_eq!(aging.get_value(), UNIT);
    let eating = Trait::new(5, EATING_WEIGHT);
    assert_eq!(eating.get_value(), 250 * UNIT);
}

#[test]
fn set_value_rejects_out_of_range() {
    let mut t = Trait::new(5, AGING_WEIGHT);
    assert!(!t.set_value(0));
    assert_eq!(t.value, 5);
    assert!(!t.set_value(11));
    assert_eq!(t.value, 5);
    assert!(t.set_value(10));
    assert_eq!(t.value, 10);
    assert!(t.set_value(1));
    assert_eq!(t.value, 1);
}

#[test]
fn fresh_genome_has_even_traits() {
    let mut random = RandomSource::seeded(3);
    let g = Genome::new_even_distribution(&mut random);
    assert_eq!(g.trait_set.aging_speed_divisor.value, 5);
    assert_eq!(g.trait_set.eating_efficiency.value, 5);
    assert_eq!(g.trait_set.aging_speed_divisor.weight, AGING_WEIGHT);
    assert_eq!(g.trait_set.eating_efficiency.weight, EATING_WEIGHT);
}

#[test]
fn transfer_moves_one_unit() {
    let mut random = RandomSource::seeded(3);
    let mut g = Genome::new_even_distribution(&mut random);
    g.trait_modify_duo(TraitKind::AgingSpeedDivisor, TraitKind::EatingEfficiency);
    assert_eq!(g.trait_set.aging_speed_divisor.value, 4);
    assert_eq!(g.trait_set.eating_efficiency.value, 6);
}

#[test]
fn transfer_rolls_back_at_the_ceiling() {
    let mut random = RandomSource::seeded(3);
    let mut g = Genome::new_even_distribution(&mut random);
    g.trait_set.eating_efficiency.value = 10;
    let before = g;
    g.trait_modify_duo(TraitKind::AgingSpeedDivisor, TraitKind::EatingEfficiency);
    assert_eq!(g, before);
}

#[test]
fn transfer_rolls_back_at_the_floor() {
    let mut random = RandomSource::seeded(3);
    let mut g = Genome::new_even_distribution(&mut random);
    g.trait_set.aging_speed_divisor.value = 1;
    let before = g;
    g.trait_modify_duo(TraitKind::AgingSpeedDivisor, TraitKind::EatingEfficiency);
    assert_eq!(g, before);
}

#[test]
fn trait_modify_reports_failure() {
    let mut random = RandomSource::seeded(3);
    let mut g = Genome::new_even_distribution(&mut random);
    assert!(!g.trait_modify(TraitKind::EatingEfficiency, 6));
    assert!(!g.trait_modify(TraitKind::EatingEfficiency, i32::MAX));
    assert_eq!(g.trait_set.eating_efficiency.value, 5);
    assert!(g.trait_modify(TraitKind::EatingEfficiency, 5));
    assert_eq!(g.trait_set.eating_efficiency.value, 10);
}

#[test]
fn mutation_conserves_the_sum_of_magnitudes() {
    let mut random = RandomSource::seeded(11);
    let mut g = Genome::new_even_distribution(&mut random);
    for _ in 0..200 {
        let before = g;
        g.mutate(&mut random);
        let sum_before =
            before.trait_set.aging_speed_divisor.value + before.trait_set.eating_efficiency.value;
        let sum_after = g.trait_set.aging_speed_divisor.value + g.trait_set.eating_efficiency.value;
        assert_eq!(sum_before, sum_after);
        let moved = (g.trait_set.aging_speed_divisor.value
            - before.trait_set.aging_speed_divisor.value)
            .abs();
        assert!(moved <= 1);
        assert_eq!(g.behavior, before.behavior);
        assert_eq!(g.trait_set.aging_speed_divisor.weight, AGING_WEIGHT);
        assert_eq!(g.trait_set.eating_efficiency.weight, EATING_WEIGHT);
        assert!((1..=10).contains(&g.trait_set.aging_speed_divisor.value));
        assert!((1..=10).contains(&g.trait_set.eating_efficiency.value));
    }
}

#[test]
fn new_creature_starts_full() {
    let c = creature_at(2, 3, 10, 10);
    assert_eq!(c.life, MAX_LIFE);
    assert_eq!(c.life, 255 * UNIT);
    assert_eq!(c.generation(), 1);
    assert_eq!(c.id(), 0);
    assert_eq!(c.strain, 0);
    assert_eq!(c.program_counter(), 0);
    assert_eq!(c.position, Position::new(2, 3));
    assert!(c.is_alive());
    assert_eq!(string_from_array(c.name).trim(), "Ada");
}

#[test]
fn turns_follow_the_compass_cycle() {
    let mut c = creature_at(0, 0, 10, 10);
    c.direction = Direction::North;
    c.turn_right();
    assert_eq!(c.direction, Direction::East);
    c.turn_right();
    assert_eq!(c.direction, Direction::South);
    c.turn_right();
    assert_eq!(c.direction, Direction::West);
    c.turn_right();
    assert_eq!(c.direction, Direction::North);
    c.turn_left();
    assert_eq!(c.direction, Direction::West);
    c.turn_left();
    assert_eq!(c.direction, Direction::South);
}

#[test]
fn movement_wraps_around_the_grid() {
    let mut c = creature_at(9, 0, 10, 5);
    c.move_relative(1, 0);
    assert_eq!(c.position, Position::new(0, 0));
    c.move_relative(-1, 0);
    assert_eq!(c.position, Position::new(9, 0));
    c.move_relative(0, -1);
    assert_eq!(c.position, Position::new(9, 4));
    c.move_relative(0, 1);
    assert_eq!(c.position, Position::new(9, 0));
    c.move_relative(23, -13);
    assert_eq!(c.position, Position::new(2, 2));
}

#[test]
fn move_forward_follows_heading() {
    let mut c = creature_at(5, 5, 10, 10);
    c.direction = Direction::North;
    c.move_forward();
    assert_eq!(c.position, Position::new(5, 6));
    c.direction = Direction::South;
    c.move_forward();
    c.move_forward();
    assert_eq!(c.position, Position::new(5, 4));
    c.direction = Direction::East;
    c.move_forward();
    assert_eq!(c.position, Position::new(6, 4));
    c.direction = Direction::West;
    c.move_forward();
    c.move_forward();
    assert_eq!(c.position, Position::new(4, 4));
}

#[test]
fn divide_gives_a_fresh_offspring() {
    let mut c = creature_at(4, 4, 10, 10);
    c.direction = Direction::West;
    c.life = 120 * UNIT;
    c.program_counter = 3;
    c.generation = 6;
    c.strain = 2;
    let child = c.divide(17);
    assert_eq!(child.id(), 17);
    assert_eq!(child.life, 255 * UNIT);
    assert_eq!(child.generation(), 7);
    assert_eq!(child.strain, 2);
    assert_eq!(child.position, c.position);
    assert_eq!(child.direction, Direction::North);
    assert_eq!(child.program_counter(), 0);
    assert_eq!(child.genome, c.genome);
    assert_eq!(child.name, c.name);
}

#[test]
fn aging_without_food_costs_two_units_and_kills_at_tick_128() {
    let c = creature_at(0, 0, 10, 10);
    let mut c = with_pattern(c, [Action::TurnLeft; 5]);
    assert_eq!(c.genome.trait_set.aging_speed_divisor.get_value(), UNIT);
    for tick in 1..=127u64 {
        c.step_resolved(false, false);
        assert_eq!(c.life, (255 - 2 * tick) * UNIT);
    }
    assert_eq!(c.life, UNIT);
    assert!(c.is_alive());
    c.step_resolved(false, false);
    assert_eq!(c.life, 0);
    assert!(!c.is_alive());
}

#[test]
fn food_every_tick_holds_life_one_decrement_below_the_ceiling() {
    let c = creature_at(0, 0, 10, 10);
    let mut c = with_pattern(c, [Action::MoveForward; 5]);
    for _ in 0..300 {
        c.step_resolved(true, false);
        assert_eq!(c.life, 253 * UNIT);
    }
}

#[test]
fn dead_creature_is_frozen() {
    let c = creature_at(3, 3, 10, 10);
    let mut c = with_pattern(c, [Action::MoveForward; 5]);
    c.life = 0;
    c.program_counter = 2;
    let before = c;
    let mut random = RandomSource::seeded(5);
    for _ in 0..10 {
        c.step(true, &mut random);
        c.step_resolved(false, true);
    }
    assert_eq!(c, before);
}

#[test]
fn program_counter_cycles_through_the_pattern() {
    let c = creature_at(0, 0, 10, 10);
    let mut c = with_pattern(
        c,
        [
            Action::MoveForward,
            Action::TurnRight,
            Action::MoveForward,
            Action::TurnRandom,
            Action::TurnLeft,
        ],
    );
    c.direction = Direction::North;
    c.step_resolved(false, true);
    assert_eq!(c.position, Position::new(0, 1));
    assert_eq!(c.program_counter(), 1);
    c.step_resolved(false, true);
    assert_eq!(c.direction, Direction::East);
    c.step_resolved(false, true);
    assert_eq!(c.position, Position::new(1, 1));
    c.step_resolved(false, true);
    assert_eq!(c.direction, Direction::South);
    c.step_resolved(false, true);
    assert_eq!(c.direction, Direction::East);
    assert_eq!(c.program_counter(), 0);
    c.step_resolved(false, false);
    assert_eq!(c.position, Position::new(2, 1));
}

#[test]
fn random_turn_resolves_left_when_told() {
    let c = creature_at(0, 0, 10, 10);
    let mut c = with_pattern(c, [Action::TurnRandom; 5]);
    c.direction = Direction::North;
    c.step_resolved(false, false);
    assert_eq!(c.direction, Direction::West);
    let mut random = RandomSource::seeded(9);
    for _ in 0..20 {
        let before = c.direction;
        c.random_turn(&mut random);
        assert_ne!(c.direction, before);
    }
}

#[test]
fn meal_adds_eating_efficiency_up_to_the_ceiling() {
    let c = creature_at(0, 0, 10, 10);
    let mut c = with_pattern(c, [Action::TurnLeft; 5]);
    c.life = 2 * UNIT;
    c.genome.trait_set.eating_efficiency.value = 1;
    c.step_resolved(true, false);
    assert_eq!(c.life, 50 * UNIT);
    c.genome.trait_set.aging_speed_divisor.value = 2;
    c.step_resolved(true, false);
    assert_eq!(c.life, 50 * UNIT + 50 * UNIT - UNIT * 7 / 2);
}

#[test]
fn seeded_sources_repeat_their_draws() {
    let mut a = RandomSource::seeded(99);
    let mut b = RandomSource::seeded(99);
    for _ in 0..50 {
        let x = a.below(1000);
        assert!(x < 1000);
        assert_eq!(x, b.below(1000));
    }
    let mut c = RandomSource::seeded(1);
    let draws: Vec<u64> = (0..64).map(|_| c.below(2)).collect();
    assert!(draws.contains(&0) && draws.contains(&1));
}

#[test]
fn pattern_from_draws_indexes_the_action_list() {
    let b = Behavior::from_draws([3, 0, 2, 1, 0]);
    assert_eq!(
        b.action_pattern,
        [
            Action::TurnRight,
            Action::MoveForward,
            Action::TurnRandom,
            Action::TurnLeft,
            Action::MoveForward,
        ]
    );
    assert_eq!(b.code(), "RFALF");
}

#[test]
fn picks_come_from_the_given_items() {
    let mut random = RandomSource::seeded(4);
    let items = vec![10u64, 20, 30];
    let picks: Vec<u64> = (0..90).map(|_| random.pick(&items)).collect();
    assert!(picks.iter().all(|p| items.contains(p)));
    assert!(picks.contains(&10) && picks.contains(&20) && picks.contains(&30));
    assert_eq!(random.pick(&vec![7]), 7);
}

#[test]
fn random_patterns_vary_between_draws() {
    let mut random = RandomSource::seeded(21);
    let codes: Vec<String> = (0..20).map(|_| Behavior::new(&mut random).code()).collect();
    assert!(codes.iter().any(|c| c != &codes[0]));
    assert!(codes.iter().all(|c| c.len() == 5 && c.chars().all(|x| "FLRA".contains(x))));
}
