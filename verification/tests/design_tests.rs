use starframe::blocks::{block_stats, BlockType, SPEED_MAX};
use starframe::design::{build_ticks, ship_stats, stats_fit, BlockPlacement};
use starframe::validation::validate;

fn p(x: i32, y: i32, z: i32, b: BlockType) -> BlockPlacement {
    BlockPlacement::new(x, y, z, b)
}

fn speed_f64(num: i128, den: i128) -> f64 {
    num as f64 / den as f64
}

#[test]
fn block_constants_sane() {
    assert_eq!(block_stats(BlockType::Reactor).power, 20);
    assert_eq!(block_stats(BlockType::CommandCore).hp, 100);
    assert_eq!(block_stats(BlockType::Weapon).attack, 10);
}

#[test]
fn ship_stats_sum_and_speed() {
    // A connected, valid little ship laid out along the x-axis.
    let ship = [
        p(-1, 0, 0, BlockType::Hull),
        p(0, 0, 0, BlockType::CommandCore),
        p(1, 0, 0, BlockType::Engine),
        p(2, 0, 0, BlockType::Reactor),
    ];
    let s = ship_stats(&ship);
    assert_eq!(s.block_count, 4);
    assert_eq!(s.mass_halves as f32 / 2.0, 1.0 + 2.0 + 2.0 + 3.0); // 8.0
    assert_eq!(s.cost, 10 + 100 + 25 + 50); // 185
    assert_eq!(s.max_hp, 50 + 100 + 20 + 30); // 200
    assert_eq!(s.thrust, 10);
    assert_eq!(s.attack, 0);
    assert_eq!(s.power, 0 - 3 - 5 + 20); // +12
    assert_eq!(speed_f64(s.speed.num, s.speed.den), 10.0 / 8.0); // 1.25
}

#[test]
fn speed_is_thrust_over_mass() {
    // 4 engines + a command core: thrust 40, mass 2 + 4*2 = 10 -> 4.0.
    let mut blocks = vec![p(0, 0, 0, BlockType::CommandCore)];
    for i in 1..=4 {
        blocks.push(p(i, 0, 0, BlockType::Engine));
    }
    let s = ship_stats(&blocks);
    assert_eq!(s.thrust, 40);
    assert_eq!(s.mass_halves as f32 / 2.0, 10.0);
    assert_eq!(speed_f64(s.speed.num, s.speed.den), 4.0);
    assert!(s.speed.num <= SPEED_MAX as i128 * s.speed.den);
}

#[test]
fn valid_minimal_ship() {
    let ship = [
        p(0, 0, 0, BlockType::CommandCore),
        p(1, 0, 0, BlockType::Engine),
        p(2, 0, 0, BlockType::Reactor),
    ];
    let r = validate(&ship);
    assert!(r.is_valid, "expected valid, problems: {:?}", r.problems);
    assert!(r.problems.is_empty());
}

#[test]
fn empty_design_invalid() {
    let r = validate(&[]);
    assert!(!r.is_valid);
    assert!(r.problems.iter().any(|m| m.contains("empty")));
}

#[test]
fn missing_command_core_invalid() {
    let ship = [p(0, 0, 0, BlockType::Engine), p(1, 0, 0, BlockType::Reactor)];
    let r = validate(&ship);
    assert!(!r.is_valid);
    assert!(r.problems.iter().any(|m| m.contains("command core")));
}

#[test]
fn missing_engine_invalid() {
    let ship = [p(0, 0, 0, BlockType::CommandCore), p(1, 0, 0, BlockType::Reactor)];
    let r = validate(&ship);
    assert!(!r.is_valid);
    assert!(r.problems.iter().any(|m| m.contains("engine")));
}

#[test]
fn insufficient_power_invalid() {
    // core(-3) + engine(-5) + weapon(-8) = -16, no reactor.
    let ship = [
        p(0, 0, 0, BlockType::CommandCore),
        p(1, 0, 0, BlockType::Engine),
        p(2, 0, 0, BlockType::Weapon),
    ];
    let r = validate(&ship);
    assert!(!r.is_valid);
    assert!(r.problems.iter().any(|m| m.contains("power")));
}

#[test]
fn detached_block_invalid() {
    // Connected core+engine+reactor, plus a hull floating far away.
    let ship = [
        p(0, 0, 0, BlockType::CommandCore),
        p(1, 0, 0, BlockType::Engine),
        p(-1, 0, 0, BlockType::Reactor),
        p(9, 9, 9, BlockType::Hull),
    ];
    let r = validate(&ship);
    assert!(!r.is_valid);
    assert!(r.problems.iter().any(|m| m.contains("not connected")));
}

#[test]
fn overlapping_cells_invalid() {
    let ship = [
        p(0, 0, 0, BlockType::CommandCore),
        p(0, 0, 0, BlockType::CommandCore),
        p(1, 0, 0, BlockType::Engine),
        p(2, 0, 0, BlockType::Reactor),
    ];
    let r = validate(&ship);
    assert!(!r.is_valid);
    assert!(r.problems.iter().any(|m| m.contains("same cell")));
}

#[test]
fn build_ticks_rounds_up() {
    assert_eq!(build_ticks(0), 1);
    assert_eq!(build_ticks(50), 1);
    assert_eq!(build_ticks(51), 2);
    assert_eq!(build_ticks(185), 4);
}

// ── further cases ──────────────────────────────────────────────────────────

#[test]
fn build_ticks_negative_cost_is_one_tick() {
    assert_eq!(build_ticks(-1_000), 1);
    assert_eq!(build_ticks(1), 1);
    assert_eq!(build_ticks(100), 2);
    assert_eq!(build_ticks(101), 3);
}

#[test]
fn exact_problem_messages() {
    // No core, no engine, a weapon only: -8 power.
    let r = validate(&[p(0, 0, 0, BlockType::Weapon)]);
    assert_eq!(
        r.problems,
        vec![
            "needs at least 1 command core".to_string(),
            "needs at least 1 engine".to_string(),
            "insufficient power: net -8 (add a reactor)".to_string(),
        ]
    );
    let r = validate(&[]);
    assert_eq!(r.problems, vec!["design is empty".to_string()]);
}

#[test]
fn detached_count_in_message() {
    let ship = [
        p(0, 0, 0, BlockType::CommandCore),
        p(1, 0, 0, BlockType::Engine),
        p(-1, 0, 0, BlockType::Reactor),
        p(5, 5, 5, BlockType::Hull),
        p(5, 5, 6, BlockType::Hull),
        p(0, 2, 0, BlockType::Sensor),
    ];
    let r = validate(&ship);
    assert!(!r.is_valid);
    assert_eq!(
        r.problems,
        vec!["3 block(s) are not connected to the command core".to_string()]
    );
}

#[test]
fn diagonal_is_not_connected() {
    let ship = [
        p(0, 0, 0, BlockType::CommandCore),
        p(1, 0, 0, BlockType::Engine),
        p(2, 0, 0, BlockType::Reactor),
        p(3, 1, 0, BlockType::Hull),
    ];
    let r = validate(&ship);
    assert_eq!(
        r.problems,
        vec!["1 block(s) are not connected to the command core".to_string()]
    );
}

#[test]
fn connectivity_through_long_chain_and_all_axes() {
    let ship = [
        p(0, 0, 0, BlockType::CommandCore),
        p(0, 0, 1, BlockType::Hull),
        p(0, 1, 1, BlockType::Hull),
        p(1, 1, 1, BlockType::Engine),
        p(1, 1, 0, BlockType::Reactor),
        p(1, 1, -1, BlockType::Weapon),
        p(0, -1, 0, BlockType::Sensor),
    ];
    let r = validate(&ship);
    assert!(r.is_valid, "problems: {:?}", r.problems);
}

#[test]
fn overlap_and_detached_reported_together() {
    let ship = [
        p(0, 0, 0, BlockType::CommandCore),
        p(1, 0, 0, BlockType::Engine),
        p(1, 0, 0, BlockType::Reactor),
        p(7, 0, 0, BlockType::Hull),
    ];
    let r = validate(&ship);
    assert_eq!(
        r.problems,
        vec![
            "two or more blocks occupy the same cell".to_string(),
            "1 block(s) are not connected to the command core".to_string(),
        ]
    );
}

#[test]
fn extreme_coordinates_do_not_wrap() {
    // Cells at the two ends of the i32 range are not neighbours.
    let ship = [
        p(i32::MAX, 0, 0, BlockType::CommandCore),
        p(i32::MAX - 1, 0, 0, BlockType::Engine),
        p(i32::MAX - 2, 0, 0, BlockType::Reactor),
        p(i32::MIN, 0, 0, BlockType::Hull),
    ];
    let r = validate(&ship);
    assert_eq!(
        r.problems,
        vec!["1 block(s) are not connected to the command core".to_string()]
    );
}

#[test]
fn validity_independent_of_block_order() {
    let a = [
        p(0, 0, 0, BlockType::CommandCore),
        p(1, 0, 0, BlockType::Engine),
        p(2, 0, 0, BlockType::Reactor),
        p(2, 1, 0, BlockType::CommandCore),
    ];
    let b = [a[3], a[2], a[0], a[1]];
    assert_eq!(validate(&a).is_valid, validate(&b).is_valid);
    assert!(validate(&b).is_valid);
}

#[test]
fn speed_is_capped() {
    // With the stock blocks thrust/mass stays below the cap; an empty design is still.
    let s = ship_stats(&[]);
    assert_eq!((s.speed.num, s.speed.den), (0, 1));
    assert_eq!(s.block_count, 0);
    let s = ship_stats(&[p(0, 0, 0, BlockType::Engine)]);
    assert_eq!(speed_f64(s.speed.num, s.speed.den), 5.0);
    let v = starframe::design::speed_of(1_000, 2);
    assert_eq!((v.num, v.den), (SPEED_MAX as i128, 1));
}

#[test]
fn stats_fit_for_ordinary_designs() {
    let ship = [p(0, 0, 0, BlockType::CommandCore), p(1, 0, 0, BlockType::Weapon)];
    assert!(stats_fit(&ship));
    let s = ship_stats(&ship);
    assert_eq!(s.attack, 10);
    assert_eq!(s.power, -11);
    assert_eq!(s.mass_halves, 7);
}

#[test]
fn stats_independent_of_block_order() {
    let a = [
        p(0, 0, 0, BlockType::CommandCore),
        p(1, 0, 0, BlockType::Engine),
        p(2, 0, 0, BlockType::Weapon),
        p(3, 0, 0, BlockType::Sensor),
    ];
    let b = [a[2], a[0], a[3], a[1]];
    assert_eq!(ship_stats(&a), ship_stats(&b));
    assert_eq!(ship_stats(&a).cost, 185);
}
