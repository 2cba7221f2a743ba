use game_of_life::grid::{transition, Board, LifeError};
use game_of_life::sim::Simulation;

fn alive_set(sim: &Simulation) -> Vec<(usize, usize)> {
    let mut out: Vec<(usize, usize)> = Vec::new();
    let b = sim.current();
    for y in 0..b.height() {
        for x in 0..b.width() {
            if b.get(x, y) {
                out.push((x, y));
            }
        }
    }
    out
}

#[test]
fn board_new_rejects_zero_dimensions() {
    assert_eq!(Board::new(0, 5).unwrap_err(), LifeError::InvalidDimension);
    assert_eq!(Board::new(5, 0).unwrap_err(), LifeError::InvalidDimension);
    assert_eq!(Board::new(0, 0).unwrap_err(), LifeError::InvalidDimension);
    assert!(Board::new(1, 1).is_ok());
}

#[test]
fn simulation_new_rejects_zero_dimensions() {
    assert_eq!(
        Simulation::new(0, 3).unwrap_err(),
        LifeError::InvalidDimension
    );
    assert_eq!(
        Simulation::new(3, 0).unwrap_err(),
        LifeError::InvalidDimension
    );
    assert!(Simulation::new(3, 3).is_ok());
}

#[test]
fn new_board_is_all_dead() {
    let b = Board::new(4, 3).unwrap();
    assert_eq!(b.width(), 4);
    assert_eq!(b.height(), 3);
    for y in 0..3 {
        for x in 0..4 {
            assert!(!b.get(x, y));
        }
    }
}

#[test]
fn set_and_get_roundtrip() {
    let mut b = Board::new(4, 4).unwrap();
    b.set(2, 3, true);
    assert!(b.get(2, 3));
    b.set(2, 3, false);
    assert!(!b.get(2, 3));
}

#[test]
fn set_and_get_wrap_toroidally() {
    let mut b = Board::new(3, 3).unwrap();
    // (5, 7) wraps to (2, 1)
    b.set(5, 7, true);
    assert!(b.get(2, 1));
    assert!(b.get(5, 7));
    assert!(!b.get(1, 2));
}

#[test]
fn neighbor_count_never_exceeds_eight() {
    // A fully live toroidal grid: every cell sees exactly 8 live neighbors.
    let mut b = Board::new(3, 3).unwrap();
    for y in 0..3 {
        for x in 0..3 {
            b.set(x, y, true);
        }
    }
    for y in 0..3 {
        for x in 0..3 {
            assert_eq!(b.count_live_neighbors(x, y), 8);
        }
    }
}

#[test]
fn toroidal_wrap_neighbor_counts() {
    // Only (0, 0) alive on a 3x3 grid: (2, 2) is its diagonally wrapped
    // neighbor. The center (1, 1) also touches (0, 0), directly rather than
    // via wrap: on a 3-wide torus every pair of distinct cells is adjacent.
    let mut b = Board::new(3, 3).unwrap();
    b.set(0, 0, true);
    assert_eq!(b.count_live_neighbors(2, 2), 1);
    assert_eq!(b.count_live_neighbors(1, 1), 1);
}

#[test]
fn non_adjacent_cell_counts_zero() {
    // Only (0, 0) alive on a 4x4 grid: (2, 2) touches it neither directly
    // nor via wrap, while (3, 3) is its diagonally wrapped neighbor.
    let mut b = Board::new(4, 4).unwrap();
    b.set(0, 0, true);
    assert_eq!(b.count_live_neighbors(2, 2), 0);
    assert_eq!(b.count_live_neighbors(3, 3), 1);
}

#[test]
fn transition_rule_full_table() {
    for count in 0u8..=8 {
        assert_eq!(transition(true, count), count == 2 || count == 3);
        assert_eq!(transition(false, count), count == 3);
    }
}

#[test]
fn query_cell_fate_matches_rule() {
    let mut b = Board::new(4, 4).unwrap();
    // Three live cells around (1, 1): a dead cell with 3 neighbors is born.
    b.set(0, 0, true);
    b.set(1, 0, true);
    b.set(2, 0, true);
    assert_eq!(b.count_live_neighbors(1, 1), 3);
    assert!(b.query_cell_fate(1, 1));
    // (1, 0) is alive with 2 live neighbors: it survives.
    assert!(b.query_cell_fate(1, 0));
    // (3, 3) is dead with no live neighbors: it stays dead.
    assert!(!b.query_cell_fate(3, 3));
}

fn seed_block(sim: &mut Simulation, x0: usize, y0: usize) {
    sim.set_cell(x0, y0, true);
    sim.set_cell(x0 + 1, y0, true);
    sim.set_cell(x0, y0 + 1, true);
    sim.set_cell(x0 + 1, y0 + 1, true);
}

#[test]
fn block_is_a_still_life() {
    let mut sim = Simulation::new(4, 4).unwrap();
    seed_block(&mut sim, 0, 0);
    let before = alive_set(&sim);
    for _ in 0..5 {
        sim.step();
        assert_eq!(alive_set(&sim), before);
    }
}

#[test]
fn block_is_a_still_life_off_corner() {
    let mut sim = Simulation::new(6, 5).unwrap();
    seed_block(&mut sim, 2, 1);
    let before = alive_set(&sim);
    for _ in 0..3 {
        sim.step();
        assert_eq!(alive_set(&sim), before);
    }
}

#[test]
fn blinker_oscillates_with_period_two() {
    let mut sim = Simulation::new(5, 5).unwrap();
    sim.set_cell(1, 0, true);
    sim.set_cell(1, 1, true);
    sim.set_cell(1, 2, true);
    let start = alive_set(&sim);
    sim.step();
    // The line turns perpendicular through its center (1, 1).
    let mut turned = alive_set(&sim);
    turned.sort();
    assert_eq!(turned, vec![(0, 1), (1, 1), (2, 1)]);
    sim.step();
    assert_eq!(alive_set(&sim), start);
}

const GLIDER: [(usize, usize); 5] = [(1, 0), (2, 1), (0, 2), (1, 2), (2, 2)];

#[test]
fn glider_translates_by_one_one_after_four_steps() {
    let mut sim = Simulation::new(8, 8).unwrap();
    for &(x, y) in GLIDER.iter() {
        sim.set_cell(x, y, true);
    }
    for _ in 0..4 {
        sim.step();
    }
    let mut expected: Vec<(usize, usize)> = GLIDER.iter().map(|&(x, y)| (x + 1, y + 1)).collect();
    expected.sort();
    let mut got = alive_set(&sim);
    got.sort();
    assert_eq!(got, expected);
}

#[test]
fn glider_wraps_around_the_torus() {
    // On an 8x8 torus, eight four-step translations by (1, 1) bring the
    // glider back to its starting cells.
    let mut sim = Simulation::new(8, 8).unwrap();
    for &(x, y) in GLIDER.iter() {
        sim.set_cell(x, y, true);
    }
    let start = alive_set(&sim);
    for _ in 0..32 {
        sim.step();
    }
    assert_eq!(alive_set(&sim), start);
}

#[test]
fn step_replaces_current_with_new_generation() {
    // A lone live cell has no neighbors and dies.
    let mut sim = Simulation::new(4, 4).unwrap();
    sim.set_cell(2, 2, true);
    assert!(sim.current().get(2, 2));
    sim.step();
    assert!(!sim.current().get(2, 2));
    assert!(alive_set(&sim).is_empty());
}

#[test]
fn step_reads_only_the_old_generation() {
    // Three cells in a row: the births at the line's flanks must not feed
    // the neighbor counts of the same pass, so the tips die.
    let mut sim = Simulation::new(5, 5).unwrap();
    sim.set_cell(1, 2, true);
    sim.set_cell(2, 2, true);
    sim.set_cell(3, 2, true);
    sim.step();
    let mut got = alive_set(&sim);
    got.sort();
    assert_eq!(got, vec![(2, 1), (2, 2), (2, 3)]);
}

#[test]
fn identical_seeds_evolve_identically() {
    let seeds: [(usize, usize); 6] = [(0, 0), (1, 2), (2, 1), (3, 3), (4, 2), (2, 4)];
    let mut a = Simulation::new(6, 6).unwrap();
    let mut b = Simulation::new(6, 6).unwrap();
    for &(x, y) in seeds.iter() {
        a.set_cell(x, y, true);
        b.set_cell(x, y, true);
    }
    for _ in 0..10 {
        a.step();
        b.step();
        assert_eq!(alive_set(&a), alive_set(&b));
    }
}

#[test]
fn simulation_reports_its_dimensions() {
    let sim = Simulation::new(7, 3).unwrap();
    assert_eq!(sim.width(), 7);
    assert_eq!(sim.height(), 3);
    assert_eq!(sim.current().width(), 7);
    assert_eq!(sim.current().height(), 3);
}

#[test]
fn simulation_set_cell_wraps() {
    let mut sim = Simulation::new(3, 3).unwrap();
    sim.set_cell(4, 5, true);
    assert!(sim.current().get(1, 2));
}
