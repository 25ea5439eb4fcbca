use conway::error::LifeError;
use conway::grid::Grid;

/// Collects the whole board through the public accessor, row-major.
fn board(g: &Grid) -> Vec<bool> {
    let size = g.size();
    let mut out = Vec::new();
    for y in 0..size {
        for x in 0..size {
            out.push(g.get(x, y).unwrap());
        }
    }
    out
}

#[test]
fn fresh_grid_is_all_dead_with_zero_neighbor_counts() {
    let g = Grid::new(4).unwrap();
    assert_eq!(g.size(), 4);
    let cells = board(&g);
    assert_eq!(cells.len(), 16);
    assert!(cells.iter().all(|&c| !c));
    for y in 0..4 {
        for x in 0..4 {
            assert_eq!(g.count_alive_neighbors(x, y).unwrap(), 0);
        }
    }
}

#[test]
fn zero_size_is_invalid_configuration() {
    assert_eq!(Grid::new(0).unwrap_err(), LifeError::InvalidConfiguration);
    let mut rng = conway::rng::Rng::new(7);
    assert_eq!(
        Grid::new_randomized(0, &mut rng).unwrap_err(),
        LifeError::InvalidConfiguration
    );
}

#[test]
fn accessors_reject_out_of_range_coordinates() {
    let mut g = Grid::new(3).unwrap();
    assert_eq!(g.get(3, 0).unwrap_err(), LifeError::OutOfBounds);
    assert_eq!(g.get(0, 3).unwrap_err(), LifeError::OutOfBounds);
    assert_eq!(g.get(3, 3).unwrap_err(), LifeError::OutOfBounds);
    assert_eq!(g.get(100, 1).unwrap_err(), LifeError::OutOfBounds);
    assert_eq!(g.set(3, 1, true).unwrap_err(), LifeError::OutOfBounds);
    assert_eq!(g.set(1, 3, true).unwrap_err(), LifeError::OutOfBounds);
    assert_eq!(
        g.count_alive_neighbors(3, 1).unwrap_err(),
        LifeError::OutOfBounds
    );
    // A failed set leaves the board untouched.
    assert!(board(&g).iter().all(|&c| !c));
}

#[test]
fn set_then_get_round_trips_and_leaves_the_rest_alone() {
    let mut g = Grid::new(5).unwrap();
    g.set(1, 2, true).unwrap();
    assert!(g.get(1, 2).unwrap());
    for y in 0..5 {
        for x in 0..5 {
            if (x, y) != (1, 2) {
                assert!(!g.get(x, y).unwrap());
            }
        }
    }
    g.set(1, 2, false).unwrap();
    assert!(!g.get(1, 2).unwrap());
}

#[test]
fn neighbor_counting_sees_the_moore_neighborhood_only() {
    let mut g = Grid::new(3).unwrap();
    g.set(1, 1, true).unwrap();
    // The live cell is not its own neighbor.
    assert_eq!(g.count_alive_neighbors(1, 1).unwrap(), 0);
    // Every other cell of the 3x3 board touches the center.
    for y in 0..3 {
        for x in 0..3 {
            if (x, y) != (1, 1) {
                assert_eq!(g.count_alive_neighbors(x, y).unwrap(), 1);
            }
        }
    }
    // Off-grid positions count as dead: a corner cell next to the center
    // still sees exactly one live neighbor.
    g.set(0, 0, true).unwrap();
    assert_eq!(g.count_alive_neighbors(0, 1).unwrap(), 2);
    assert_eq!(g.count_alive_neighbors(2, 2).unwrap(), 1);
}

#[test]
fn neighbor_count_reaches_eight_on_a_full_board() {
    let mut g = Grid::new(3).unwrap();
    for y in 0..3 {
        for x in 0..3 {
            g.set(x, y, true).unwrap();
        }
    }
    assert_eq!(g.count_alive_neighbors(1, 1).unwrap(), 8);
    // Corners and edges of the full board see fewer neighbors, because the
    // board does not wrap.
    assert_eq!(g.count_alive_neighbors(0, 0).unwrap(), 3);
    assert_eq!(g.count_alive_neighbors(1, 0).unwrap(), 5);
    // On the full 3x3 board every cell is either overcrowded or a corner
    // with exactly three neighbors, so only the corners survive.
    let next = g.next_generation();
    for y in 0..3 {
        for x in 0..3 {
            let corner = (x == 0 || x == 2) && (y == 0 || y == 2);
            assert_eq!(next.get(x, y).unwrap(), corner);
        }
    }
}

#[test]
fn blinker_oscillates_with_period_two() {
    // The canonical 3-cell blinker, horizontal, centered on a 5x5 board.
    let mut g = Grid::new(5).unwrap();
    g.set(1, 2, true).unwrap();
    g.set(2, 2, true).unwrap();
    g.set(3, 2, true).unwrap();
    let gen0 = board(&g);

    let g1 = g.next_generation();
    let gen1 = board(&g1);
    // One step turns it vertical.
    for y in 0..5 {
        for x in 0..5 {
            let expect = x == 2 && (1..=3).contains(&y);
            assert_eq!(gen1[y * 5 + x], expect);
        }
    }
    assert_ne!(gen0, gen1);

    let g2 = g1.next_generation();
    assert_eq!(board(&g2), gen0);
}

#[test]
fn randomized_boards_are_reproducible_from_the_seed() {
    let mut rng_a = conway::rng::Rng::new(42);
    let mut rng_b = conway::rng::Rng::new(42);
    let a = Grid::new_randomized(5, &mut rng_a).unwrap();
    let b = Grid::new_randomized(5, &mut rng_b).unwrap();
    assert_eq!(board(&a), board(&b));

    // The exact draw sequence of the linear congruential generator for
    // seed 42, computed independently.
    let expected = vec![
        true, false, false, true, true, false, false, false, false, false, false, true, true,
        false, true, false, true, false, false, true, false, false, false, false, false,
    ];
    assert_eq!(board(&a), expected);

    // A different seed gives a different board.
    let mut rng_c = conway::rng::Rng::new(43);
    let c = Grid::new_randomized(5, &mut rng_c).unwrap();
    assert_ne!(board(&a), board(&c));
}
