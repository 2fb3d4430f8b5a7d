use gol::Universe;

fn grid_with(width: u32, height: u32, alive: &[(u32, u32)]) -> Universe {
    let mut u = Universe::new(width, height);
    u.set_cells(alive);
    u
}

fn alive_at(u: &Universe, row: u32, column: u32) -> bool {
    u.cells()[(row * u.width() + column) as usize]
}

#[test]
fn tick_is_deterministic() {
    let glider: &[(u32, u32)] = &[(0, 1), (1, 2), (2, 0), (2, 1), (2, 2)];
    let mut a = grid_with(6, 6, glider);
    let mut b = grid_with(6, 6, glider);
    a.tick();
    b.tick();
    assert_eq!(a.cells(), b.cells());
    a.tick();
    b.tick();
    assert_eq!(a.cells(), b.cells());
}

#[test]
fn block_is_a_still_life() {
    let block: &[(u32, u32)] = &[(1, 1), (1, 2), (2, 1), (2, 2)];
    let mut u = grid_with(4, 4, block);
    let before = u.cells();
    u.tick();
    assert_eq!(u.cells(), before);
    u.tick();
    assert_eq!(u.cells(), before);
}

#[test]
fn block_at_the_corner_is_still_a_still_life() {
    let block: &[(u32, u32)] = &[(0, 0), (0, 1), (1, 0), (1, 1)];
    let mut u = grid_with(4, 4, block);
    let before = u.cells();
    u.tick();
    assert_eq!(u.cells(), before);
}

#[test]
fn blinker_oscillates_with_period_two() {
    let horizontal: &[(u32, u32)] = &[(2, 1), (2, 2), (2, 3)];
    let vertical: &[(u32, u32)] = &[(1, 2), (2, 2), (3, 2)];
    let mut u = grid_with(5, 5, horizontal);
    let start = u.cells();
    u.tick();
    assert_eq!(u.cells(), grid_with(5, 5, vertical).cells());
    u.tick();
    assert_eq!(u.cells(), start);
}

#[test]
fn corner_counts_wrapped_neighbors() {
    // three live cells reach (0, 0) only through wraparound: the far
    // corner diagonally and the two far edges
    let mut u = grid_with(5, 4, &[(3, 4), (0, 4), (3, 0)]);
    assert!(!alive_at(&u, 0, 0));
    u.tick();
    assert!(alive_at(&u, 0, 0));
}

#[test]
fn corner_cell_survives_through_wrapped_neighbors() {
    let mut u = grid_with(5, 4, &[(0, 0), (3, 4), (0, 4), (3, 0)]);
    u.tick();
    assert!(alive_at(&u, 0, 0));
}

#[test]
fn one_by_one_grid_wraps_to_itself() {
    // on a 1-cell axis every wrapped neighbor coordinate is the cell
    // itself, so a live cell counts 8 live neighbors and dies
    let mut u = grid_with(1, 1, &[(0, 0)]);
    u.tick();
    assert!(!alive_at(&u, 0, 0));
}

#[test]
fn isolated_cell_dies_of_underpopulation() {
    let mut u = grid_with(4, 4, &[(1, 1)]);
    u.tick();
    assert!(u.cells().iter().all(|&c| !c));
}

#[test]
fn crowded_cell_dies_of_overpopulation() {
    let mut u = grid_with(5, 5, &[(2, 2), (1, 1), (1, 3), (3, 1), (3, 3)]);
    u.tick();
    assert!(!alive_at(&u, 2, 2));
}

#[test]
fn dead_cell_with_three_neighbors_is_born() {
    let mut u = grid_with(5, 5, &[(1, 1), (1, 2), (1, 3)]);
    assert!(!alive_at(&u, 0, 2));
    u.tick();
    assert!(alive_at(&u, 0, 2));
}

#[test]
fn dead_cell_with_two_neighbors_stays_dead() {
    let mut u = grid_with(5, 5, &[(1, 1), (1, 2)]);
    u.tick();
    assert!(!alive_at(&u, 0, 1));
}

#[test]
fn dead_cell_with_four_neighbors_stays_dead() {
    let mut u = grid_with(5, 5, &[(1, 1), (1, 3), (3, 1), (3, 3)]);
    u.tick();
    assert!(!alive_at(&u, 2, 2));
}
