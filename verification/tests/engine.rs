use gol::Universe;

fn grid_with(width: u32, height: u32, alive: &[(u32, u32)]) -> Universe {
    let mut u = Universe::new(width, height);
    u.set_cells(alive);
    u
}

fn alive_at(u: &Universe, row: u32, column: u32) -> bool {
    u.cells()[(row * u.width() + column) as usize]
}

#[test]
fn new_grid_is_dead_with_given_dimensions() {
    let u = Universe::new(5, 4);
    assert_eq!(u.width(), 5);
    assert_eq!(u.height(), 4);
    let cells = u.cells();
    assert_eq!(cells.len(), 20);
    assert!(cells.iter().all(|&c| !c));
}

#[test]
fn zero_dimensions_yield_an_empty_grid() {
    let u = Universe::new(0, 7);
    assert_eq!(u.width(), 0);
    assert_eq!(u.height(), 7);
    assert_eq!(u.cells().len(), 0);
}

#[test]
fn set_cells_marks_cells_alive() {
    let u = grid_with(4, 4, &[(0, 0), (2, 3), (3, 1)]);
    assert!(alive_at(&u, 0, 0));
    assert!(alive_at(&u, 2, 3));
    assert!(alive_at(&u, 3, 1));
    assert!(!alive_at(&u, 1, 1));
    assert_eq!(u.cells().iter().filter(|&&c| c).count(), 3);
}

#[test]
fn set_cells_is_additive_only() {
    let mut u = grid_with(4, 4, &[(1, 1), (2, 2)]);
    u.set_cells(&[(0, 3), (2, 2)]);
    // the cells alive before the call are never cleared by it
    assert!(alive_at(&u, 1, 1));
    assert!(alive_at(&u, 2, 2));
    assert!(alive_at(&u, 0, 3));
    assert_eq!(u.cells().iter().filter(|&&c| c).count(), 3);
}

#[test]
fn set_cells_with_empty_list_changes_nothing() {
    let mut u = grid_with(3, 3, &[(1, 1)]);
    let before = u.cells();
    u.set_cells(&[]);
    assert_eq!(u.cells(), before);
}

#[test]
fn toggle_cell_flips_only_that_cell() {
    let mut u = grid_with(4, 3, &[(1, 1)]);
    u.toggle_cell(1, 2);
    assert!(alive_at(&u, 1, 2));
    assert!(alive_at(&u, 1, 1));
    u.toggle_cell(1, 1);
    assert!(!alive_at(&u, 1, 1));
    assert!(alive_at(&u, 1, 2));
    assert_eq!(u.cells().iter().filter(|&&c| c).count(), 1);
}

#[test]
fn toggle_cell_twice_restores_the_grid() {
    let mut u = grid_with(4, 4, &[(0, 1), (3, 3)]);
    let before = u.cells();
    u.toggle_cell(2, 2);
    u.toggle_cell(2, 2);
    assert_eq!(u.cells(), before);
    u.toggle_cell(3, 3);
    u.toggle_cell(3, 3);
    assert_eq!(u.cells(), before);
}

#[test]
fn set_width_clears_all_content() {
    let mut u = grid_with(4, 4, &[(0, 0), (1, 1), (3, 3)]);
    u.set_width(6);
    assert_eq!(u.width(), 6);
    assert_eq!(u.height(), 4);
    let cells = u.cells();
    assert_eq!(cells.len(), 24);
    assert!(cells.iter().all(|&c| !c));
}

#[test]
fn set_height_clears_all_content() {
    let mut u = grid_with(4, 4, &[(0, 0), (2, 1), (3, 3)]);
    u.set_height(2);
    assert_eq!(u.width(), 4);
    assert_eq!(u.height(), 2);
    let cells = u.cells();
    assert_eq!(cells.len(), 8);
    assert!(cells.iter().all(|&c| !c));
}

#[test]
fn restart_clears_content_and_keeps_dimensions() {
    let mut u = grid_with(5, 3, &[(0, 0), (2, 4), (1, 2)]);
    u.restart();
    assert_eq!(u.width(), 5);
    assert_eq!(u.height(), 3);
    assert!(u.cells().iter().all(|&c| !c));
}

#[test]
fn get_cells_exposes_the_packed_store() {
    let u = grid_with(4, 4, &[(0, 0), (1, 2)]);
    let bits = u.get_cells();
    assert_eq!(bits.len(), 16);
    assert!(bits.contains(0));
    assert!(bits.contains(6));
    assert!(!bits.contains(1));
    assert_eq!(bits.count_ones(..), 2);
}

#[test]
fn cells_snapshot_is_row_major() {
    let u = grid_with(3, 2, &[(0, 2), (1, 0)]);
    assert_eq!(u.cells(), vec![false, false, true, true, false, false]);
}

#[test]
fn render_draws_rows_of_glyphs() {
    let u = grid_with(3, 2, &[(0, 1), (1, 2)]);
    let expected = "\u{25fb}\u{25fc}\u{25fb}\n\u{25fb}\u{25fb}\u{25fc}\n";
    assert_eq!(u.render(), expected);
}

#[test]
fn render_of_width_zero_is_empty() {
    let u = Universe::new(0, 3);
    assert_eq!(u.render(), "");
}
