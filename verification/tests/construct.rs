use game_of_life::{Cell, Universe, UniverseError};

fn alive_indices_of(universe: &Universe) -> Vec<usize> {
    let mut alive = Vec::new();
    for row in 0..universe.height() {
        for column in 0..universe.width() {
            if universe.cell_at(row, column).unwrap() == Cell::Alive {
                alive.push(Universe::index(universe.width(), row, column));
            }
        }
    }
    alive
}

#[test]
fn index_is_row_times_width_plus_column() {
    assert_eq!(Universe::index(6, 1, 2), 8);
    assert_eq!(Universe::index(6, 0, 0), 0);
    assert_eq!(Universe::index(6, 5, 5), 35);
    assert_eq!(Universe::index(1, 7, 0), 7);
    assert_eq!(Universe::index(128, 127, 127), 16383);
    assert_eq!(Universe::index(65535, 65535, 65535), 4294901760);
}

#[test]
fn new_with_cells_sets_exactly_the_listed_cells() {
    let universe = Universe::new_with_cells(4, 3, &[0, 5, 11, 5]).unwrap();
    assert_eq!(universe.width(), 4);
    assert_eq!(universe.height(), 3);
    assert_eq!(alive_indices_of(&universe), vec![0, 5, 11]);
    assert_eq!(universe.active_index(), 0);
}

#[test]
fn new_with_cells_without_cells_is_all_dead() {
    let universe = Universe::new_with_cells(3, 2, &[]).unwrap();
    assert_eq!(alive_indices_of(&universe), vec![]);
}

#[test]
fn zero_dimension_is_refused() {
    assert_eq!(
        Universe::new_with_cells(0, 5, &[]).unwrap_err(),
        UniverseError::ZeroDimension
    );
    assert_eq!(
        Universe::new_with_cells(5, 0, &[]).unwrap_err(),
        UniverseError::ZeroDimension
    );
    assert_eq!(
        Universe::new_with_cells(0, 0, &[3]).unwrap_err(),
        UniverseError::ZeroDimension
    );
    assert_eq!(Universe::new(0, 8).unwrap_err(), UniverseError::ZeroDimension);
    assert_eq!(
        Universe::new_random(8, 0).unwrap_err(),
        UniverseError::ZeroDimension
    );
}

#[test]
fn too_many_cells_are_refused() {
    assert_eq!(
        Universe::new_with_cells(65536, 65536, &[]).unwrap_err(),
        UniverseError::TooLarge
    );
    assert_eq!(
        Universe::new_with_cells(u32::MAX, 2, &[0]).unwrap_err(),
        UniverseError::TooLarge
    );
    assert_eq!(
        Universe::new(65536, 65536).unwrap_err(),
        UniverseError::TooLarge
    );
    assert_eq!(
        Universe::new_random(u32::MAX, u32::MAX).unwrap_err(),
        UniverseError::TooLarge
    );
}

#[test]
fn index_outside_the_grid_is_refused() {
    assert_eq!(
        Universe::new_with_cells(6, 6, &[36]).unwrap_err(),
        UniverseError::OutOfRange
    );
    assert_eq!(
        Universe::new_with_cells(6, 6, &[0, 35, usize::MAX]).unwrap_err(),
        UniverseError::OutOfRange
    );
    assert!(Universe::new_with_cells(6, 6, &[35]).is_ok());
}

#[test]
fn new_places_the_spaceship_at_the_centre() {
    let universe = Universe::new(6, 6).unwrap();
    // Centre (3, 3): (3, 3), (3, 4), (4, 2), (4, 3), (2, 2).
    assert_eq!(alive_indices_of(&universe), vec![14, 21, 22, 26, 27]);
    assert_eq!(
        Universe::build_universe_spaceship(6, 6),
        [21, 22, 26, 27, 14]
    );
    let universe = Universe::new(64, 64).unwrap();
    assert_eq!(
        alive_indices_of(&universe),
        vec![31 * 64 + 31, 32 * 64 + 32, 32 * 64 + 33, 33 * 64 + 31, 33 * 64 + 32]
    );
}

#[test]
fn new_on_the_smallest_grid_that_holds_the_spaceship() {
    let universe = Universe::new(3, 3).unwrap();
    // Centre (1, 1): (1, 1), (1, 2), (2, 0), (2, 1), (0, 0).
    assert_eq!(alive_indices_of(&universe), vec![0, 4, 5, 6, 7]);
}

#[test]
fn new_on_a_grid_two_wide_wraps_the_right_wing_into_the_next_row() {
    let universe = Universe::new(2, 5).unwrap();
    assert_eq!(Universe::build_universe_spaceship(2, 5), [5, 6, 6, 7, 2]);
    assert_eq!(alive_indices_of(&universe), vec![2, 5, 6, 7]);
}

#[test]
fn new_refuses_a_grid_that_cannot_hold_the_spaceship() {
    assert_eq!(Universe::new(1, 5).unwrap_err(), UniverseError::OutOfRange);
    assert_eq!(Universe::new(5, 1).unwrap_err(), UniverseError::OutOfRange);
    assert_eq!(Universe::new(5, 2).unwrap_err(), UniverseError::OutOfRange);
    assert_eq!(Universe::new(2, 2).unwrap_err(), UniverseError::OutOfRange);
    assert_eq!(Universe::new(1, 1).unwrap_err(), UniverseError::OutOfRange);
    assert!(Universe::new(2, 3).is_ok());
}

#[test]
fn new_random_has_the_given_dimensions() {
    let universe = Universe::new_random(9, 4).unwrap();
    assert_eq!(universe.width(), 9);
    assert_eq!(universe.height(), 4);
    assert_eq!(universe.render().chars().count(), 36);
    assert_eq!(universe.active_index(), 0);
}

#[test]
fn new_random_fills_about_half_of_a_large_grid() {
    let universe = Universe::new_random(100, 100).unwrap();
    let alive = alive_indices_of(&universe).len();
    assert!(alive > 4000 && alive < 6000, "{} cells alive", alive);
}

#[test]
fn randomize_keeps_the_dimensions_and_starts_afresh() {
    let mut universe = Universe::new_with_cells(7, 5, &[1, 2, 3]).unwrap();
    universe.tick();
    assert_eq!(universe.active_index(), 1);
    universe.randomize();
    assert_eq!(universe.width(), 7);
    assert_eq!(universe.height(), 5);
    assert_eq!(universe.active_index(), 0);
    assert_eq!(universe.render().chars().count(), 35);
}

#[test]
fn reset_leaves_every_cell_dead() {
    let mut universe = Universe::new_with_cells(6, 6, &[8, 15, 19, 20, 21]).unwrap();
    universe.tick();
    universe.reset();
    assert_eq!(universe.width(), 6);
    assert_eq!(universe.height(), 6);
    assert_eq!(universe.active_index(), 0);
    assert_eq!(alive_indices_of(&universe), vec![]);
    assert_eq!(universe, Universe::new_with_cells(6, 6, &[]).unwrap());
}

#[test]
fn reset_twice_is_reset_once() {
    let mut once = Universe::new(8, 8).unwrap();
    let mut twice = Universe::new(8, 8).unwrap();
    once.reset();
    twice.reset();
    twice.reset();
    assert_eq!(once, twice);
    assert_eq!(once.active_index(), twice.active_index());
}

#[test]
fn reset_grid_stays_dead() {
    let mut universe = Universe::new_random(10, 10).unwrap();
    universe.reset();
    universe.tick();
    assert_eq!(alive_indices_of(&universe), vec![]);
    universe.tick_n(5);
    assert_eq!(alive_indices_of(&universe), vec![]);
}

#[test]
fn reset_clears_the_scratch_buffer_too() {
    // The old generation must not come back with the next swap.
    let mut universe = Universe::new_with_cells(4, 4, &[5, 6, 9, 10]).unwrap();
    universe.tick();
    universe.reset();
    universe.tick();
    assert_eq!(alive_indices_of(&universe), vec![]);
}
