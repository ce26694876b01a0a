use game_of_life::{Cell, Universe, UniverseError};

#[test]
fn toggle_inverts_one_cell() {
    let mut universe = Universe::new_with_cells(4, 3, &[5]).unwrap();
    assert_eq!(universe.toggle_cell(2, 3), Ok(()));
    assert_eq!(universe.cell_at(2, 3).unwrap(), Cell::Alive);
    assert_eq!(universe, Universe::new_with_cells(4, 3, &[5, 11]).unwrap());
    assert_eq!(universe.toggle_cell(1, 1), Ok(()));
    assert_eq!(universe.cell_at(1, 1).unwrap(), Cell::Dead);
    assert_eq!(universe, Universe::new_with_cells(4, 3, &[11]).unwrap());
}

#[test]
fn toggle_twice_restores_the_grid() {
    let start = Universe::new_with_cells(5, 5, &[0, 7, 12, 24]).unwrap();
    for row in 0..5 {
        for column in 0..5 {
            let mut universe = Universe::new_with_cells(5, 5, &[0, 7, 12, 24]).unwrap();
            universe.toggle_cell(row, column).unwrap();
            assert_ne!(universe, start);
            universe.toggle_cell(row, column).unwrap();
            assert_eq!(universe, start);
        }
    }
}

#[test]
fn toggle_leaves_the_other_cells_alone() {
    let before = Universe::new_with_cells(5, 4, &[1, 6, 13]).unwrap();
    let mut after = Universe::new_with_cells(5, 4, &[1, 6, 13]).unwrap();
    after.toggle_cell(2, 3).unwrap();
    for row in 0..4 {
        for column in 0..5 {
            let same = before.cell_at(row, column) == after.cell_at(row, column);
            assert_eq!(same, (row, column) != (2, 3));
        }
    }
}

#[test]
fn toggle_outside_the_grid_is_refused_and_changes_nothing() {
    let mut universe = Universe::new_with_cells(5, 4, &[1, 6, 13]).unwrap();
    assert_eq!(universe.toggle_cell(4, 0), Err(UniverseError::OutOfRange));
    assert_eq!(universe.toggle_cell(0, 5), Err(UniverseError::OutOfRange));
    assert_eq!(
        universe.toggle_cell(u32::MAX, u32::MAX),
        Err(UniverseError::OutOfRange)
    );
    // (0, 5) would be index 5, a cell of the grid: it must not wrap into
    // the next row.
    assert_eq!(universe, Universe::new_with_cells(5, 4, &[1, 6, 13]).unwrap());
}

#[test]
fn toggle_after_a_tick_reaches_the_current_generation() {
    let mut universe = Universe::new_with_cells(5, 5, &[11, 12, 13]).unwrap();
    universe.tick();
    universe.toggle_cell(0, 0).unwrap();
    assert_eq!(
        universe,
        Universe::new_with_cells(5, 5, &[0, 7, 12, 17]).unwrap()
    );
    // The toggle went to the current buffer, not to the scratch buffer: the
    // next generation is decided with it.
    universe.toggle_cell(0, 0).unwrap();
    universe.tick();
    assert_eq!(
        universe,
        Universe::new_with_cells(5, 5, &[11, 12, 13]).unwrap()
    );
}

#[test]
fn cell_at_outside_the_grid_is_refused() {
    let universe = Universe::new_with_cells(5, 4, &[]).unwrap();
    assert_eq!(universe.cell_at(4, 0), Err(UniverseError::OutOfRange));
    assert_eq!(universe.cell_at(0, 5), Err(UniverseError::OutOfRange));
    assert_eq!(universe.cell_at(3, 4), Ok(Cell::Dead));
}
