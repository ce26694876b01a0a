use game_of_life::Cell;

#[test]
fn flags_and_cells_correspond() {
    assert!(Cell::Alive.as_flag());
    assert!(!Cell::Dead.as_flag());
    assert_eq!(Cell::from_flag(true), Cell::Alive);
    assert_eq!(Cell::from_flag(false), Cell::Dead);
}

#[test]
fn live_cell_survives_with_two_or_three_neighbours_only() {
    let expected = [
        Cell::Dead,
        Cell::Dead,
        Cell::Alive,
        Cell::Alive,
        Cell::Dead,
        Cell::Dead,
        Cell::Dead,
        Cell::Dead,
        Cell::Dead,
    ];
    for n in 0..=8u8 {
        assert_eq!(Cell::Alive.evolve(n), expected[n as usize], "{} neighbours", n);
    }
}

#[test]
fn dead_cell_is_born_with_three_neighbours_only() {
    for n in 0..=8u8 {
        let expected = if n == 3 { Cell::Alive } else { Cell::Dead };
        assert_eq!(Cell::Dead.evolve(n), expected, "{} neighbours", n);
    }
}
