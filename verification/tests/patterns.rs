use game_of_life::patterns::alive_indices;
use game_of_life::Universe;

#[test]
fn alive_indices_lists_the_true_positions() {
    assert_eq!(
        alive_indices(&[true, false, false, true, true, false]),
        vec![0, 3, 4]
    );
    assert_eq!(alive_indices(&[]), vec![]);
    assert_eq!(alive_indices(&[false, false]), vec![]);
    assert_eq!(alive_indices(&[true, true, true]), vec![0, 1, 2]);
}

#[test]
fn default_pattern_holds_even_indices_and_multiples_of_seven() {
    assert_eq!(
        Universe::build_universe_default(3, 3),
        vec![0, 2, 4, 6, 7, 8]
    );
    assert_eq!(
        Universe::build_universe_default(11, 2),
        vec![0, 2, 4, 6, 7, 8, 10, 12, 14, 16, 18, 20, 21]
    );
    assert_eq!(Universe::build_universe_default(0, 9), vec![]);
}

#[test]
fn random_fill_is_ascending_and_within_the_grid() {
    let cells = Universe::build_universe_random(20, 30);
    assert!(cells.windows(2).all(|pair| pair[0] < pair[1]));
    assert!(cells.iter().all(|&i| i < 600));
}

#[test]
fn random_fill_is_neither_empty_nor_full() {
    let cells = Universe::build_universe_random(64, 64);
    assert!(!cells.is_empty());
    assert!(cells.len() < 64 * 64);
}

#[test]
fn random_fill_of_an_empty_grid_is_empty() {
    assert_eq!(Universe::build_universe_random(0, 5), vec![]);
}

#[test]
fn spaceship_cells_in_order() {
    assert_eq!(
        Universe::build_universe_spaceship(10, 8),
        [45, 46, 54, 55, 34]
    );
    assert_eq!(Universe::build_universe_spaceship(2, 2), [3, 4, 4, 5, 0]);
}
