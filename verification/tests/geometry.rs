use snake_game::grid::col_of;
use snake_game::grid::neighbor;
use snake_game::grid::opposite;
use snake_game::grid::row_of;
use snake_game::Direction;

#[test]
fn rows_and_columns_are_row_major() {
    assert_eq!(row_of(0, 5), 0);
    assert_eq!(col_of(0, 5), 0);
    assert_eq!(row_of(12, 5), 2);
    assert_eq!(col_of(12, 5), 2);
    assert_eq!(row_of(24, 5), 4);
    assert_eq!(col_of(24, 5), 4);
    assert_eq!(row_of(7, 3), 2);
    assert_eq!(col_of(7, 3), 1);
}

#[test]
fn neighbor_moves_one_cell_in_the_interior() {
    assert_eq!(neighbor(12, 5, Direction::Up), 7);
    assert_eq!(neighbor(12, 5, Direction::Down), 17);
    assert_eq!(neighbor(12, 5, Direction::Right), 13);
    assert_eq!(neighbor(12, 5, Direction::Left), 11);
}

#[test]
fn neighbor_wraps_at_every_edge() {
    // top row wraps to the bottom row, same column
    assert_eq!(neighbor(2, 5, Direction::Up), 22);
    // bottom row wraps to the top row, same column
    assert_eq!(neighbor(22, 5, Direction::Down), 2);
    // first column wraps to the last column, same row
    assert_eq!(neighbor(10, 5, Direction::Left), 14);
    // last column wraps to the first column, same row
    assert_eq!(neighbor(14, 5, Direction::Right), 10);
    // corners
    assert_eq!(neighbor(0, 5, Direction::Up), 20);
    assert_eq!(neighbor(0, 5, Direction::Left), 4);
    assert_eq!(neighbor(24, 5, Direction::Down), 4);
    assert_eq!(neighbor(24, 5, Direction::Right), 20);
}

#[test]
fn neighbor_round_trips_on_every_cell() {
    let dirs = [Direction::Up, Direction::Right, Direction::Down, Direction::Left];
    for width in 1..6usize {
        let size = width * width;
        for index in 0..size {
            for dir in dirs {
                let step = neighbor(index, width, dir);
                assert!(step < size);
                assert_eq!(neighbor(step, width, opposite(dir)), index);
            }
        }
    }
}

#[test]
fn opposite_swaps_both_axes() {
    assert_eq!(opposite(Direction::Up), Direction::Down);
    assert_eq!(opposite(Direction::Down), Direction::Up);
    assert_eq!(opposite(Direction::Left), Direction::Right);
    assert_eq!(opposite(Direction::Right), Direction::Left);
}
