use snake_game::Direction;
use snake_game::ScriptedRandom;
use snake_game::Snake;
use snake_game::World;

fn scripted(draws: &[usize]) -> ScriptedRandom {
    ScriptedRandom::new(draws.to_vec())
}

#[test]
fn snake_spawns_backward_from_its_head() {
    // heading left, the body trails off to the right
    let s = Snake::from(12, Direction::Left, 3, 5);
    let cells: Vec<usize> = s.body.iter().map(|c| c.0).collect();
    assert_eq!(cells, vec![12, 13, 14]);
    // heading up, the body trails downward
    let s = Snake::from(0, Direction::Up, 3, 5);
    let cells: Vec<usize> = s.body.iter().map(|c| c.0).collect();
    assert_eq!(cells, vec![0, 5, 10]);
    // heading right from the first column, the body wraps within its row
    let s = Snake::from(0, Direction::Right, 3, 5);
    let cells: Vec<usize> = s.body.iter().map(|c| c.0).collect();
    assert_eq!(cells, vec![0, 4, 3]);
}

#[test]
fn world_spawns_with_documented_layout() {
    let mut rng = scripted(&[7]);
    let w = World::from(5, 12, &mut rng);
    assert_eq!(w.width(), 5);
    assert_eq!(w.snake_length(), snake_game::INITIAL_SNAKE_LENGTH);
    assert_eq!(w.snake_head_idx(), 12);
    assert_eq!(w.snake_cells(), vec![12, 13, 14]);
    assert_eq!(w.reward_cell(), 7);
}

#[test]
fn step_moves_the_head_left_and_the_body_follows() {
    let mut rng = scripted(&[7]);
    let mut w = World::from(5, 12, &mut rng);
    w.step(&mut rng);
    assert_eq!(w.snake_head_idx(), 11);
    assert_eq!(w.snake_cells(), vec![11, 12, 13]);
    assert_eq!(w.snake_length(), 3);
    assert_eq!(w.reward_cell(), 7);
}

#[test]
fn body_moves_as_a_rigid_chain() {
    let mut rng = scripted(&[7]);
    let mut w = World::from(5, 12, &mut rng);
    for _ in 0..6 {
        let before = w.snake_cells();
        w.step(&mut rng);
        let after = w.snake_cells();
        assert_eq!(after.len(), before.len());
        for i in 1..after.len() {
            assert_eq!(after[i], before[i - 1]);
        }
    }
}

#[test]
fn reversal_into_the_neck_is_ignored() {
    let mut rng = scripted(&[7]);
    let mut w = World::from(5, 12, &mut rng);
    // moving left; right would reverse into the neck at 13
    w.change_snake_dir(Direction::Right);
    w.step(&mut rng);
    assert_eq!(w.snake_head_idx(), 11);
    assert_eq!(w.snake_cells(), vec![11, 12, 13]);
}

#[test]
fn opposite_of_a_buffered_turn_is_not_a_reversal() {
    // what is rejected is a move into the neck, not an opposite direction as
    // such: after an accepted turn upward the neck still lies to the right,
    // so a downward request (the opposite of the buffered direction) passes
    let mut rng = scripted(&[9]);
    let mut w = World::from(5, 12, &mut rng);
    w.change_snake_dir(Direction::Up);
    w.change_snake_dir(Direction::Down);
    w.step(&mut rng);
    assert_eq!(w.snake_head_idx(), 17);
    assert_eq!(w.snake_cells(), vec![17, 12, 13]);
}

#[test]
fn accepted_turn_takes_effect_on_the_next_step() {
    let mut rng = scripted(&[9]);
    let mut w = World::from(5, 12, &mut rng);
    w.change_snake_dir(Direction::Up);
    w.step(&mut rng);
    assert_eq!(w.snake_head_idx(), 7);
    assert_eq!(w.snake_cells(), vec![7, 12, 13]);
    assert_eq!(w.reward_cell(), 9);
}

#[test]
fn reaching_the_reward_grows_the_snake() {
    // the reward lands at 11, directly in the snake's path
    let mut rng = scripted(&[11, 0]);
    let mut w = World::from(5, 12, &mut rng);
    assert_eq!(w.reward_cell(), 11);
    w.step(&mut rng);
    assert_eq!(w.snake_length(), 4);
    assert_eq!(w.snake_cells(), vec![11, 12, 13, 13]);
    // the new reward avoids every occupied cell
    assert_eq!(w.reward_cell(), 0);
    assert!(!w.snake_cells().contains(&w.reward_cell()));
}

#[test]
fn reward_placement_skips_occupied_cells() {
    // the first draw hits the snake and is rejected; the second lands free
    let mut rng = scripted(&[12, 7]);
    let w = World::from(5, 12, &mut rng);
    assert_eq!(w.reward_cell(), 7);
}

#[test]
fn scripted_draws_are_reduced_modulo_the_bound() {
    // 36 mod 25 = 11
    let mut rng = scripted(&[36]);
    let w = World::from(5, 12, &mut rng);
    assert_eq!(w.reward_cell(), 11);
}

#[test]
fn exhausted_script_draws_zero() {
    let mut rng = scripted(&[]);
    let w = World::from(5, 12, &mut rng);
    assert_eq!(w.reward_cell(), 0);
}

#[test]
fn tiny_board_allows_a_body_that_overlaps_itself() {
    // on a 2x2 board the three starting segments wrap within one row
    let mut rng = scripted(&[]);
    let w = World::from(2, 3, &mut rng);
    assert_eq!(w.snake_cells(), vec![3, 2, 3]);
    assert_eq!(w.reward_cell(), 0);
}

#[test]
fn filling_the_board_parks_the_reward_on_the_sentinel() {
    // 3x3 board: grow on every tick until the snake fills all nine cells
    let mut rng = scripted(&[5, 8, 7, 6, 3, 4]);
    let mut w = World::from(3, 2, &mut rng);
    assert_eq!(w.snake_cells(), vec![2, 0, 1]);
    assert_eq!(w.reward_cell(), 5);

    w.change_snake_dir(Direction::Down);
    w.step(&mut rng); // eats 5
    assert_eq!(w.snake_cells(), vec![5, 2, 0, 0]);
    assert_eq!(w.reward_cell(), 8);

    w.step(&mut rng); // eats 8
    assert_eq!(w.snake_cells(), vec![8, 5, 2, 0, 2]);
    assert_eq!(w.reward_cell(), 7);

    w.change_snake_dir(Direction::Left);
    w.step(&mut rng); // eats 7
    assert_eq!(w.snake_cells(), vec![7, 8, 5, 2, 0, 5]);
    assert_eq!(w.reward_cell(), 6);

    w.step(&mut rng); // eats 6
    assert_eq!(w.snake_cells(), vec![6, 7, 8, 5, 2, 0, 8]);
    assert_eq!(w.reward_cell(), 3);

    w.change_snake_dir(Direction::Up);
    w.step(&mut rng); // eats 3
    assert_eq!(w.snake_cells(), vec![3, 6, 7, 8, 5, 2, 0, 7]);
    assert_eq!(w.reward_cell(), 4);

    w.change_snake_dir(Direction::Right);
    w.step(&mut rng); // eats 4: the snake now fills the board
    assert_eq!(w.snake_length(), 9);
    // the win state: no reward is placeable, the sentinel is the board size
    assert_eq!(w.reward_cell(), 9);

    // further steps keep the snake moving without growing
    w.step(&mut rng);
    assert_eq!(w.snake_length(), 9);
    assert_eq!(w.snake_head_idx(), 5);
    assert_eq!(w.reward_cell(), 9);
}
