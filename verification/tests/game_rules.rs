use pixel_life::game::{CursorDirection, Game};

fn game_with(width: u16, height: u16, alive: &[(u16, u16)]) -> Game {
    let mut game = Game::new(width, height, 1, 0, 0);
    for &(x, y) in alive {
        game.set_tile(true, x, y);
    }
    game
}

fn living(game: &Game) -> Vec<(u16, u16)> {
    let mut cells = Vec::new();
    for y in 0..game.height() {
        for x in 0..game.width() {
            if game.get_tile(x, y) {
                cells.push((x, y));
            }
        }
    }
    cells
}

#[test]
fn new_game_is_dead_and_records_its_settings() {
    let game = Game::new(7, 5, 3, 250, 1000);
    assert_eq!(game.width(), 7);
    assert_eq!(game.height(), 5);
    assert_eq!(game.tile_pixel_size(), 3);
    assert_eq!(game.update_interval(), 250);
    assert_eq!(game.last_update(), 1000);
    assert_eq!(game.get_current_grid().len(), 35);
    assert_eq!(game.get_next_grid().len(), 35);
    assert!(living(&game).is_empty());
    assert_eq!((game.cursor_x(), game.cursor_y()), (0, 0));
}

#[test]
fn grid_index_is_row_major() {
    let game = Game::new(7, 5, 1, 0, 0);
    assert_eq!(game.calc_grid_idx(0, 0), 0);
    assert_eq!(game.calc_grid_idx(6, 0), 6);
    assert_eq!(game.calc_grid_idx(0, 1), 7);
    assert_eq!(game.calc_grid_idx(3, 2), 17);
    assert_eq!(game.calc_grid_idx(6, 4), 34);
}

#[test]
fn set_tile_changes_one_cell() {
    let mut game = Game::new(4, 3, 1, 0, 0);
    game.set_tile(true, 2, 1);
    assert_eq!(living(&game), vec![(2, 1)]);
    assert!(game.get_current_grid()[6]);
    game.set_tile(false, 2, 1);
    assert!(living(&game).is_empty());
}

#[test]
fn blinker_alternates_with_period_two() {
    let mut game = game_with(5, 5, &[(1, 2), (2, 2), (3, 2)]);
    game.update(1);
    assert_eq!(living(&game), vec![(2, 1), (2, 2), (2, 3)]);
    game.update(2);
    assert_eq!(living(&game), vec![(1, 2), (2, 2), (3, 2)]);
}

#[test]
fn block_is_stable() {
    let mut game = game_with(4, 4, &[(1, 1), (2, 1), (1, 2), (2, 2)]);
    for now in 1..=10u64 {
        game.update(now);
        assert_eq!(living(&game), vec![(1, 1), (2, 1), (1, 2), (2, 2)]);
    }
}

#[test]
fn block_in_the_corner_is_stable() {
    let mut game = game_with(2, 2, &[(0, 0), (1, 0), (0, 1), (1, 1)]);
    game.update(1);
    assert_eq!(living(&game), vec![(0, 0), (1, 0), (0, 1), (1, 1)]);
}

#[test]
fn glider_travels_one_cell_in_four_generations() {
    let mut game = game_with(8, 8, &[(2, 1), (3, 2), (1, 3), (2, 3), (3, 3)]);
    game.update(1);
    assert_eq!(living(&game), vec![(1, 2), (3, 2), (2, 3), (3, 3), (2, 4)]);
    game.update(2);
    assert_eq!(living(&game), vec![(3, 2), (1, 3), (3, 3), (2, 4), (3, 4)]);
    game.update(3);
    assert_eq!(living(&game), vec![(2, 2), (3, 3), (4, 3), (2, 4), (3, 4)]);
    game.update(4);
    assert_eq!(living(&game), vec![(3, 2), (4, 3), (2, 4), (3, 4), (4, 4)]);
}

#[test]
fn corner_counts_only_its_three_neighbours() {
    let mut game = Game::new(4, 3, 1, 0, 0);
    for y in 0..3 {
        for x in 0..4 {
            game.set_tile(true, x, y);
        }
    }
    assert_eq!(game.count_alive_neighbors(0, 0), 3);
    assert_eq!(game.count_alive_neighbors(3, 0), 3);
    assert_eq!(game.count_alive_neighbors(0, 2), 3);
    assert_eq!(game.count_alive_neighbors(3, 2), 3);
    assert_eq!(game.count_alive_neighbors(1, 0), 5);
    assert_eq!(game.count_alive_neighbors(0, 1), 5);
    assert_eq!(game.count_alive_neighbors(1, 1), 8);
}

#[test]
fn edges_do_not_wrap_around() {
    let game = game_with(4, 4, &[(3, 0), (3, 1), (0, 3), (1, 3), (3, 3)]);
    assert_eq!(game.count_alive_neighbors(0, 0), 0);
    assert_eq!(game.count_alive_neighbors(2, 0), 2);
    assert_eq!(game.count_alive_neighbors(0, 2), 2);
}

#[test]
fn a_cell_does_not_count_itself() {
    let game = game_with(3, 3, &[(1, 1)]);
    assert_eq!(game.count_alive_neighbors(1, 1), 0);
    assert_eq!(game.count_alive_neighbors(0, 0), 1);
}

#[test]
fn lonely_and_crowded_cells_die_and_three_neighbours_give_birth() {
    let mut game = game_with(3, 3, &[(1, 1)]);
    game.update(1);
    assert!(living(&game).is_empty());

    let mut game = game_with(3, 3, &[(0, 0), (1, 0), (2, 0), (0, 1), (1, 1)]);
    game.update(1);
    assert_eq!(living(&game), vec![(0, 0), (2, 0), (0, 1), (2, 1)]);
}

#[test]
fn update_keeps_the_old_generation_in_the_other_buffer() {
    let mut game = game_with(5, 5, &[(1, 2), (2, 2), (3, 2)]);
    let before = game.get_current_grid().clone();
    game.update(1);
    assert_eq!(game.get_next_grid(), &before);
    assert_eq!(game.last_update(), 1);
}

#[test]
fn update_waits_for_the_interval() {
    let mut game = Game::new(5, 5, 1, 100, 1000);
    game.set_tile(true, 1, 2);
    game.set_tile(true, 2, 2);
    game.set_tile(true, 3, 2);
    game.update(1099);
    assert_eq!(living(&game), vec![(1, 2), (2, 2), (3, 2)]);
    assert_eq!(game.last_update(), 1000);
    game.update(1100);
    assert_eq!(living(&game), vec![(2, 1), (2, 2), (2, 3)]);
    assert_eq!(game.last_update(), 1100);
    for now in [1100u64, 1101, 1150, 1199, 1120] {
        game.update(now);
        assert_eq!(living(&game), vec![(2, 1), (2, 2), (2, 3)]);
        assert_eq!(game.last_update(), 1100);
    }
    game.update(1200);
    assert_eq!(living(&game), vec![(1, 2), (2, 2), (3, 2)]);
}

#[test]
fn update_treats_a_clock_that_ran_backwards_as_no_time_passed() {
    let mut game = Game::new(3, 3, 1, 10, 500);
    game.set_tile(true, 1, 1);
    game.update(100);
    assert_eq!(living(&game), vec![(1, 1)]);
    assert_eq!(game.last_update(), 500);
}

#[test]
fn elapsed_since_start_saturates() {
    let game = Game::new(3, 3, 1, 10, 500);
    assert_eq!(game.elapsed_since_start(500), 0);
    assert_eq!(game.elapsed_since_start(1700), 1200);
    assert_eq!(game.elapsed_since_start(20), 0);
}

#[test]
fn toggle_cell_flips_without_touching_the_clock() {
    let mut game = Game::new(3, 3, 1, 100, 7);
    game.toggle_cell(2, 1);
    assert_eq!(living(&game), vec![(2, 1)]);
    game.toggle_cell(2, 1);
    assert!(living(&game).is_empty());
    assert_eq!(game.last_update(), 7);
}

#[test]
fn swap_grids_exchanges_the_buffers() {
    let mut game = game_with(3, 2, &[(1, 1)]);
    let current = game.get_current_grid().clone();
    let other = game.get_next_grid().clone();
    game.swap_grids();
    assert_eq!(game.get_current_grid(), &other);
    assert_eq!(game.get_next_grid(), &current);
    game.swap_grids();
    assert_eq!(game.get_current_grid(), &current);
}

#[test]
fn current_grid_can_be_changed_in_place() {
    let mut game = Game::new(3, 2, 1, 0, 0);
    game.get_current_grid_mut()[4] = true;
    assert_eq!(living(&game), vec![(1, 1)]);
}

#[test]
fn seed_with_certain_ratios_fills_or_clears_the_board() {
    let mut game = game_with(6, 4, &[(1, 1)]);
    game.seed(1, 1);
    assert_eq!(living(&game).len(), 24);
    game.seed(0, 1);
    assert!(living(&game).is_empty());
    game.seed(5, 5);
    assert_eq!(living(&game).len(), 24);
}

#[test]
fn seed_leaves_the_other_buffer_and_the_clock_alone() {
    let mut game = game_with(5, 5, &[(1, 2), (2, 2), (3, 2)]);
    game.update(3);
    let kept = game.get_next_grid().clone();
    game.seed(1, 2);
    assert_eq!(game.get_next_grid(), &kept);
    assert_eq!(game.last_update(), 3);
    assert_eq!(game.get_current_grid().len(), 25);
}

#[test]
fn generate_keeps_the_shape_of_the_game() {
    let mut game = Game::new(40, 30, 2, 50, 9);
    game.generate();
    assert_eq!(game.width(), 40);
    assert_eq!(game.height(), 30);
    assert_eq!(game.get_current_grid().len(), 1200);
    assert_eq!(game.last_update(), 9);
    assert!(living(&game).len() < 1200);
}

#[test]
fn cursor_moves_and_stops_at_the_border() {
    let mut game = Game::new(3, 2, 1, 0, 0);
    game.move_cursor(CursorDirection::Left);
    game.move_cursor(CursorDirection::Up);
    assert_eq!((game.cursor_x(), game.cursor_y()), (0, 0));
    game.move_cursor(CursorDirection::Right);
    game.move_cursor(CursorDirection::Right);
    game.move_cursor(CursorDirection::Right);
    assert_eq!((game.cursor_x(), game.cursor_y()), (2, 0));
    game.move_cursor(CursorDirection::Down);
    game.move_cursor(CursorDirection::Down);
    assert_eq!((game.cursor_x(), game.cursor_y()), (2, 1));
    game.move_cursor(CursorDirection::Up);
    game.move_cursor(CursorDirection::Left);
    assert_eq!((game.cursor_x(), game.cursor_y()), (1, 0));
}

#[test]
fn toggle_at_cursor_flips_the_cell_under_it() {
    let mut game = Game::new(3, 3, 1, 100, 5);
    game.move_cursor(CursorDirection::Right);
    game.move_cursor(CursorDirection::Down);
    game.toggle_at_cursor();
    assert_eq!(living(&game), vec![(1, 1)]);
    assert_eq!(game.last_update(), 5);
    game.toggle_at_cursor();
    assert!(living(&game).is_empty());
}
