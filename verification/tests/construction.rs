use snake_engine::{Config, ConfigError, Direction, MeatPositionTuple, SnakeCell, SnakeEngine};

#[test]
fn new_builds_the_standard_layout() {
    let engine = SnakeEngine::new();
    assert_eq!(engine.height(), 50);
    assert_eq!(engine.width(), 50);
    assert_eq!(engine.cells().len(), 2500);
    assert_eq!(engine.score(), 0);
    assert!(!engine.game_over());
    assert_eq!(
        engine.snake().as_slice(),
        &[SnakeCell { position: (26, 25), direction: None, turn: None }]
    );
}

#[test]
fn new_flags_only_the_head_cell() {
    let engine = SnakeEngine::new();
    for (index, flag) in engine.cells().iter().enumerate() {
        let expected: u32 = if index == 1325 { 1 } else { 0 };
        assert_eq!(*flag, expected, "cell {}", index);
    }
}

#[test]
fn new_has_no_food_and_reports_the_sentinel() {
    let engine = SnakeEngine::new();
    assert_eq!(engine.meat_position(), MeatPositionTuple(0, 0));
}

#[test]
fn new_is_deterministic() {
    let first = SnakeEngine::new();
    let second = SnakeEngine::new();
    assert_eq!(first.cells(), second.cells());
    assert_eq!(first.snake(), second.snake());
    assert_eq!(first.score(), second.score());
    assert_eq!(first.meat_position(), second.meat_position());
    assert_eq!(first.game_over(), second.game_over());
}

#[test]
fn with_config_is_deterministic() {
    let config = Config { grid_size: (7, 9), head: (3, 8) };
    let first = SnakeEngine::with_config(config).unwrap();
    let second = SnakeEngine::with_config(config).unwrap();
    assert_eq!(first.height(), second.height());
    assert_eq!(first.width(), second.width());
    assert_eq!(first.cells(), second.cells());
    assert_eq!(first.snake(), second.snake());
    assert_eq!(first.score(), second.score());
}

#[test]
fn standard_config_matches_new() {
    let config = Config::standard();
    assert_eq!(config.grid_size, (50, 50));
    assert_eq!(config.head, (26, 25));
    let built = SnakeEngine::with_config(config).unwrap();
    let fresh = SnakeEngine::new();
    assert_eq!(built.height(), fresh.height());
    assert_eq!(built.width(), fresh.width());
    assert_eq!(built.cells(), fresh.cells());
    assert_eq!(built.snake(), fresh.snake());
}

#[test]
fn with_config_places_the_head_row_major() {
    let engine = SnakeEngine::with_config(Config { grid_size: (3, 4), head: (2, 1) }).unwrap();
    assert_eq!(engine.height(), 3);
    assert_eq!(engine.width(), 4);
    assert_eq!(engine.cells().as_slice(), &[0, 0, 0, 0, 0, 0, 0, 0, 0, 1, 0, 0]);
    assert_eq!(
        engine.snake().as_slice(),
        &[SnakeCell { position: (2, 1), direction: None, turn: None }]
    );
    assert_eq!(engine.score(), 0);
    assert!(!engine.game_over());
}

#[test]
fn with_config_accepts_a_single_cell_grid() {
    let engine = SnakeEngine::with_config(Config { grid_size: (1, 1), head: (0, 0) }).unwrap();
    assert_eq!(engine.cells().as_slice(), &[1]);
}

#[test]
fn with_config_rejects_a_grid_without_rows() {
    let result = SnakeEngine::with_config(Config { grid_size: (0, 5), head: (0, 0) });
    assert_eq!(result.err(), Some(ConfigError::EmptyGrid));
}

#[test]
fn with_config_rejects_a_grid_without_columns() {
    let result = SnakeEngine::with_config(Config { grid_size: (5, 0), head: (0, 0) });
    assert_eq!(result.err(), Some(ConfigError::EmptyGrid));
}

#[test]
fn with_config_reports_an_empty_grid_before_the_head() {
    let result = SnakeEngine::with_config(Config { grid_size: (0, 0), head: (5, 5) });
    assert_eq!(result.err(), Some(ConfigError::EmptyGrid));
}

#[test]
fn with_config_rejects_a_grid_too_large_to_index() {
    let result = SnakeEngine::with_config(Config { grid_size: (65536, 65536), head: (0, 0) });
    assert_eq!(result.err(), Some(ConfigError::GridTooLarge));
    let result = SnakeEngine::with_config(Config { grid_size: (u32::MAX, 2), head: (0, 0) });
    assert_eq!(result.err(), Some(ConfigError::GridTooLarge));
}

#[test]
fn with_config_rejects_a_head_below_the_grid() {
    let result = SnakeEngine::with_config(Config { grid_size: (3, 3), head: (3, 0) });
    assert_eq!(result.err(), Some(ConfigError::HeadOutOfBounds));
}

#[test]
fn with_config_rejects_a_head_right_of_the_grid() {
    let result = SnakeEngine::with_config(Config { grid_size: (3, 3), head: (0, 3) });
    assert_eq!(result.err(), Some(ConfigError::HeadOutOfBounds));
}

#[test]
fn get_index_is_row_major() {
    let engine = SnakeEngine::new();
    assert_eq!(engine.get_index(0, 0).ok(), Some(0));
    assert_eq!(engine.get_index(26, 25).ok(), Some(1325));
    assert_eq!(engine.get_index(1, 0).ok(), Some(50));
    assert_eq!(engine.get_index(49, 49).ok(), Some(2499));
}

#[test]
fn get_index_multiplies_by_the_width() {
    let engine = SnakeEngine::with_config(Config { grid_size: (3, 4), head: (0, 0) }).unwrap();
    assert_eq!(engine.get_index(2, 1).ok(), Some(9));
    assert_eq!(engine.get_index(2, 3).ok(), Some(11));
}

#[test]
fn get_index_rejects_coordinates_off_the_grid() {
    let engine = SnakeEngine::with_config(Config { grid_size: (3, 4), head: (0, 0) }).unwrap();
    assert!(engine.get_index(3, 0).is_err());
    assert!(engine.get_index(0, 4).is_err());
    assert!(engine.get_index(3, 4).is_err());
    assert!(engine.get_index(u32::MAX, u32::MAX).is_err());
    assert!(engine.get_index(4, 0).is_err());
}

#[test]
fn out_of_bounds_error_has_its_message() {
    let engine = SnakeEngine::new();
    let error = engine.get_index(50, 0).unwrap_err();
    assert_eq!(error.message(), "Out of bounds");
}

#[test]
fn accessors_repeat_their_values() {
    let mut engine = SnakeEngine::new();
    engine.tick(Direction::Right, 1326).unwrap();
    engine.tick(Direction::Right, 0).unwrap();
    engine.tick(Direction::Down, 17).unwrap();
    let cells = engine.cells().clone();
    let snake = engine.snake().clone();
    let score = engine.score();
    let meat = engine.meat_position();
    for _ in 0..3 {
        assert_eq!(engine.cells(), &cells);
        assert_eq!(engine.snake(), &snake);
        assert_eq!(engine.score(), score);
        assert_eq!(engine.meat_position(), meat);
        assert_eq!(engine.height(), 50);
        assert_eq!(engine.width(), 50);
        assert!(!engine.game_over());
    }
}
