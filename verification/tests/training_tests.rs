use alphazero::game::Game;
use alphazero::training::{
    label_game, record_game, IncompleteTrainingExample, PitResult, TrainingExample,
};

fn example(tag: u32) -> IncompleteTrainingExample<f64> {
    IncompleteTrainingExample {
        game: Game { my: tag, other: 0, cards: 0, table: 0 },
        improved_policy: vec![tag as f64; 3],
    }
}

#[test]
fn update_result_keeps_the_position_and_the_policy() {
    let labelled = example(4).update_result(-1.);
    assert_eq!(
        labelled,
        TrainingExample {
            game: Game { my: 4, other: 0, cards: 0, table: 0 },
            improved_policy: vec![4.; 3],
            result: -1.,
        }
    );
}

#[test]
fn label_game_gives_the_last_mover_the_win() {
    let mut training = vec![example(9).update_result(0.5)];
    label_game(&mut training, vec![example(1), example(2), example(3)], 1.);
    assert_eq!(training.len(), 4);
    assert_eq!(training[0], example(9).update_result(0.5));
    assert_eq!(training[1], example(3).update_result(1.));
    assert_eq!(training[2], example(2).update_result(-1.));
    assert_eq!(training[3], example(1).update_result(1.));
}

#[test]
fn label_game_of_no_positions_adds_nothing() {
    let mut training: Vec<TrainingExample<f64>> = Vec::new();
    label_game(&mut training, vec![], 1.);
    assert!(training.is_empty());
}

#[test]
fn record_game_counts_a_loss_for_the_side_to_move_at_the_end() {
    let mut result = PitResult { wins: 0, losses: 0 };
    record_game(&mut result, true);
    assert_eq!(result, PitResult { wins: 0, losses: 1 });
    record_game(&mut result, false);
    record_game(&mut result, false);
    assert_eq!(result, PitResult { wins: 2, losses: 1 });
    let mut full = PitResult { wins: u32::MAX - 1, losses: 0 };
    record_game(&mut full, false);
    assert_eq!(full, PitResult { wins: u32::MAX, losses: 0 });
}
