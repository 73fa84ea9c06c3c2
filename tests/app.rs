use flow::app::{Action, App};
use flow::model::{Board, Card, Column};

fn card(id: &str, title: &str) -> Card {
    Card {
        id: id.to_string(),
        title: title.to_string(),
        description: "d".to_string(),
    }
}

fn board_two_cols() -> Board {
    Board {
        columns: vec![
            Column {
                id: "a".into(),
                title: "A".into(),
                cards: vec![card("1", "t1"), card("2", "t2")],
            },
            Column {
                id: "b".into(),
                title: "B".into(),
                cards: vec![],
            },
        ],
    }
}

#[test]
fn clamp_bounds_indices() {
    let mut app = App::new(board_two_cols());
    (app.col, app.row) = (9, 9);
    app.clamp();

    assert_eq!((app.col, app.row), (1, 0));
}

#[test]
fn focus_clamps_left_and_right() {
    let mut app = App::new(board_two_cols());

    app.focus(-1);
    assert_eq!(app.col, 0);

    app.focus(10);
    assert_eq!(app.col, 1);
}

#[test]
fn select_clamps_rows_and_handles_empty_column() {
    let mut app = App::new(board_two_cols());

    app.select(10);
    assert_eq!(app.row, 1);

    app.select(-10);
    assert_eq!(app.row, 0);

    (app.col, app.row) = (1, 9);
    app.select(1);
    assert_eq!(app.row, 0);
}

#[test]
fn move_right_moves_card_and_updates_focus_to_new_card() {
    let mut app = App::new(board_two_cols());

    let (id, dst) = app.optimistic_move(1).unwrap();

    assert_eq!(id, "1");
    assert_eq!(dst, "b");
    assert_eq!((app.col, app.row), (1, 0));
    assert_eq!(app.board.columns[1].cards.len(), 1);
    assert_eq!(app.board.columns[1].cards[0].id, "1");
    assert_eq!(app.board.columns[0].cards.len(), 1);
}

#[test]
fn move_out_of_bounds_is_none() {
    let mut app = App::new(board_two_cols());

    assert!(app.optimistic_move(-1).is_none());
    assert!(app.optimistic_move(10).is_none());
}

#[test]
fn move_with_empty_board_is_none_and_does_not_panic() {
    let mut app = App::new(Board { columns: vec![] });

    assert!(app.optimistic_move(1).is_none());
    assert_eq!((app.col, app.row), (0, 0));
}

#[test]
fn move_from_empty_column_is_none() {
    let mut app = App::new(board_two_cols());
    (app.col, app.row) = (1, 0);

    assert!(app.optimistic_move(-1).is_none());
}

#[test]
fn focus_first_non_empty_picks_first_column_with_cards() {
    let mut app = App::new(board_two_cols());

    app.board.columns[0].cards.clear();
    app.board.columns[1].cards.push(Card {
        id: "2".to_string(),
        title: "t2".to_string(),
        description: "d".to_string(),
    });
    app.focus_first_non_empty();

    assert_eq!((app.col, app.row), (1, 0));
}

#[test]
fn close_or_quit_closes_detail_first_then_quits() {
    let mut app = App::new(board_two_cols());

    app.detail_open = true;
    assert!(!app.apply(Action::CloseOrQuit));
    assert!(!app.detail_open);

    assert!(app.apply(Action::CloseOrQuit));
}

fn ids(col: &Column) -> Vec<String> {
    col.cards.iter().map(|c| c.id.clone()).collect()
}

#[test]
fn clamp_on_empty_board_gives_origin() {
    let mut app = App::new(Board { columns: vec![] });
    (app.col, app.row) = (4, 7);
    app.clamp();
    assert_eq!((app.col, app.row), (0, 0));
}

#[test]
fn clamp_keeps_a_valid_cursor() {
    let mut app = App::new(board_two_cols());
    (app.col, app.row) = (0, 1);
    app.clamp();
    assert_eq!((app.col, app.row), (0, 1));
}

#[test]
fn clamp_limits_row_to_last_card() {
    let mut app = App::new(board_two_cols());
    (app.col, app.row) = (0, 5);
    app.clamp();
    assert_eq!((app.col, app.row), (0, 1));
}

#[test]
fn focus_on_empty_board_resets_cursor() {
    let mut app = App::new(Board { columns: vec![] });
    (app.col, app.row) = (3, 3);
    app.focus(1);
    assert_eq!((app.col, app.row), (0, 0));
}

#[test]
fn focus_extremes_do_not_overflow() {
    let mut app = App::new(board_two_cols());
    app.focus(isize::MAX);
    assert_eq!(app.col, 1);
    app.focus(isize::MIN);
    assert_eq!((app.col, app.row), (0, 0));
}

#[test]
fn focus_clamps_row_into_new_column() {
    let mut app = App::new(board_two_cols());
    app.select(1);
    assert_eq!(app.row, 1);
    app.focus(1);
    assert_eq!((app.col, app.row), (1, 0));
}

#[test]
fn select_from_row_beyond_column_stays_in_range() {
    let mut app = App::new(board_two_cols());
    (app.col, app.row) = (0, 9);
    app.select(-1);
    assert_eq!(app.row, 1);
}

#[test]
fn move_scenario_first_card_right() {
    let mut app = App::new(board_two_cols());
    let moved = app.optimistic_move(1);
    assert_eq!(moved, Some(("1".to_string(), "b".to_string())));
    assert_eq!((app.col, app.row), (1, 0));
    assert_eq!(ids(&app.board.columns[0]), vec!["2"]);
    assert_eq!(ids(&app.board.columns[1]), vec!["1"]);
}

#[test]
fn move_scenario_from_empty_column_is_noop() {
    let board = Board {
        columns: vec![
            Column { id: "a".into(), title: "A".into(), cards: vec![] },
            Column { id: "b".into(), title: "B".into(), cards: vec![card("1", "t1")] },
        ],
    };
    let mut app = App::new(board);
    assert!(app.optimistic_move(1).is_none());
    assert_eq!((app.col, app.row), (0, 0));
    assert!(app.board.columns[0].cards.is_empty());
    assert_eq!(ids(&app.board.columns[1]), vec!["1"]);
}

#[test]
fn move_appends_to_end_of_destination() {
    let mut app = App::new(board_two_cols());
    (app.col, app.row) = (0, 1);
    assert_eq!(app.optimistic_move(1), Some(("2".to_string(), "b".to_string())));
    app.focus(-1);
    assert_eq!(app.optimistic_move(1), Some(("1".to_string(), "b".to_string())));
    assert_eq!(ids(&app.board.columns[1]), vec!["2", "1"]);
    assert_eq!((app.col, app.row), (1, 1));
    assert!(app.board.columns[0].cards.is_empty());
    assert_eq!(app.optimistic_move(-1), Some(("1".to_string(), "a".to_string())));
    assert_eq!((app.col, app.row), (0, 0));
    assert_eq!(ids(&app.board.columns[1]), vec!["2"]);
}

#[test]
fn move_clamps_a_stale_cursor_first() {
    let mut app = App::new(board_two_cols());
    (app.col, app.row) = (0, 7);
    assert_eq!(app.optimistic_move(1), Some(("2".to_string(), "b".to_string())));
    assert_eq!(ids(&app.board.columns[0]), vec!["1"]);
}

#[test]
fn apply_actions_on_view() {
    let mut app = App::new(board_two_cols());
    assert!(app.apply(Action::Quit));
    assert!(!app.apply(Action::ToggleDetail));
    assert!(app.detail_open);
    assert!(!app.apply(Action::SelectDown));
    assert_eq!(app.row, 1);
    assert!(!app.apply(Action::SelectUp));
    assert_eq!(app.row, 0);
    assert!(!app.apply(Action::FocusRight));
    assert_eq!(app.col, 1);
    assert!(!app.apply(Action::FocusLeft));
    assert_eq!(app.col, 0);
    assert!(!app.apply(Action::MoveRight));
    assert!(!app.apply(Action::Refresh));
    assert_eq!(app.board.columns[0].cards.len(), 2);
    assert!(app.banner.is_none());
}

#[test]
fn focus_first_non_empty_on_empty_columns_gives_origin() {
    let mut app = App::new(Board {
        columns: vec![Column { id: "a".into(), title: "A".into(), cards: vec![] }],
    });
    (app.col, app.row) = (0, 3);
    app.focus_first_non_empty();
    assert_eq!((app.col, app.row), (0, 0));
    assert_eq!(flow::app::first_non_empty_column(&app.board), None);
}
