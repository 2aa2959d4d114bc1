use tictactoe::board::{Board, Cell, CellReference, GameError};
use tictactoe::player::PlayerId;

fn format_occupant_marker(cell: &Cell) -> String {
    cell.get_marker().unwrap_or("-".into())
}

fn format_board(board: &Board) -> String {
    let markers: Vec<String> = board.cells().iter().map(|c| format_occupant_marker(c)).collect();
    markers.join(" ")
}

#[test]
fn returns_empty_cells() {
    let player_one = PlayerId::new("X".to_string());
    let player_two = PlayerId::new("O".to_string());
    let board = Board::with_board(&player_one, &player_two, "\
            X - X \
            O O - \
            - - - \
        ");

    assert_eq!(board.empty_cells(), vec![
        CellReference::new(1),
        CellReference::new(5),
        CellReference::new(6),
        CellReference::new(7),
        CellReference::new(8),
    ]);
}

#[test]
fn returns_the_occupants_for_all_winnable_segments() {
    let player_one = PlayerId::new("X".to_string());
    let player_two = PlayerId::new("O".to_string());
    let board = Board::with_board(&player_one, &player_two, "\
            X O X \
            X - O \
            X O O \
        ");

    let markers: Vec<Vec<String>> = board.segments().iter()
        .map(|s| {
            s.iter()
                .map(|c| format_occupant_marker(c))
                .collect()
        })
        .collect();
    assert_eq!(markers, vec![
        vec!["X", "O", "X"],
        vec!["X", "X", "X"],
        vec!["X", "-", "O"],
        vec!["O", "-", "O"],
        vec!["X", "O", "O"],
        vec!["X", "O", "O"],
        vec!["X", "-", "O"],
        vec!["X", "-", "X"],
    ]);
}

#[test]
fn makes_a_move() {
    let player_one = PlayerId::new("X".to_string());
    let player_two = PlayerId::new("O".to_string());
    let board = Board::with_board(&player_one, &player_two, "\
            X O X \
            X - O \
            X O O \
        ");
    let empty_cell = board.empty_cells()[0];
    let new_board = board.occupy_cell(player_one.clone(), &empty_cell).unwrap();

    assert_eq!(format_board(&new_board), "\
            X O X \
            X X O \
            X O O\
        ");
    // does not modify existing board
    assert_eq!(format_board(&board), "\
            X O X \
            X - O \
            X O O\
        ");
}

#[test]
fn enumerates_segments_in_the_fixed_order() {
    let board = Board::empty_board();
    let segments = board.segments();
    assert_eq!(segments.len(), 8);
    let indices: Vec<Vec<usize>> = segments.iter()
        .map(|s| s.iter().map(|c| c.get_reference().index()).collect())
        .collect();
    assert_eq!(indices, vec![
        vec![0, 1, 2],
        vec![0, 3, 6],
        vec![3, 4, 5],
        vec![1, 4, 7],
        vec![6, 7, 8],
        vec![2, 5, 8],
        vec![0, 4, 8],
        vec![2, 4, 6],
    ]);
}

#[test]
fn empty_board_has_nine_empty_cells() {
    let board = Board::empty_board();
    let empties: Vec<usize> = board.empty_cells().iter().map(|r| r.index()).collect();
    assert_eq!(empties, vec![0, 1, 2, 3, 4, 5, 6, 7, 8]);
    for cell in board.cells() {
        assert_eq!(cell.get_marker(), None);
        assert!(cell.get_occupant().is_none());
    }
}

#[test]
fn occupying_an_empty_cell_changes_only_that_cell() {
    let player_one = PlayerId::new("X".to_string());
    let board = Board::empty_board();
    let reference = board.empty_cells()[4];
    let new_board = board.occupy_cell(player_one, &reference).unwrap();
    assert_eq!(format_board(&new_board), "- - - - X - - - -");
    assert_eq!(format_board(&board), "- - - - - - - - -");
    assert_eq!(new_board.cells()[4].get_occupant().unwrap().get_marker(), "X");
}

#[test]
fn rejects_an_out_of_range_move() {
    let player_one = PlayerId::new("X".to_string());
    let board = Board::empty_board();
    let result = board.occupy_cell(player_one, &CellReference::new(9));
    assert_eq!(result.unwrap_err(), GameError::IndexOutOfRange(9));
}

#[test]
fn rejects_a_move_to_an_occupied_cell() {
    let player_one = PlayerId::new("X".to_string());
    let player_two = PlayerId::new("O".to_string());
    let board = Board::empty_board();
    let first = board.occupy_cell(player_one, &CellReference::new(4)).unwrap();
    let result = first.occupy_cell(player_two, &CellReference::new(4));
    assert_eq!(result.unwrap_err(), GameError::AlreadyOccupied(4));
}

#[test]
fn fills_missing_and_unknown_tokens_with_empty_cells() {
    let player_one = PlayerId::new("X".to_string());
    let player_two = PlayerId::new("O".to_string());
    let board = Board::with_board(&player_one, &player_two, "X ? O");
    assert_eq!(format_board(&board), "X - O - - - - - -");
}

#[test]
fn splits_board_strings_on_any_whitespace() {
    let player_one = PlayerId::new("X".to_string());
    let player_two = PlayerId::new("O".to_string());
    let board = Board::with_board(&player_one, &player_two, "X O -\nO\tX -\n- - X");
    assert_eq!(format_board(&board), "X O - O X - - - X");
}

#[test]
fn cell_references_compare_by_index() {
    let reference = CellReference::new(7);
    assert_eq!(reference.index(), 7);
    assert_eq!(reference, CellReference::new(7));
    assert_ne!(reference, CellReference::new(6));
}
