use crossword_server::models::api_models::{Cell, Clue, ClueId, CrosswordDto, Direction};
use crossword_server::models::guardian::{
    GuardianCreator, GuardianCrossword, GuardianDimensions, GuardianDirection, GuardianEntry,
    GuardianPosition,
};
use crossword_server::services::crossword_service::{
    can_convert, convert_guardian_crossword, entry_is_placeable, get_cell,
    guardian_to_crossword_dto, guardian_to_dto_direction, to_interim_clue, InterimClue,
};

fn entry(
    number: i64,
    direction: GuardianDirection,
    x: i64,
    y: i64,
    length: i64,
    solution: Option<&str>,
) -> GuardianEntry {
    GuardianEntry {
        number,
        clue: format!("clue {}", number),
        direction,
        length,
        position: GuardianPosition { x, y },
        solution: solution.map(|s| s.to_string()),
    }
}

fn crossword(cols: i64, rows: i64, entries: Vec<GuardianEntry>) -> GuardianCrossword {
    GuardianCrossword {
        number: 1234,
        crossword_type: "quick".to_string(),
        date: 1431648000000,
        dimensions: GuardianDimensions { cols, rows },
        entries,
        creator: Some(GuardianCreator { name: "Araucaria".to_string() }),
    }
}

fn white(number: Option<i64>, letter: &str) -> Cell {
    Cell::White { number, letter: letter.to_string() }
}

fn clue_id(number: i64, direction: Direction, solution: Option<&str>) -> ClueId {
    ClueId { number, direction, solution: solution.map(|s| s.to_string()) }
}

#[test]
fn direction_is_translated() {
    assert_eq!(guardian_to_dto_direction(GuardianDirection::Across), Direction::Across);
    assert_eq!(guardian_to_dto_direction(GuardianDirection::Down), Direction::Down);
}

#[test]
fn across_entry_lists_later_squares_then_the_first() {
    let squares = to_interim_clue(entry(3, GuardianDirection::Across, 1, 2, 3, Some("CAT")), 5);
    let id = clue_id(3, Direction::Across, Some("CAT"));
    let expected: Vec<(i64, InterimClue)> = vec![
        (12, (id.clone(), None, "A".to_string())),
        (13, (id.clone(), None, "T".to_string())),
        (11, (id, Some(3), "C".to_string())),
    ];
    assert_eq!(squares, expected);
}

#[test]
fn down_entry_steps_by_the_number_of_columns() {
    let squares = to_interim_clue(entry(7, GuardianDirection::Down, 2, 0, 3, None), 4);
    let id = clue_id(7, Direction::Down, None);
    let expected: Vec<(i64, InterimClue)> = vec![
        (6, (id.clone(), None, String::new())),
        (10, (id.clone(), None, String::new())),
        (2, (id, Some(7), String::new())),
    ];
    assert_eq!(squares, expected);
}

#[test]
fn entry_without_length_still_has_its_first_square() {
    let squares = to_interim_clue(entry(1, GuardianDirection::Across, 0, 0, 0, Some("A")), 3);
    assert_eq!(squares, vec![(0, (clue_id(1, Direction::Across, Some("A")), Some(1), "A".to_string()))]);
    let negative = to_interim_clue(entry(1, GuardianDirection::Down, 1, 1, -4, None), 3);
    assert_eq!(negative, vec![(4, (clue_id(1, Direction::Down, None), Some(1), String::new()))]);
}

#[test]
fn letters_are_counted_in_characters() {
    let squares = to_interim_clue(entry(2, GuardianDirection::Across, 0, 0, 2, Some("ÉB")), 2);
    assert_eq!(squares[0].1 .2, "B");
    assert_eq!(squares[1].1 .2, "É");
}

#[test]
fn square_without_entries_is_black() {
    assert_eq!(get_cell(None), Cell::Black);
    let none: Vec<InterimClue> = Vec::new();
    assert_eq!(get_cell(Some(&none)), Cell::Black);
}

#[test]
fn square_takes_the_first_letter_and_the_first_number_found() {
    let id = clue_id(4, Direction::Across, None);
    let numbered_first: Vec<InterimClue> =
        vec![(id.clone(), Some(4), "A".to_string()), (id.clone(), Some(9), "B".to_string())];
    assert_eq!(get_cell(Some(&numbered_first)), white(Some(4), "A"));
    let numbered_second: Vec<InterimClue> =
        vec![(id.clone(), None, "A".to_string()), (id.clone(), Some(9), "B".to_string())];
    assert_eq!(get_cell(Some(&numbered_second)), white(Some(9), "A"));
    let numbered_third: Vec<InterimClue> = vec![
        (id.clone(), None, "A".to_string()),
        (id.clone(), None, "B".to_string()),
        (id.clone(), Some(9), "C".to_string()),
    ];
    assert_eq!(get_cell(Some(&numbered_third)), white(None, "A"));
    let single: Vec<InterimClue> = vec![(id, None, "Z".to_string())];
    assert_eq!(get_cell(Some(&single)), white(None, "Z"));
}

#[test]
fn crossword_is_converted_to_grid_and_clues() {
    let dto = guardian_to_crossword_dto(crossword(
        3,
        2,
        vec![
            entry(1, GuardianDirection::Across, 0, 0, 3, Some("CAT")),
            entry(1, GuardianDirection::Down, 0, 0, 2, Some("CO")),
            entry(2, GuardianDirection::Down, 2, 0, 2, Some("TO")),
        ],
    ));
    let expected = CrosswordDto {
        number_of_columns: 3,
        number_of_rows: 2,
        cells: vec![
            white(Some(1), "C"),
            white(None, "A"),
            white(Some(2), "T"),
            white(None, "O"),
            Cell::Black,
            white(None, "O"),
        ],
        clues: vec![
            Clue {
                number: 1,
                text: "clue 1".to_string(),
                direction: "down".to_string(),
                length: vec![2],
                solution: Some("CO".to_string()),
            },
            Clue {
                number: 2,
                text: "clue 2".to_string(),
                direction: "down".to_string(),
                length: vec![2],
                solution: Some("TO".to_string()),
            },
            Clue {
                number: 1,
                text: "clue 1".to_string(),
                direction: "across".to_string(),
                length: vec![3],
                solution: Some("CAT".to_string()),
            },
        ],
        series: "quick".to_string(),
        series_no: "1234".to_string(),
        date: "15 May 2015".to_string(),
        setter: "Araucaria".to_string(),
    };
    assert_eq!(dto, expected);
}

#[test]
fn later_entry_supplies_the_number_of_a_shared_square() {
    let dto = guardian_to_crossword_dto(crossword(
        2,
        2,
        vec![
            entry(1, GuardianDirection::Across, 0, 0, 2, Some("AB")),
            entry(2, GuardianDirection::Down, 1, 0, 2, Some("BC")),
        ],
    ));
    assert_eq!(
        dto.cells,
        vec![white(Some(1), "A"), white(Some(2), "B"), Cell::Black, white(None, "C")]
    );
}

#[test]
fn squares_outside_the_grid_are_left_out() {
    let dto = guardian_to_crossword_dto(crossword(
        2,
        1,
        vec![entry(1, GuardianDirection::Across, 0, 0, 4, None)],
    ));
    assert_eq!(dto.cells, vec![white(Some(1), ""), white(None, "")]);
}

#[test]
fn crossword_without_setter_or_squares() {
    let mut plain = crossword(0, 5, Vec::new());
    plain.creator = None;
    plain.number = -7;
    let dto = guardian_to_crossword_dto(plain);
    assert_eq!(dto.cells, Vec::<Cell>::new());
    assert_eq!(dto.clues, Vec::<Clue>::new());
    assert_eq!(dto.setter, "");
    assert_eq!(dto.series_no, "-7");
    let negative = guardian_to_crossword_dto(crossword(-2, 3, Vec::new()));
    assert_eq!(negative.cells, Vec::<Cell>::new());
    assert_eq!(negative.number_of_columns, -2);
}

#[test]
fn entry_with_too_short_a_solution_cannot_be_placed() {
    assert!(entry_is_placeable(&entry(1, GuardianDirection::Across, 0, 0, 3, Some("CAT")), 5));
    assert!(!entry_is_placeable(&entry(1, GuardianDirection::Across, 0, 0, 3, Some("CA")), 5));
    assert!(!entry_is_placeable(&entry(1, GuardianDirection::Across, 0, 0, 0, Some("")), 5));
    assert!(entry_is_placeable(&entry(1, GuardianDirection::Across, 0, 0, 0, Some("A")), 5));
    assert!(entry_is_placeable(&entry(1, GuardianDirection::Across, 0, 0, 3, None), 5));
}

#[test]
fn entry_whose_indices_overflow_cannot_be_placed() {
    assert!(!entry_is_placeable(&entry(1, GuardianDirection::Across, 0, i64::MAX, 1, None), 2));
    assert!(!entry_is_placeable(&entry(1, GuardianDirection::Across, i64::MAX, 1, 1, None), 1));
    assert!(!entry_is_placeable(&entry(1, GuardianDirection::Across, i64::MAX, 0, 2, None), 1));
    assert!(entry_is_placeable(&entry(1, GuardianDirection::Across, i64::MAX, 0, 1, None), 1));
    assert!(!entry_is_placeable(&entry(1, GuardianDirection::Down, 0, 0, 3, None), i64::MAX));
    assert!(entry_is_placeable(&entry(1, GuardianDirection::Down, 0, 0, 2, None), i64::MAX));
}

#[test]
fn unconvertible_crosswords_are_recognised() {
    let good = crossword(3, 2, vec![entry(1, GuardianDirection::Across, 0, 0, 3, Some("CAT"))]);
    assert!(can_convert(&good));
    let short = crossword(3, 2, vec![entry(1, GuardianDirection::Across, 0, 0, 3, Some("CA"))]);
    assert!(!can_convert(&short));
    assert_eq!(convert_guardian_crossword(short), None);
    let huge = crossword(i64::MAX, 2, Vec::new());
    assert!(!can_convert(&huge));
    let mut undated = crossword(3, 2, Vec::new());
    undated.date = i64::MAX;
    assert!(!can_convert(&undated));
    assert_eq!(convert_guardian_crossword(undated), None);
    let converted = convert_guardian_crossword(good.clone()).expect("the crossword converts");
    assert_eq!(converted, guardian_to_crossword_dto(good));
}
