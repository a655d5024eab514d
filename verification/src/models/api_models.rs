//! The values exchanged with clients: crossword listings, the rendered
//! crossword, cell edits and cursor positions.

use vstd::prelude::*;

verus! {

/// One crossword of a series, as listed in an overview.
#[derive(Default, Debug, Clone, PartialEq)]
pub struct CrosswordMetadata {
    pub id: String,
    pub series: String,
    pub series_no: i64,
    /// Publication time in milliseconds since the Unix epoch.
    pub date: i64,
}

/// A [`CrosswordMetadata`] together with its publication date in words.
#[derive(Default, Debug, Clone, PartialEq)]
pub struct CrosswordMetadataWithHumanDate {
    pub id: String,
    pub series: String,
    pub series_no: i64,
    pub date: i64,
    pub human_date: String,
}

/// A single cell edit: the letter `value` placed at column `x`, row `y`, and
/// the participant who placed it.
#[derive(Default, Debug, Clone, PartialEq)]
pub struct SolutionItemDto {
    pub x: i64,
    pub y: i64,
    pub value: String,
    pub modified_by: String,
}

/// A participant's cursor position, sent to the other members of a room.
#[derive(Default, Debug, Clone, PartialEq)]
pub struct CurrentCellDto {
    pub x: i64,
    pub y: i64,
    pub user: String,
}

/// A crossword in the form that clients render: the grid row by row and the
/// list of clues.
#[derive(Debug, Clone, PartialEq)]
pub struct CrosswordDto {
    pub number_of_columns: i64,
    pub number_of_rows: i64,
    pub cells: Vec<Cell>,
    pub clues: Vec<Clue>,
    pub series: String,
    pub series_no: String,
    pub date: String,
    pub setter: String,
}

/// Identifies the clue that an answer cell belongs to.
#[derive(Debug, Clone, PartialEq)]
pub struct ClueId {
    pub number: i64,
    pub direction: Direction,
    pub solution: Option<String>,
}

/// One clue of a crossword.
#[derive(Debug, Clone, PartialEq)]
pub struct Clue {
    pub number: i64,
    pub text: String,
    pub direction: String,
    pub length: Vec<i64>,
    pub solution: Option<String>,
}

/// The direction in which an answer runs.
#[derive(PartialEq, Eq, Structural, Debug, Clone, Copy)]
pub enum Direction {
    Across,
    Down,
}

/// One square of the grid.
#[derive(Debug, Clone, PartialEq)]
pub enum Cell {
    /// A blocked square.
    Black,
    /// An answer square, with the clue number printed in it, if any, and its
    /// letter (empty where the solution is not known).
    White { number: Option<i64>, letter: String },
}

/// The clues that run through one answer square.
#[derive(Debug, Clone, PartialEq)]
pub struct CellData {
    pub number: Option<i64>,
    pub clue_id: ClueId,
    pub clue_id_2: Option<ClueId>,
}

/// The mathematical value of a [`CrosswordMetadata`].
pub struct CrosswordMetadataView {
    pub id: Seq<char>,
    pub series: Seq<char>,
    pub series_no: i64,
    pub date: i64,
}

/// The mathematical value of a [`CrosswordMetadataWithHumanDate`].
pub struct CrosswordMetadataWithHumanDateView {
    pub id: Seq<char>,
    pub series: Seq<char>,
    pub series_no: i64,
    pub date: i64,
    pub human_date: Seq<char>,
}

/// The mathematical value of a [`SolutionItemDto`].
pub struct SolutionItem {
    pub x: i64,
    pub y: i64,
    pub value: Seq<char>,
    pub modified_by: Seq<char>,
}

/// The mathematical value of a [`CurrentCellDto`].
pub struct CurrentCellUpdate {
    pub x: i64,
    pub y: i64,
    pub user: Seq<char>,
}

/// The mathematical value of a [`ClueId`].
pub struct ClueIdView {
    pub number: i64,
    pub direction: Direction,
    pub solution: Option<Seq<char>>,
}

/// The mathematical value of a [`Clue`].
pub struct ClueView {
    pub number: i64,
    pub text: Seq<char>,
    pub direction: Seq<char>,
    pub length: Seq<i64>,
    pub solution: Option<Seq<char>>,
}

/// The mathematical value of a [`Cell`].
pub enum CellView {
    Black,
    White { number: Option<i64>, letter: Seq<char> },
}

/// The mathematical value of a [`CellData`].
pub struct CellDataView {
    pub number: Option<i64>,
    pub clue_id: ClueIdView,
    pub clue_id_2: Option<ClueIdView>,
}

/// The mathematical value of a [`CrosswordDto`].
pub struct CrosswordView {
    pub number_of_columns: i64,
    pub number_of_rows: i64,
    pub cells: Seq<CellView>,
    pub clues: Seq<ClueView>,
    pub series: Seq<char>,
    pub series_no: Seq<char>,
    pub date: Seq<char>,
    pub setter: Seq<char>,
}

/// The characters of an optional string.
pub open spec fn opt_text(s: Option<String>) -> Option<Seq<char>> {
    match s {
        Some(t) => Some(t@),
        None => None,
    }
}

impl View for CrosswordMetadata {
    type V = CrosswordMetadataView;

    open spec fn view(&self) -> CrosswordMetadataView {
        CrosswordMetadataView {
            id: self.id@,
            series: self.series@,
            series_no: self.series_no,
            date: self.date,
        }
    }
}

impl DeepView for CrosswordMetadata {
    type V = CrosswordMetadataView;

    open spec fn deep_view(&self) -> CrosswordMetadataView {
        self@
    }
}

impl View for CrosswordMetadataWithHumanDate {
    type V = CrosswordMetadataWithHumanDateView;

    open spec fn view(&self) -> CrosswordMetadataWithHumanDateView {
        CrosswordMetadataWithHumanDateView {
            id: self.id@,
            series: self.series@,
            series_no: self.series_no,
            date: self.date,
            human_date: self.human_date@,
        }
    }
}

impl DeepView for CrosswordMetadataWithHumanDate {
    type V = CrosswordMetadataWithHumanDateView;

    open spec fn deep_view(&self) -> CrosswordMetadataWithHumanDateView {
        self@
    }
}

impl View for SolutionItemDto {
    type V = SolutionItem;

    open spec fn view(&self) -> SolutionItem {
        SolutionItem { x: self.x, y: self.y, value: self.value@, modified_by: self.modified_by@ }
    }
}

impl DeepView for SolutionItemDto {
    type V = SolutionItem;

    open spec fn deep_view(&self) -> SolutionItem {
        self@
    }
}

impl View for CurrentCellDto {
    type V = CurrentCellUpdate;

    open spec fn view(&self) -> CurrentCellUpdate {
        CurrentCellUpdate { x: self.x, y: self.y, user: self.user@ }
    }
}

impl DeepView for CurrentCellDto {
    type V = CurrentCellUpdate;

    open spec fn deep_view(&self) -> CurrentCellUpdate {
        self@
    }
}

impl View for ClueId {
    type V = ClueIdView;

    open spec fn view(&self) -> ClueIdView {
        ClueIdView {
            number: self.number,
            direction: self.direction,
            solution: opt_text(self.solution),
        }
    }
}

impl DeepView for ClueId {
    type V = ClueIdView;

    open spec fn deep_view(&self) -> ClueIdView {
        self@
    }
}

impl View for Clue {
    type V = ClueView;

    open spec fn view(&self) -> ClueView {
        ClueView {
            number: self.number,
            text: self.text@,
            direction: self.direction@,
            length: self.length@,
            solution: opt_text(self.solution),
        }
    }
}

impl DeepView for Clue {
    type V = ClueView;

    open spec fn deep_view(&self) -> ClueView {
        self@
    }
}

impl View for Cell {
    type V = CellView;

    open spec fn view(&self) -> CellView {
        match self {
            Cell::Black => CellView::Black,
            Cell::White { number, letter } => CellView::White { number: *number, letter: letter@ },
        }
    }
}

impl DeepView for Cell {
    type V = CellView;

    open spec fn deep_view(&self) -> CellView {
        self@
    }
}

impl View for CellData {
    type V = CellDataView;

    open spec fn view(&self) -> CellDataView {
        CellDataView {
            number: self.number,
            clue_id: self.clue_id@,
            clue_id_2: match self.clue_id_2 {
                Some(c) => Some(c@),
                None => None,
            },
        }
    }
}

impl View for CrosswordDto {
    type V = CrosswordView;

    open spec fn view(&self) -> CrosswordView {
        CrosswordView {
            number_of_columns: self.number_of_columns,
            number_of_rows: self.number_of_rows,
            cells: self.cells.deep_view(),
            clues: self.clues.deep_view(),
            series: self.series@,
            series_no: self.series_no@,
            date: self.date@,
            setter: self.setter@,
        }
    }
}

} // verus!
