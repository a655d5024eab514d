//! A crossword as its publisher describes it: the grid's dimensions and the
//! list of entries, each an answer with its clue and its place in the grid.

use vstd::prelude::*;
use crate::models::api_models::opt_text;

verus! {

/// The direction of an entry.
#[derive(PartialEq, Eq, Structural, Debug, Clone, Copy)]
pub enum GuardianDirection {
    Across,
    Down,
}

/// The square in which an entry starts: column `x`, row `y`, counted from 0.
#[derive(PartialEq, Eq, Structural, Debug, Clone, Copy)]
pub struct GuardianPosition {
    pub x: i64,
    pub y: i64,
}

/// The size of the grid.
#[derive(PartialEq, Eq, Structural, Debug, Clone, Copy)]
pub struct GuardianDimensions {
    pub cols: i64,
    pub rows: i64,
}

/// The setter of a crossword.
#[derive(Debug, Clone, PartialEq)]
pub struct GuardianCreator {
    pub name: String,
}

/// One answer of the crossword.
#[derive(Debug, Clone, PartialEq)]
pub struct GuardianEntry {
    pub number: i64,
    pub clue: String,
    pub direction: GuardianDirection,
    pub length: i64,
    pub position: GuardianPosition,
    pub solution: Option<String>,
}

/// A published crossword.
#[derive(Debug, Clone, PartialEq)]
pub struct GuardianCrossword {
    pub number: i64,
    pub crossword_type: String,
    /// Publication time in milliseconds since the Unix epoch.
    pub date: i64,
    pub dimensions: GuardianDimensions,
    pub entries: Vec<GuardianEntry>,
    pub creator: Option<GuardianCreator>,
}

/// The mathematical value of a [`GuardianEntry`].
pub struct EntryView {
    pub number: i64,
    pub clue: Seq<char>,
    pub direction: GuardianDirection,
    pub length: i64,
    pub position: GuardianPosition,
    pub solution: Option<Seq<char>>,
}

/// The mathematical value of a [`GuardianCrossword`].
pub struct GuardianCrosswordView {
    pub number: i64,
    pub crossword_type: Seq<char>,
    pub date: i64,
    pub dimensions: GuardianDimensions,
    pub entries: Seq<EntryView>,
    pub creator: Option<Seq<char>>,
}

impl View for GuardianEntry {
    type V = EntryView;

    open spec fn view(&self) -> EntryView {
        EntryView {
            number: self.number,
            clue: self.clue@,
            direction: self.direction,
            length: self.length,
            position: self.position,
            solution: opt_text(self.solution),
        }
    }
}

impl DeepView for GuardianEntry {
    type V = EntryView;

    open spec fn deep_view(&self) -> EntryView {
        self@
    }
}

impl View for GuardianCrossword {
    type V = GuardianCrosswordView;

    open spec fn view(&self) -> GuardianCrosswordView {
        GuardianCrosswordView {
            number: self.number,
            crossword_type: self.crossword_type@,
            date: self.date,
            dimensions: self.dimensions,
            entries: self.entries.deep_view(),
            creator: match self.creator {
                Some(c) => Some(c.name@),
                None => None,
            },
        }
    }
}

} // verus!
