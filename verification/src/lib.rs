//! Real-time coordination for shared crossword solving, together with the
//! conversion of published crosswords into the grid and clue form that
//! clients render.

pub mod models;
pub mod services;
