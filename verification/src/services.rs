//! The session coordinator and the crossword conversion logic.

pub mod crossword_service;
pub mod listing;
pub mod room_laws;
pub mod util;
pub mod wire;
pub mod ws_server;
pub mod ws_session;
