//! The record that the coordinator keeps of one live connection.

use vstd::prelude::*;
use crate::models::api_models::{SolutionItem, SolutionItemDto};
use crate::models::json::Json;
use crate::services::wire::{decode_frame, frame_of};
use crate::services::ws_server::{Connect, CurrentCell, Disconnect, Move};

verus! {

/// One live client connection: who is connected, to which room, and where
/// their cursor was last reported.
///
/// The room of a session is the pair of its `team` and its `crossword`;
/// neither changes while the session lives, nor do `id` and `user`.
#[derive(Debug, Clone, PartialEq)]
pub struct WsSession {
    /// Identifies the session among all live ones.
    pub id: u128,
    pub team: String,
    pub crossword: String,
    /// The participant's display name.
    pub user: String,
    /// The cursor position last reported, as column and row; `None` until
    /// the first report.
    pub current_cell: Option<(i64, i64)>,
}

/// The mathematical value of a [`WsSession`].
pub struct Session {
    pub id: u128,
    pub team: Seq<char>,
    pub crossword: Seq<char>,
    pub user: Seq<char>,
    pub current_cell: Option<(i64, i64)>,
}

impl View for WsSession {
    type V = Session;

    open spec fn view(&self) -> Session {
        Session {
            id: self.id,
            team: self.team@,
            crossword: self.crossword@,
            user: self.user@,
            current_cell: self.current_cell,
        }
    }
}

impl DeepView for WsSession {
    type V = Session;

    open spec fn deep_view(&self) -> Session {
        self@
    }
}

/// Draws an identifier for a new session.
///
/// Trusted: calls `uuid::Uuid::new_v4`, which makes a random identifier, and
/// hands out its 128 bits with `Uuid::as_u128`. Nothing is claimed of the
/// value.
#[verifier::external_body]
pub(crate) fn fresh_session_id() -> u128 {
    uuid::Uuid::new_v4().as_u128()
}

impl WsSession {
    /// A session for a participant who opens a connection to the room of
    /// `team_id` and `crossword_id`, under a freshly drawn identifier and
    /// with no cursor position yet.
    pub fn new(user_id: String, team_id: String, crossword_id: String) -> (session: WsSession)
        ensures
            session@.user == user_id@,
            session@.team == team_id@,
            session@.crossword == crossword_id@,
            session@.current_cell is None,
    {
        WsSession {
            id: fresh_session_id(),
            team: team_id,
            crossword: crossword_id,
            user: user_id,
            current_cell: None,
        }
    }

    /// A copy of the session.
    pub fn duplicate(&self) -> (copy: WsSession)
        ensures
            copy == *self,
    {
        WsSession {
            id: self.id,
            team: self.team.clone(),
            crossword: self.crossword.clone(),
            user: self.user.clone(),
            current_cell: self.current_cell,
        }
    }
}

/// What a client's frame says, once decoded.
#[derive(Debug, Clone, PartialEq)]
pub enum Inbound {
    /// A batch of cell edits.
    Moves(Vec<SolutionItemDto>),
    /// The client's cursor position.
    Cursor { x: i64, y: i64 },
}

/// The mathematical value of an [`Inbound`].
pub enum InboundView {
    Moves(Seq<SolutionItem>),
    Cursor { x: i64, y: i64 },
}

impl View for Inbound {
    type V = InboundView;

    open spec fn view(&self) -> InboundView {
        match self {
            Inbound::Moves(items) => InboundView::Moves(items.deep_view()),
            Inbound::Cursor { x, y } => InboundView::Cursor { x: *x, y: *y },
        }
    }
}

/// What a connection hands to the coordinator for a frame.
#[derive(Debug, Clone, PartialEq)]
pub enum Report {
    Move(Move),
    CurrentCell(CurrentCell),
}

/// The handler of one connection: it knows its session and whether it has
/// announced its end.
pub struct Connection {
    session: WsSession,
    closed: bool,
}

impl Connection {
    /// The session that the connection stands for.
    pub closed spec fn session(&self) -> Session {
        self.session@
    }

    /// Whether the connection has announced its end.
    pub closed spec fn is_closed(&self) -> bool {
        self.closed
    }

    /// Opens the handler of a connection that was addressed by team,
    /// crossword and user, in that order, and makes the command that
    /// registers its session.
    pub fn open(team_id: String, crossword_id: String, user_id: String) -> (r: (
        Connection,
        Connect,
    ))
        ensures
            !r.0.is_closed(),
            r.1.session@ == r.0.session(),
            r.0.session().team == team_id@,
            r.0.session().crossword == crossword_id@,
            r.0.session().user == user_id@,
            r.0.session().current_cell is None,
    {
        let session = WsSession::new(user_id, team_id, crossword_id);
        let connect = Connect { session: session.duplicate() };
        (Connection { session, closed: false }, connect)
    }

    /// The identifier of the connection's session.
    pub fn id(&self) -> (id: u128)
        ensures
            id == self.session().id,
    {
        self.session.id
    }

    /// Turns a decoded frame into the command for the coordinator, tagged
    /// with the session's identifier. A frame that could not be decoded,
    /// given as `None`, is dropped.
    pub fn forward(&self, frame: Option<Inbound>) -> (r: Option<Report>)
        ensures
            r == match frame {
                Some(Inbound::Moves(items)) => Some(
                    Report::Move(Move { solution_items: items, sender: self.session().id }),
                ),
                Some(Inbound::Cursor { x, y }) => Some(
                    Report::CurrentCell(CurrentCell { x, y, sender: self.session().id }),
                ),
                None => None,
            },
    {
        match frame {
            Some(Inbound::Moves(items)) => Some(
                Report::Move(Move { solution_items: items, sender: self.session.id }),
            ),
            Some(Inbound::Cursor { x, y }) => Some(
                Report::CurrentCell(CurrentCell { x, y, sender: self.session.id }),
            ),
            None => None,
        }
    }

    /// Handles a frame of the client: reads what the document says and
    /// makes the command for the coordinator, tagged with the session's
    /// identifier. A frame that is no JSON document, given as `None`, and a
    /// document that is neither a move nor a cursor position are dropped.
    pub fn on_frame(&self, document: Option<Json>) -> (r: Option<Report>)
        ensures
            match r {
                Some(Report::Move(m)) => {
                    &&& document matches Some(json)
                    &&& frame_of(json@) == Some(InboundView::Moves(m.solution_items.deep_view()))
                    &&& m.sender == self.session().id
                },
                Some(Report::CurrentCell(c)) => {
                    &&& document matches Some(json)
                    &&& frame_of(json@) == Some(InboundView::Cursor { x: c.x, y: c.y })
                    &&& c.sender == self.session().id
                },
                None => document matches Some(json) ==> frame_of(json@) is None,
            },
    {
        match document {
            Some(json) => self.forward(decode_frame(&json)),
            None => None,
        }
    }

    /// Ends the connection. The first call makes the command that removes
    /// the session; every later call makes nothing, so that the coordinator
    /// is told once.
    pub fn close(&mut self) -> (r: Option<Disconnect>)
        ensures
            final(self).is_closed(),
            final(self).session() == old(self).session(),
            r == if old(self).is_closed() {
                None
            } else {
                Some(Disconnect { id: old(self).session().id })
            },
    {
        if self.closed {
            None
        } else {
            self.closed = true;
            Some(Disconnect { id: self.session.id })
        }
    }
}

} // verus!
