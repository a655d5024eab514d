//! The coordinator: the one authority over the table of live sessions. It
//! partitions the sessions into rooms by team and crossword, and decides for
//! every command which sessions are sent what.
//!
//! The coordinator performs no input or output. Each operation returns the
//! messages to push; loading the stored solution and storing a move are done
//! by the caller between the two operations that frame them.

use std::collections::HashMap;
use vstd::prelude::*;
use vstd::std_specs::hash::{group_hash_axioms, spec_hash_map_iter};
use vstd::std_specs::iter::IteratorSpec;
use crate::models::api_models::{CurrentCellDto, CurrentCellUpdate, SolutionItem, SolutionItemDto};
use crate::services::ws_session::{Session, WsSession};

verus! {

/// A client has opened a connection.
#[derive(Debug, Clone, PartialEq)]
pub struct Connect {
    pub session: WsSession,
}

/// A connection was closed.
#[derive(Debug, Clone, Copy, PartialEq)]
pub struct Disconnect {
    pub id: u128,
}

/// A participant edited cells.
#[derive(Debug, Clone, PartialEq)]
pub struct Move {
    pub solution_items: Vec<SolutionItemDto>,
    /// The identifier of the sending session.
    pub sender: u128,
}

/// A participant moved their cursor.
#[derive(Debug, Clone, Copy, PartialEq)]
pub struct CurrentCell {
    pub x: i64,
    pub y: i64,
    /// The identifier of the sending session.
    pub sender: u128,
}

/// What is pushed to a connection.
#[derive(Debug, Clone, PartialEq)]
pub enum Message {
    /// A batch of accepted cell edits.
    Moves(Vec<SolutionItemDto>),
    /// The cursor position of a participant.
    CurrentCell(CurrentCellDto),
    /// Text that is passed on as it is: the stored solution, or the reason
    /// why it could not be loaded.
    Text(String),
}

/// A message together with the session that is to receive it.
#[derive(Debug, Clone, PartialEq)]
pub struct Push {
    pub to: u128,
    pub message: Message,
}

/// Why a session was not registered.
#[derive(Debug, Clone, Copy, PartialEq, Eq, Structural)]
pub enum ConnectError {
    /// A live session already has the identifier.
    SessionExists,
}

/// What follows the registration of a session: the cursor positions to tell
/// it, and the room whose stored solution is to be loaded for it next.
#[derive(Debug, Clone, PartialEq)]
pub struct Joined {
    pub snapshots: Vec<Push>,
    pub team: String,
    pub crossword: String,
}

/// A batch of edits that is ready to be stored: the edits, attributed to
/// their sender, and the sender's name and room.
#[derive(Debug, Clone, PartialEq)]
pub struct MoveRequest {
    pub solution_items: Vec<SolutionItemDto>,
    pub user: String,
    pub team: String,
    pub crossword: String,
}

/// The mathematical value of a [`Message`].
pub enum MessageView {
    Moves(Seq<SolutionItem>),
    CurrentCell(CurrentCellUpdate),
    Text(Seq<char>),
}

/// The mathematical value of a [`Push`].
pub struct PushView {
    pub to: u128,
    pub message: MessageView,
}

impl View for Message {
    type V = MessageView;

    open spec fn view(&self) -> MessageView {
        match self {
            Message::Moves(items) => MessageView::Moves(items.deep_view()),
            Message::CurrentCell(cell) => MessageView::CurrentCell(cell@),
            Message::Text(text) => MessageView::Text(text@),
        }
    }
}

impl View for Push {
    type V = PushView;

    open spec fn view(&self) -> PushView {
        PushView { to: self.to, message: self.message@ }
    }
}

impl DeepView for Push {
    type V = PushView;

    open spec fn deep_view(&self) -> PushView {
        self@
    }
}

/// Whether `order` lists every member of `members` exactly once.
pub open spec fn enumerates(order: Seq<u128>, members: Set<u128>) -> bool {
    order.no_duplicates() && order.to_set() == members
}

/// Whether a session belongs to the room of `team` and `crossword`.
pub open spec fn in_room(session: Session, team: Seq<char>, crossword: Seq<char>) -> bool {
    session.team == team && session.crossword == crossword
}

/// The sessions of a room.
pub open spec fn room(table: Map<u128, Session>, team: Seq<char>, crossword: Seq<char>) -> Set<
    u128,
> {
    Set::new(|id: u128| table.contains_key(id) && in_room(table[id], team, crossword))
}

/// The sessions that a list of pushes is addressed to, in order.
pub open spec fn recipients(pushes: Seq<PushView>) -> Seq<u128> {
    pushes.map_values(|push: PushView| push.to)
}

/// Whether `pushes` carry `message` to each session of the room of `team`
/// and `crossword` exactly once, and to nobody else. The order in which the
/// sessions are served is left open.
pub open spec fn is_broadcast(
    pushes: Seq<PushView>,
    table: Map<u128, Session>,
    team: Seq<char>,
    crossword: Seq<char>,
    message: MessageView,
) -> bool {
    &&& enumerates(recipients(pushes), room(table, team, crossword))
    &&& forall|i: int| 0 <= i < pushes.len() ==> (#[trigger] pushes[i]).message == message
}

/// The message that reports where a session's cursor is.
pub open spec fn cursor_of(session: Session) -> MessageView
    recommends
        session.current_cell is Some,
{
    MessageView::CurrentCell(
        CurrentCellUpdate {
            x: session.current_cell.unwrap().0,
            y: session.current_cell.unwrap().1,
            user: session.user,
        },
    )
}

/// The sessions whose cursor a newcomer is told: the other sessions of its
/// room that have reported a position.
pub open spec fn neighbours_with_cursor(table: Map<u128, Session>, newcomer: Session) -> Set<u128> {
    Set::new(
        |id: u128|
            table.contains_key(id) && id != newcomer.id && in_room(
                table[id],
                newcomer.team,
                newcomer.crossword,
            ) && table[id].current_cell is Some,
    )
}

/// The pushes that tell `newcomer` the cursors of the sessions in `order`.
pub open spec fn cursor_pushes(
    order: Seq<u128>,
    table: Map<u128, Session>,
    newcomer: u128,
) -> Seq<PushView> {
    order.map_values(|id: u128| PushView { to: newcomer, message: cursor_of(table[id]) })
}

/// Whether `pushes` tell `newcomer`, and nobody else, the cursor of each
/// session in [`neighbours_with_cursor`] exactly once, and nothing more. The
/// order is left open.
pub open spec fn is_snapshot(
    pushes: Seq<PushView>,
    table: Map<u128, Session>,
    newcomer: Session,
) -> bool {
    exists|order: Seq<u128>|
        #[trigger] enumerates(order, neighbours_with_cursor(table, newcomer)) && pushes
            == cursor_pushes(order, table, newcomer.id)
}

/// The edits of a batch, each attributed to `user` whatever it said before.
pub open spec fn attributed(items: Seq<SolutionItem>, user: Seq<char>) -> Seq<SolutionItem> {
    items.map_values(
        |item: SolutionItem|
            SolutionItem { x: item.x, y: item.y, value: item.value, modified_by: user },
    )
}

/// The session after its cursor was reported at column `x`, row `y`: only
/// the position changes, and the earlier one is forgotten.
pub open spec fn moved_to(session: Session, x: i64, y: i64) -> Session {
    Session {
        id: session.id,
        team: session.team,
        crossword: session.crossword,
        user: session.user,
        current_cell: Some((x, y)),
    }
}

/// Whether a table of sessions is in order: it is finite and files every
/// session under its own identifier.
pub open spec fn registry_valid(table: Map<u128, Session>) -> bool {
    &&& table.dom().finite()
    &&& forall|id: u128| table.contains_key(id) ==> (#[trigger] table[id]).id == id
}

/// A command together with what the store answered while it was handled.
pub enum Command {
    /// A session asks to be registered; `loaded` is the text that loading
    /// the stored solution gave, the solution or the reason of the failure.
    Connect { session: Session, loaded: Seq<char> },
    /// A session is removed.
    Disconnect { id: u128 },
    /// A session sends a batch of edits; `accepted` says whether the store
    /// took the batch.
    Move { sender: u128, items: Seq<SolutionItem>, accepted: bool },
    /// A session reports its cursor.
    CurrentCell { sender: u128, x: i64, y: i64 },
}

/// Whether handling `command` in the table `pre` may leave the table `post`
/// and produce `pushes`.
///
/// A connect is `handle_connect` followed, where it succeeds, by the push of
/// the loaded text, which the session is sent before the cursor positions; a
/// move is `prepare_move` followed, where the sender is known, by
/// `complete_move` with the store's answer.
pub open spec fn step(
    pre: Map<u128, Session>,
    command: Command,
    post: Map<u128, Session>,
    pushes: Seq<PushView>,
) -> bool {
    match command {
        Command::Connect { session, loaded } => {
            if pre.contains_key(session.id) {
                post == pre && pushes.len() == 0
            } else {
                &&& post == pre.insert(session.id, session)
                &&& pushes.len() > 0
                &&& pushes.first() == PushView { to: session.id, message: MessageView::Text(loaded) }
                &&& is_snapshot(pushes.drop_first(), pre, session)
            }
        },
        Command::Disconnect { id } => post == pre.remove(id) && pushes.len() == 0,
        Command::Move { sender, items, accepted } => {
            &&& post == pre
            &&& if pre.contains_key(sender) && accepted {
                is_broadcast(
                    pushes,
                    pre,
                    pre[sender].team,
                    pre[sender].crossword,
                    MessageView::Moves(attributed(items, pre[sender].user)),
                )
            } else {
                pushes.len() == 0
            }
        },
        Command::CurrentCell { sender, x, y } => {
            if pre.contains_key(sender) {
                &&& post == pre.insert(sender, moved_to(pre[sender], x, y))
                &&& is_broadcast(
                    pushes,
                    post,
                    pre[sender].team,
                    pre[sender].crossword,
                    MessageView::CurrentCell(CurrentCellUpdate { x, y, user: pre[sender].user }),
                )
            } else {
                post == pre && pushes.len() == 0
            }
        },
    }
}

/// Whether `tables`, `commands` and `outputs` describe a run: command `i`
/// leads from table `i` to table `i + 1` and produces output `i`.
pub open spec fn is_run(
    tables: Seq<Map<u128, Session>>,
    commands: Seq<Command>,
    outputs: Seq<Seq<PushView>>,
) -> bool {
    &&& tables.len() == commands.len() + 1
    &&& outputs.len() == commands.len()
    &&& forall|i: int|
        0 <= i < commands.len() ==> #[trigger] step(
            tables[i],
            commands[i],
            tables[i + 1],
            outputs[i],
        )
}

/// The members of `keep` among `order`, in the order of `order`.
pub open spec fn selected(order: Seq<u128>, keep: Set<u128>) -> Seq<u128>
    decreases order.len(),
{
    if order.len() == 0 {
        Seq::empty()
    } else {
        let earlier = selected(order.drop_last(), keep);
        if keep.contains(order.last()) {
            earlier.push(order.last())
        } else {
            earlier
        }
    }
}

/// A selection holds exactly the selected members of the list, and none of
/// them twice if the list holds none twice.
proof fn lemma_selected(order: Seq<u128>, keep: Set<u128>)
    ensures
        forall|id: u128|
            selected(order, keep).contains(id) <==> order.contains(id) && keep.contains(id),
        order.no_duplicates() ==> selected(order, keep).no_duplicates(),
    decreases order.len(),
{
    if order.len() > 0 {
        let front = order.drop_last();
        let last = order.last();
        lemma_selected(front, keep);
        assert forall|id: u128| order.contains(id) <==> front.contains(id) || id == last by {
            if order.contains(id) {
                let i = choose|i: int| 0 <= i < order.len() && order[i] == id;
                if i < order.len() - 1 {
                    assert(front[i] == id);
                }
            }
            if front.contains(id) {
                let i = choose|i: int| 0 <= i < front.len() && front[i] == id;
                assert(order[i] == id);
            }
            if id == last {
                assert(order[order.len() - 1] == id);
            }
        }
        let earlier = selected(front, keep);
        if keep.contains(last) {
            assert forall|id: u128|
                earlier.push(last).contains(id) <==> earlier.contains(id) || id == last by {
                if earlier.push(last).contains(id) {
                    let i = choose|i: int|
                        0 <= i < earlier.push(last).len() && earlier.push(last)[i] == id;
                    if i < earlier.len() {
                        assert(earlier[i] == id);
                    }
                }
                if earlier.contains(id) {
                    let i = choose|i: int| 0 <= i < earlier.len() && earlier[i] == id;
                    assert(earlier.push(last)[i] == id);
                }
                if id == last {
                    assert(earlier.push(last)[earlier.len() as int] == id);
                }
            }
            if order.no_duplicates() {
                assert(front.no_duplicates());
                assert(!front.contains(last)) by {
                    if front.contains(last) {
                        let i = choose|i: int| 0 <= i < front.len() && front[i] == last;
                        assert(order[i] == order[order.len() - 1]);
                    }
                }
                assert(!earlier.contains(last));
                assert(earlier.push(last).no_duplicates());
            }
        } else {
            if order.no_duplicates() {
                assert(front.no_duplicates());
            }
        }
    }
}

/// Selecting a part of what a list enumerates enumerates that part.
proof fn lemma_selected_enumerates(order: Seq<u128>, all: Set<u128>, keep: Set<u128>)
    requires
        enumerates(order, all),
        keep.subset_of(all),
    ensures
        enumerates(selected(order, keep), keep),
{
    lemma_selected(order, keep);
    assert forall|id: u128| keep.contains(id) implies selected(order, keep).to_set().contains(
        id,
    ) by {
        assert(all.contains(id));
        assert(order.to_set().contains(id));
    }
    assert(selected(order, keep).to_set() =~= keep);
}

fn copy_item(item: &SolutionItemDto) -> (copy: SolutionItemDto)
    ensures
        copy == *item,
{
    SolutionItemDto {
        x: item.x,
        y: item.y,
        value: item.value.clone(),
        modified_by: item.modified_by.clone(),
    }
}

fn copy_items(items: &Vec<SolutionItemDto>) -> (copy: Vec<SolutionItemDto>)
    ensures
        copy@ == items@,
{
    let mut copy: Vec<SolutionItemDto> = Vec::new();
    let mut i: usize = 0;
    while i < items.len()
        invariant
            i <= items.len(),
            copy@ == items@.take(i as int),
        decreases items.len() - i,
    {
        copy.push(copy_item(&items[i]));
        assert(copy@ =~= items@.take(i + 1));
        i = i + 1;
    }
    assert(items@.take(items.len() as int) =~= items@);
    copy
}

fn attribute_to(items: &Vec<SolutionItemDto>, user: &String) -> (marked: Vec<SolutionItemDto>)
    ensures
        marked.deep_view() == attributed(items.deep_view(), user@),
{
    let mut marked: Vec<SolutionItemDto> = Vec::new();
    let mut i: usize = 0;
    while i < items.len()
        invariant
            i <= items.len(),
            marked.deep_view() == attributed(items.deep_view(), user@).take(i as int),
        decreases items.len() - i,
    {
        let item = &items[i];
        let ghost before = marked.deep_view();
        marked.push(
            SolutionItemDto {
                x: item.x,
                y: item.y,
                value: item.value.clone(),
                modified_by: user.clone(),
            },
        );
        assert(items.deep_view()[i as int] == item@);
        assert(marked.deep_view() =~= before.push(
            SolutionItem { x: item.x, y: item.y, value: item.value@, modified_by: user@ },
        ));
        assert(marked.deep_view() =~= attributed(items.deep_view(), user@).take(i + 1));
        i = i + 1;
    }
    assert(attributed(items.deep_view(), user@).take(items.len() as int) =~= attributed(
        items.deep_view(),
        user@,
    ));
    marked
}

impl Message {
    /// A copy of the message.
    pub fn duplicate(&self) -> (copy: Message)
        ensures
            copy@ == self@,
    {
        match self {
            Message::Moves(items) => Message::Moves(copy_items(items)),
            Message::CurrentCell(cell) => Message::CurrentCell(
                CurrentCellDto { x: cell.x, y: cell.y, user: cell.user.clone() },
            ),
            Message::Text(text) => Message::Text(text.clone()),
        }
    }
}

/// The text that a newly joined session is sent once loading the stored
/// solution has ended: the solution, or the reason why loading failed.
pub open spec fn reply_text(loaded: Result<String, String>) -> Seq<char> {
    match loaded {
        Ok(solution) => solution@,
        Err(reason) => reason@,
    }
}

/// The push that ends the handling of a connect: it hands the session `id`
/// the stored solution as it was loaded or, where loading failed, the reason
/// as text. The session is sent this text before the cursor positions that
/// its registration produced.
pub fn solution_push(id: u128, loaded: Result<String, String>) -> (push: Push)
    ensures
        push@ == (PushView { to: id, message: MessageView::Text(reply_text(loaded)) }),
{
    let text = match loaded {
        Ok(solution) => solution,
        Err(reason) => reason,
    };
    Push { to: id, message: Message::Text(text) }
}

/// The coordinator's table of live sessions.
pub struct MoveServer {
    sessions: HashMap<u128, WsSession>,
}

impl View for MoveServer {
    type V = Map<u128, Session>;

    /// The live sessions by identifier.
    closed spec fn view(&self) -> Map<u128, Session> {
        Map::new(|id: u128| self.sessions@.contains_key(id), |id: u128| self.sessions@[id]@)
    }
}

impl MoveServer {
    /// A coordinator with no sessions.
    pub fn new() -> (server: MoveServer)
        ensures
            server@ == Map::<u128, Session>::empty(),
    {
        let server = MoveServer { sessions: HashMap::new() };
        assert(server@ =~= Map::<u128, Session>::empty());
        server
    }

    /// The identifiers of the live sessions, each once.
    fn session_ids(&self) -> (ids: Vec<u128>)
        ensures
            enumerates(ids@, self@.dom()),
    {
        broadcast use group_hash_axioms;

        let mut ids: Vec<u128> = Vec::new();
        for entry in walk: self.sessions.iter()
            invariant
                walk.seq() == spec_hash_map_iter(&self.sessions).remaining(),
                walk.seq().no_duplicates(),
                ids@.len() == walk.index(),
                forall|i: int| 0 <= i < ids@.len() ==> ids@[i] == *walk.seq()[i].0,
        {
            ids.push(*entry.0);
        }
        proof {
            let table = self.sessions@;
            let walked = spec_hash_map_iter(&self.sessions).remaining();
            assert forall|i: int, j: int| 0 <= i < j < ids@.len() implies ids@[i] != ids@[j] by {
                assert(table.contains_key(*walked[i].0) && table[*walked[i].0] == *walked[i].1);
                assert(table.contains_key(*walked[j].0) && table[*walked[j].0] == *walked[j].1);
                if ids@[i] == ids@[j] {
                    assert(walked[i] == walked[j]);
                }
            }
            assert forall|id: u128| self@.dom().contains(id) implies ids@.to_set().contains(id) by {
                assert(walked.contains((&id, &table[id])));
                let i = choose|i: int| 0 <= i < walked.len() && walked[i] == (&id, &table[id]);
                assert(ids@[i] == id);
            }
            assert forall|id: u128| ids@.to_set().contains(id) implies self@.dom().contains(id) by {
                let i = choose|i: int| 0 <= i < ids@.len() && ids@[i] == id;
                assert(table.contains_key(*walked[i].0));
            }
            assert(ids@.to_set() =~= self@.dom());
        }
        ids
    }

    /// Addresses `message` to every session of the room of `team` and
    /// `crossword`.
    fn fan_out(&self, team: &String, crossword: &String, message: &Message) -> (pushes: Vec<Push>)
        ensures
            is_broadcast(pushes.deep_view(), self@, team@, crossword@, message@),
    {
        broadcast use group_hash_axioms;

        let ids = self.session_ids();
        let ghost members = room(self@, team@, crossword@);
        let mut pushes: Vec<Push> = Vec::new();
        let mut i: usize = 0;
        while i < ids.len()
            invariant
                i <= ids.len(),
                members == room(self@, team@, crossword@),
                recipients(pushes.deep_view()) == selected(ids@.take(i as int), members),
                forall|k: int|
                    0 <= k < pushes.len() ==> (#[trigger] pushes.deep_view()[k]).message
                        == message@,
            decreases ids.len() - i,
        {
            let id = ids[i];
            assert(ids@.take(i + 1).drop_last() =~= ids@.take(i as int));
            assert(ids@.take(i + 1).last() == id);
            let ghost before = pushes.deep_view();
            match self.sessions.get(&id) {
                Some(session) => {
                    if session.team == *team && session.crossword == *crossword {
                        let push = Push { to: id, message: message.duplicate() };
                        pushes.push(push);
                        assert(pushes.deep_view() =~= before.push(push@));
                        assert(recipients(pushes.deep_view()) =~= recipients(before).push(id));
                    }
                },
                None => {},
            }
            i = i + 1;
        }
        proof {
            assert(ids@.take(i as int) =~= ids@);
            lemma_selected_enumerates(ids@, self@.dom(), members);
        }
        pushes
    }

    /// Attributes every edit of a batch to the sender and addresses the batch
    /// to every session of the sender's room, the sender's own included.
    pub fn broadcast_moves(&self, sender: &WsSession, solution_items: Vec<SolutionItemDto>) -> (pushes:
        Vec<Push>)
        ensures
            is_broadcast(
                pushes.deep_view(),
                self@,
                sender@.team,
                sender@.crossword,
                MessageView::Moves(attributed(solution_items.deep_view(), sender@.user)),
            ),
    {
        let solution_items_with_user = attribute_to(&solution_items, &sender.user);
        let message = Message::Moves(solution_items_with_user);
        self.fan_out(&sender.team, &sender.crossword, &message)
    }

    /// Addresses the sender's cursor position to every session of the
    /// sender's room, the sender's own included.
    pub fn broadcast_current_cell(&self, sender: &WsSession, x: i64, y: i64) -> (pushes: Vec<Push>)
        ensures
            is_broadcast(
                pushes.deep_view(),
                self@,
                sender@.team,
                sender@.crossword,
                MessageView::CurrentCell(CurrentCellUpdate { x, y, user: sender@.user }),
            ),
    {
        let current_cell = CurrentCellDto { x, y, user: sender.user.clone() };
        let message = Message::CurrentCell(current_cell);
        self.fan_out(&sender.team, &sender.crossword, &message)
    }

    /// Tells a session that has just joined where the cursors of the other
    /// sessions of its room are. A session that is not in the table is told
    /// nothing.
    pub fn broadcast_all_current_positions(&self, new_session: &WsSession) -> (pushes: Vec<Push>)
        ensures
            if self@.contains_key(new_session.id) {
                is_snapshot(pushes.deep_view(), self@, new_session@)
            } else {
                pushes.len() == 0
            },
    {
        broadcast use group_hash_axioms;

        let mut pushes: Vec<Push> = Vec::new();
        if !self.sessions.contains_key(&new_session.id) {
            return pushes;
        }
        let ids = self.session_ids();
        let ghost neighbours = neighbours_with_cursor(self@, new_session@);
        let mut i: usize = 0;
        while i < ids.len()
            invariant
                i <= ids.len(),
                neighbours == neighbours_with_cursor(self@, new_session@),
                pushes.deep_view() == cursor_pushes(
                    selected(ids@.take(i as int), neighbours),
                    self@,
                    new_session.id,
                ),
            decreases ids.len() - i,
        {
            let id = ids[i];
            assert(ids@.take(i + 1).drop_last() =~= ids@.take(i as int));
            assert(ids@.take(i + 1).last() == id);
            let ghost before = pushes.deep_view();
            match self.sessions.get(&id) {
                Some(session) => {
                    if session.crossword == new_session.crossword && session.team
                        == new_session.team && id != new_session.id {
                        match session.current_cell {
                            Some((x, y)) => {
                                let position = CurrentCellDto { x, y, user: session.user.clone() };
                                let push = Push {
                                    to: new_session.id,
                                    message: Message::CurrentCell(position),
                                };
                                pushes.push(push);
                                assert(pushes.deep_view() =~= before.push(push@));
                                assert(pushes.deep_view() =~= cursor_pushes(
                                    selected(ids@.take(i + 1), neighbours),
                                    self@,
                                    new_session.id,
                                ));
                            },
                            None => {},
                        }
                    }
                },
                None => {},
            }
            i = i + 1;
        }
        proof {
            assert(ids@.take(i as int) =~= ids@);
            lemma_selected_enumerates(ids@, self@.dom(), neighbours);
            assert(enumerates(selected(ids@, neighbours), neighbours));
        }
        pushes
    }

    /// Registers a session and works out what it is told about the cursors
    /// of its room. A session whose identifier is taken is refused, and the
    /// table stays as it is.
    pub fn handle_connect(&mut self, msg: Connect) -> (r: Result<Joined, ConnectError>)
        ensures
            match r {
                Ok(joined) => {
                    &&& !old(self)@.contains_key(msg.session.id)
                    &&& final(self)@ == old(self)@.insert(msg.session.id, msg.session@)
                    &&& is_snapshot(joined.snapshots.deep_view(), old(self)@, msg.session@)
                    &&& joined.team@ == msg.session@.team
                    &&& joined.crossword@ == msg.session@.crossword
                },
                Err(e) => {
                    &&& old(self)@.contains_key(msg.session.id)
                    &&& final(self)@ == old(self)@
                    &&& e == ConnectError::SessionExists
                },
            },
    {
        broadcast use group_hash_axioms;

        if self.sessions.contains_key(&msg.session.id) {
            return Err(ConnectError::SessionExists);
        }
        let session = msg.session.duplicate();
        self.sessions.insert(msg.session.id, msg.session);
        assert(self@ =~= old(self)@.insert(session.id, session@));
        let snapshots = self.broadcast_all_current_positions(&session);
        proof {
            let order = choose|order: Seq<u128>|
                #[trigger] enumerates(order, neighbours_with_cursor(self@, session@))
                    && snapshots.deep_view() == cursor_pushes(order, self@, session.id);
            assert(neighbours_with_cursor(self@, session@) =~= neighbours_with_cursor(
                old(self)@,
                session@,
            ));
            assert(cursor_pushes(order, self@, session.id) =~= cursor_pushes(
                order,
                old(self)@,
                session.id,
            )) by {
                assert forall|i: int| 0 <= i < order.len() implies order[i] != session.id by {
                    assert(order.to_set().contains(order[i]));
                }
            }
            assert(enumerates(order, neighbours_with_cursor(old(self)@, session@)));
        }
        Ok(Joined { snapshots, team: session.team, crossword: session.crossword })
    }

    /// Removes a session. Removing a session that is not in the table
    /// changes nothing.
    pub fn handle_disconnect(&mut self, msg: Disconnect)
        ensures
            final(self)@ == old(self)@.remove(msg.id),
            step(
                old(self)@,
                Command::Disconnect { id: msg.id },
                final(self)@,
                Seq::<PushView>::empty(),
            ),
    {
        broadcast use group_hash_axioms;

        self.sessions.remove(&msg.id);
        assert(self@ =~= old(self)@.remove(msg.id));
    }

    /// Prepares a batch of edits for storing: attributes every edit to the
    /// sender, whatever the batch said, and adds the sender's name and room.
    /// A batch from a session that is not in the table is dropped.
    pub fn prepare_move(&self, msg: Move) -> (r: Option<MoveRequest>)
        ensures
            match r {
                Some(request) => {
                    &&& self@.contains_key(msg.sender)
                    &&& request.solution_items.deep_view() == attributed(
                        msg.solution_items.deep_view(),
                        self@[msg.sender].user,
                    )
                    &&& request.user@ == self@[msg.sender].user
                    &&& request.team@ == self@[msg.sender].team
                    &&& request.crossword@ == self@[msg.sender].crossword
                },
                None => !self@.contains_key(msg.sender),
            },
    {
        broadcast use group_hash_axioms;

        match self.sessions.get(&msg.sender) {
            Some(sender) => Some(
                MoveRequest {
                    solution_items: attribute_to(&msg.solution_items, &sender.user),
                    user: sender.user.clone(),
                    team: sender.team.clone(),
                    crossword: sender.crossword.clone(),
                },
            ),
            None => None,
        }
    }

    /// Decides what is sent once the store has answered for a batch of
    /// edits: an accepted batch goes to every session of the sender's room,
    /// the sender's own included; a rejected batch goes to nobody.
    pub fn complete_move(&self, request: &MoveRequest, accepted: bool) -> (pushes: Vec<Push>)
        ensures
            accepted ==> is_broadcast(
                pushes.deep_view(),
                self@,
                request.team@,
                request.crossword@,
                MessageView::Moves(request.solution_items.deep_view()),
            ),
            !accepted ==> pushes.len() == 0,
    {
        if accepted {
            let message = Message::Moves(copy_items(&request.solution_items));
            assert(message@ == MessageView::Moves(request.solution_items.deep_view())) by {
                assert(message->Moves_0.deep_view() =~= request.solution_items.deep_view());
            }
            self.fan_out(&request.team, &request.crossword, &message)
        } else {
            Vec::new()
        }
    }

    /// Records where the sender's cursor is and addresses the position to
    /// every session of the sender's room, the sender's own included. A
    /// report from a session that is not in the table is dropped.
    pub fn handle_current_cell(&mut self, msg: CurrentCell) -> (pushes: Vec<Push>)
        ensures
            if old(self)@.contains_key(msg.sender) {
                &&& final(self)@ == old(self)@.insert(
                    msg.sender,
                    moved_to(old(self)@[msg.sender], msg.x, msg.y),
                )
                &&& is_broadcast(
                    pushes.deep_view(),
                    final(self)@,
                    old(self)@[msg.sender].team,
                    old(self)@[msg.sender].crossword,
                    MessageView::CurrentCell(
                        CurrentCellUpdate {
                            x: msg.x,
                            y: msg.y,
                            user: old(self)@[msg.sender].user,
                        },
                    ),
                )
            } else {
                &&& final(self)@ == old(self)@
                &&& pushes.len() == 0
            },
            step(
                old(self)@,
                Command::CurrentCell { sender: msg.sender, x: msg.x, y: msg.y },
                final(self)@,
                pushes.deep_view(),
            ),
    {
        broadcast use group_hash_axioms;

        match self.sessions.remove(&msg.sender) {
            Some(session) => {
                let sender = WsSession {
                    id: session.id,
                    team: session.team,
                    crossword: session.crossword,
                    user: session.user,
                    current_cell: Some((msg.x, msg.y)),
                };
                let copy = sender.duplicate();
                self.sessions.insert(msg.sender, sender);
                assert(self@ =~= old(self)@.insert(
                    msg.sender,
                    moved_to(old(self)@[msg.sender], msg.x, msg.y),
                ));
                self.broadcast_current_cell(&copy, msg.x, msg.y)
            },
            None => {
                assert(self@ =~= old(self)@);
                Vec::new()
            },
        }
    }

    /// The session filed under `id`, if there is one.
    pub fn session(&self, id: u128) -> (found: Option<&WsSession>)
        ensures
            match found {
                Some(session) => self@.contains_key(id) && session@ == self@[id],
                None => !self@.contains_key(id),
            },
    {
        broadcast use group_hash_axioms;

        self.sessions.get(&id)
    }

    /// The number of live sessions.
    pub fn len(&self) -> (n: usize)
        ensures
            n == self@.dom().len(),
            self@.dom().finite(),
    {
        broadcast use group_hash_axioms;

        assert(self@.dom() =~= self.sessions@.dom());
        self.sessions.len()
    }
}

} // verus!
