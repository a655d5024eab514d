//! What holds of the coordinator over whole runs: who sees a broadcast, what
//! a newcomer is told, and what never changes about a session.
//!
//! A run is described by the table before and after each command and by the
//! pushes that the command produced. `step` says which tables and pushes the
//! coordinator's operations allow for a command; the laws below hold of every
//! run that it allows.

use vstd::prelude::*;
use vstd::seq_lib::*;
use crate::models::api_models::SolutionItem;
use crate::services::ws_server::{
    attributed, cursor_of, cursor_pushes, enumerates, in_room, is_broadcast, is_run, is_snapshot,
    moved_to, neighbours_with_cursor, recipients, registry_valid, room, step, Command,
    MessageView, PushView,
};
use crate::services::ws_session::Session;

verus! {

/// Registering a session and pushing it the loaded text ahead of the cursor
/// positions is a connect step.
pub proof fn lemma_connect_is_step(
    pre: Map<u128, Session>,
    session: Session,
    loaded: Seq<char>,
    post: Map<u128, Session>,
    snapshots: Seq<PushView>,
)
    requires
        !pre.contains_key(session.id),
        post == pre.insert(session.id, session),
        is_snapshot(snapshots, pre, session),
    ensures
        step(
            pre,
            Command::Connect { session, loaded },
            post,
            seq![PushView { to: session.id, message: MessageView::Text(loaded) }] + snapshots,
        ),
{
    let pushes = seq![PushView { to: session.id, message: MessageView::Text(loaded) }] + snapshots;
    assert(pushes.drop_first() =~= snapshots);
}

/// Preparing a move of a known sender and then completing it with the
/// store's answer is a move step.
pub proof fn lemma_move_is_step(
    table: Map<u128, Session>,
    sender: u128,
    items: Seq<SolutionItem>,
    accepted: bool,
    pushes: Seq<PushView>,
)
    requires
        table.contains_key(sender),
        accepted ==> is_broadcast(
            pushes,
            table,
            table[sender].team,
            table[sender].crossword,
            MessageView::Moves(attributed(items, table[sender].user)),
        ),
        !accepted ==> pushes.len() == 0,
    ensures
        step(table, Command::Move { sender, items, accepted }, table, pushes),
{
}

/// A broadcast reaches every session of its room: where `pushes` carry
/// `message` to the room of `team` and `crossword`, each session of that room
/// is pushed the message.
pub proof fn lemma_broadcast_reaches_member(
    pushes: Seq<PushView>,
    table: Map<u128, Session>,
    team: Seq<char>,
    crossword: Seq<char>,
    message: MessageView,
    receiver: u128,
)
    requires
        is_broadcast(pushes, table, team, crossword, message),
        table.contains_key(receiver),
        in_room(table[receiver], team, crossword),
    ensures
        pushes.contains(PushView { to: receiver, message }),
{
    assert(room(table, team, crossword).contains(receiver));
    assert(recipients(pushes).to_set().contains(receiver));
    let i = choose|i: int| 0 <= i < recipients(pushes).len() && recipients(pushes)[i] == receiver;
    assert(pushes[i] == PushView { to: receiver, message });
}

/// A broadcast reaches nobody outside its room: where `pushes` carry a
/// message to the room of `team` and `crossword`, no push is addressed to a
/// session of another room, nor to one that is not in the table.
pub proof fn lemma_broadcast_stays_in_room(
    pushes: Seq<PushView>,
    table: Map<u128, Session>,
    team: Seq<char>,
    crossword: Seq<char>,
    message: MessageView,
    outsider: u128,
)
    requires
        is_broadcast(pushes, table, team, crossword, message),
        !table.contains_key(outsider) || !in_room(table[outsider], team, crossword),
    ensures
        forall|i: int| 0 <= i < pushes.len() ==> (#[trigger] pushes[i]).to != outsider,
{
    assert forall|i: int| 0 <= i < pushes.len() implies (#[trigger] pushes[i]).to != outsider by {
        assert(recipients(pushes)[i] == pushes[i].to);
        assert(recipients(pushes).to_set().contains(pushes[i].to));
        assert(room(table, team, crossword).contains(pushes[i].to));
    }
}

/// An accepted move is seen by the whole room: for sessions `sender` and
/// `receiver` with the same team and the same crossword, the pushes of an
/// accepted move from `sender` hold the batch, attributed to the sender's
/// user, addressed to `receiver`. The sender is such a receiver itself.
pub proof fn law_move_reaches_room(
    table: Map<u128, Session>,
    sender: u128,
    receiver: u128,
    items: Seq<SolutionItem>,
    post: Map<u128, Session>,
    pushes: Seq<PushView>,
)
    requires
        table.contains_key(sender),
        table.contains_key(receiver),
        table[receiver].team == table[sender].team,
        table[receiver].crossword == table[sender].crossword,
        step(table, Command::Move { sender, items, accepted: true }, post, pushes),
    ensures
        pushes.contains(
            PushView {
                to: receiver,
                message: MessageView::Moves(attributed(items, table[sender].user)),
            },
        ),
        pushes.contains(
            PushView {
                to: sender,
                message: MessageView::Moves(attributed(items, table[sender].user)),
            },
        ),
{
    let message = MessageView::Moves(attributed(items, table[sender].user));
    lemma_broadcast_reaches_member(
        pushes,
        table,
        table[sender].team,
        table[sender].crossword,
        message,
        receiver,
    );
    lemma_broadcast_reaches_member(
        pushes,
        table,
        table[sender].team,
        table[sender].crossword,
        message,
        sender,
    );
}

/// A move is never seen outside the room: for sessions `sender` and
/// `outsider` that differ in team or in crossword, no push of a move from
/// `sender` is addressed to `outsider`.
pub proof fn law_move_stays_in_room(
    table: Map<u128, Session>,
    sender: u128,
    outsider: u128,
    items: Seq<SolutionItem>,
    accepted: bool,
    post: Map<u128, Session>,
    pushes: Seq<PushView>,
)
    requires
        table.contains_key(sender),
        table.contains_key(outsider),
        table[outsider].team != table[sender].team || table[outsider].crossword
            != table[sender].crossword,
        step(table, Command::Move { sender, items, accepted }, post, pushes),
    ensures
        forall|i: int| 0 <= i < pushes.len() ==> (#[trigger] pushes[i]).to != outsider,
{
    if accepted {
        lemma_broadcast_stays_in_room(
            pushes,
            table,
            table[sender].team,
            table[sender].crossword,
            MessageView::Moves(attributed(items, table[sender].user)),
            outsider,
        );
    }
}

/// A rejected move is seen by nobody: where the store does not accept a
/// batch, handling the move pushes nothing, to the sender or anyone else, and
/// leaves the table as it was.
pub proof fn law_rejected_move_is_not_seen(
    table: Map<u128, Session>,
    sender: u128,
    items: Seq<SolutionItem>,
    post: Map<u128, Session>,
    pushes: Seq<PushView>,
)
    requires
        step(table, Command::Move { sender, items, accepted: false }, post, pushes),
    ensures
        pushes.len() == 0,
        post == table,
{
}

/// Every push of a command is addressed to a session that is in the table
/// once the command is handled.
pub proof fn lemma_pushes_reach_live_sessions(
    pre: Map<u128, Session>,
    command: Command,
    post: Map<u128, Session>,
    pushes: Seq<PushView>,
)
    requires
        step(pre, command, post, pushes),
    ensures
        forall|i: int| 0 <= i < pushes.len() ==> post.contains_key((#[trigger] pushes[i]).to),
{
    assert forall|i: int| 0 <= i < pushes.len() implies post.contains_key(
        (#[trigger] pushes[i]).to,
    ) by {
        match command {
            Command::Connect { session, loaded } => {
                if i > 0 {
                    let order = choose|order: Seq<u128>|
                        #[trigger] enumerates(order, neighbours_with_cursor(pre, session))
                            && pushes.drop_first() == cursor_pushes(order, pre, session.id);
                    assert(pushes[i] == pushes.drop_first()[i - 1]);
                    assert(cursor_pushes(order, pre, session.id).len() == order.len());
                    assert(cursor_pushes(order, pre, session.id)[i - 1] == PushView {
                        to: session.id,
                        message: cursor_of(pre[order[i - 1]]),
                    });
                } else {
                    assert(pushes[i] == pushes.first());
                }
                assert(post.contains_key(session.id));
            },
            Command::Disconnect { id } => {},
            Command::Move { sender, items, accepted } => {
                assert(recipients(pushes)[i] == pushes[i].to);
                assert(recipients(pushes).to_set().contains(pushes[i].to));
                assert(room(pre, pre[sender].team, pre[sender].crossword).contains(pushes[i].to));
            },
            Command::CurrentCell { sender, x, y } => {
                assert(recipients(pushes)[i] == pushes[i].to);
                assert(recipients(pushes).to_set().contains(pushes[i].to));
                assert(room(post, pre[sender].team, pre[sender].crossword).contains(
                    pushes[i].to,
                ));
            },
        }
    }
}

/// Whether a command registers a session under `id`.
pub open spec fn connects(command: Command, id: u128) -> bool {
    command matches Command::Connect { session, .. } && session.id == id
}

/// After a disconnect nothing reaches the session: in a run in which command
/// `at` disconnects `id`, no push of that command or of a later one is
/// addressed to `id`, whatever room the session was in, for as long as no
/// session connects under `id` again.
pub proof fn law_nothing_reaches_removed_session(
    tables: Seq<Map<u128, Session>>,
    commands: Seq<Command>,
    outputs: Seq<Seq<PushView>>,
    id: u128,
    at: int,
)
    requires
        is_run(tables, commands, outputs),
        0 <= at < commands.len(),
        commands[at] == (Command::Disconnect { id }),
        forall|j: int| at < j < commands.len() ==> !connects(#[trigger] commands[j], id),
    ensures
        forall|j: int, i: int|
            at <= j < commands.len() && 0 <= i < outputs[j].len() ==> (#[trigger] outputs[j][i]).to
                != id,
{
    assert forall|j: int| at <= j < commands.len() implies !(#[trigger] tables[j + 1]).contains_key(
        id,
    ) by {
        lemma_stays_removed(tables, commands, outputs, id, at, j);
    }
    assert forall|j: int, i: int|
        at <= j < commands.len() && 0 <= i < outputs[j].len() implies (#[trigger] outputs[j][i]).to
        != id by {
        assert(step(tables[j], commands[j], tables[j + 1], outputs[j]));
        lemma_pushes_reach_live_sessions(tables[j], commands[j], tables[j + 1], outputs[j]);
        assert(!tables[j + 1].contains_key(id));
    }
}

proof fn lemma_stays_removed(
    tables: Seq<Map<u128, Session>>,
    commands: Seq<Command>,
    outputs: Seq<Seq<PushView>>,
    id: u128,
    at: int,
    upto: int,
)
    requires
        is_run(tables, commands, outputs),
        0 <= at <= upto < commands.len(),
        commands[at] == (Command::Disconnect { id }),
        forall|j: int| at < j < commands.len() ==> !connects(#[trigger] commands[j], id),
    ensures
        !tables[upto + 1].contains_key(id),
    decreases upto - at,
{
    assert(step(tables[upto], commands[upto], tables[upto + 1], outputs[upto]));
    if upto > at {
        lemma_stays_removed(tables, commands, outputs, id, at, upto - 1);
        assert(!connects(commands[upto], id));
    }
}

/// The latest report is the whole of what is kept: after a session reports
/// its cursor at `first` and then at `second`, its position is `second`, and
/// the table is the one that the second report alone would have left.
pub proof fn law_latest_cursor_wins(
    table: Map<u128, Session>,
    sender: u128,
    first: (i64, i64),
    second: (i64, i64),
    between: Map<u128, Session>,
    after: Map<u128, Session>,
    first_pushes: Seq<PushView>,
    second_pushes: Seq<PushView>,
)
    requires
        table.contains_key(sender),
        step(
            table,
            Command::CurrentCell { sender, x: first.0, y: first.1 },
            between,
            first_pushes,
        ),
        step(
            between,
            Command::CurrentCell { sender, x: second.0, y: second.1 },
            after,
            second_pushes,
        ),
    ensures
        after[sender].current_cell == Some(second),
        after == table.insert(sender, moved_to(table[sender], second.0, second.1)),
{
    assert(after =~= table.insert(sender, moved_to(table[sender], second.0, second.1)));
}

/// What a newcomer is told on joining: the cursor of every other session of
/// its room that has reported one, each once, and nothing else. In
/// particular it is told nothing of sessions without a reported position, of
/// other rooms, or of itself.
pub proof fn law_newcomer_learns_cursors(
    table: Map<u128, Session>,
    newcomer: Session,
    pushes: Seq<PushView>,
)
    requires
        table.dom().finite(),
        is_snapshot(pushes, table, newcomer),
    ensures
        forall|id: u128|
            table.contains_key(id) && id != newcomer.id && in_room(
                table[id],
                newcomer.team,
                newcomer.crossword,
            ) && table[id].current_cell is Some ==> pushes.contains(
                PushView { to: newcomer.id, message: #[trigger] cursor_of(table[id]) },
            ),
        forall|i: int|
            0 <= i < pushes.len() ==> (#[trigger] pushes[i]).to == newcomer.id && exists|id: u128|
                #[trigger] neighbours_with_cursor(table, newcomer).contains(id)
                    && pushes[i].message == cursor_of(table[id]),
        pushes.len() == neighbours_with_cursor(table, newcomer).len(),
{
    let neighbours = neighbours_with_cursor(table, newcomer);
    let order = choose|order: Seq<u128>|
        #[trigger] enumerates(order, neighbours) && pushes == cursor_pushes(
            order,
            table,
            newcomer.id,
        );
    assert forall|id: u128|
        table.contains_key(id) && id != newcomer.id && in_room(
            table[id],
            newcomer.team,
            newcomer.crossword,
        ) && table[id].current_cell is Some implies pushes.contains(
        PushView { to: newcomer.id, message: #[trigger] cursor_of(table[id]) },
    ) by {
        assert(neighbours.contains(id));
        assert(order.to_set().contains(id));
        let i = choose|i: int| 0 <= i < order.len() && order[i] == id;
        assert(pushes[i] == PushView { to: newcomer.id, message: cursor_of(table[id]) });
    }
    assert forall|i: int| 0 <= i < pushes.len() implies (#[trigger] pushes[i]).to == newcomer.id
        && exists|id: u128|
        #[trigger] neighbours.contains(id) && pushes[i].message == cursor_of(table[id]) by {
        assert(order.to_set().contains(order[i]));
        assert(neighbours.contains(order[i]));
    }
    order.unique_seq_to_set();
}

/// Identifiers stay unique: a table that files every session under its own
/// identifier still does so after any command, provided a session that
/// connects is handed in under its own identifier, as it always is.
pub proof fn law_ids_stay_unique(
    pre: Map<u128, Session>,
    command: Command,
    post: Map<u128, Session>,
    pushes: Seq<PushView>,
)
    requires
        registry_valid(pre),
        step(pre, command, post, pushes),
    ensures
        registry_valid(post),
{
}

/// A session never changes room: as long as it stays in the table, its
/// identifier, team, crossword and user are what they were.
pub proof fn law_room_is_fixed(
    pre: Map<u128, Session>,
    command: Command,
    post: Map<u128, Session>,
    pushes: Seq<PushView>,
    id: u128,
)
    requires
        step(pre, command, post, pushes),
        pre.contains_key(id),
        post.contains_key(id),
    ensures
        post[id].id == pre[id].id,
        post[id].team == pre[id].team,
        post[id].crossword == pre[id].crossword,
        post[id].user == pre[id].user,
{
}

} // verus!
