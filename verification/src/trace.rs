//! A ghost model of one game's interaction protocol.
//!
//! The simulation loop records, in ghost code, one `Event` for every call it
//! makes at the strategy boundary and every observation of the game-over
//! predicate.  `is_game_trace` pins the exact shape such a record must have,
//! and the lemmas below restate the guarantees a caller may read off it:
//! every seat is initialized exactly once before any decision, every
//! decision is applied and then broadcast exactly once to every seat with
//! the same `Turn`, and nothing happens after the game is seen to be over.

use vstd::prelude::*;

use crate::game::{Player, Turn};

verus! {

/// One call or observation the simulation loop makes, in program order.
pub enum Event {
    /// `initialize` was called for this seat, before any turn was taken.
    Initialize { player: Player },
    /// The game-over predicate was consulted and reported `over`.
    Observe { over: bool },
    /// The acting seat's `decide` returned this turn's choice.
    Decide { turn: Turn },
    /// The choice was applied to the authoritative game state.
    Apply { turn: Turn },
    /// `update` was called for this seat with the turn just applied.
    Update { player: Player, turn: Turn },
}

/// One `Initialize` event per seat, in seat order.
pub open spec fn init_events(seats: Seq<Player>) -> Seq<Event> {
    Seq::new(seats.len(), |i: int| Event::Initialize { player: seats[i] })
}

/// One `Update` event per seat for the given turn, in seat order.
pub open spec fn update_events(seats: Seq<Player>, turn: Turn) -> Seq<Event> {
    Seq::new(seats.len(), |i: int| Event::Update { player: seats[i], turn })
}

/// The events of one complete turn: the loop sees the game is not over,
/// asks the acting seat to decide, applies the choice, and only then
/// broadcasts the turn to every seat.
pub open spec fn turn_events(seats: Seq<Player>, turn: Turn) -> Seq<Event> {
    seq![
        Event::Observe { over: false },
        Event::Decide { turn },
        Event::Apply { turn },
    ] + update_events(seats, turn)
}

/// The events of a sequence of complete turns.
pub open spec fn rounds_events(seats: Seq<Player>, turns: Seq<Turn>) -> Seq<Event>
    decreases turns.len(),
{
    if turns.len() == 0 {
        Seq::empty()
    } else {
        rounds_events(seats, turns.drop_last()) + turn_events(seats, turns.last())
    }
}

/// Every recorded turn was taken by one of the game's seats.
pub open spec fn turns_seated(seats: Seq<Player>, turns: Seq<Turn>) -> bool {
    forall|k: int| 0 <= k < turns.len() ==> seats.contains(#[trigger] turns[k].player)
}

/// The full record of one game: every seat initialized first, then complete
/// turns until the game-over predicate is seen to hold, and nothing after.
pub open spec fn game_events(seats: Seq<Player>, turns: Seq<Turn>) -> Seq<Event> {
    init_events(seats) + rounds_events(seats, turns) + seq![Event::Observe { over: true }]
}

/// `trace` is the record of one complete game over these seats.
pub open spec fn is_game_trace(trace: Seq<Event>, seats: Seq<Player>) -> bool {
    exists|turns: Seq<Turn>|
        #[trigger] game_events(seats, turns) == trace && turns_seated(seats, turns)
}

/// Within the events of any turn sequence there is no `Initialize`, and the
/// only `Observe` events report the game as still running.
proof fn lemma_rounds_events_kinds(seats: Seq<Player>, turns: Seq<Turn>)
    ensures
        forall|i: int| 0 <= i < rounds_events(seats, turns).len()
            ==> !((#[trigger] rounds_events(seats, turns)[i]) is Initialize)
                && !(rounds_events(seats, turns)[i] == (Event::Observe { over: true })),
    decreases turns.len(),
{
    if turns.len() > 0 {
        lemma_rounds_events_kinds(seats, turns.drop_last());
        let prefix = rounds_events(seats, turns.drop_last());
        let block = turn_events(seats, turns.last());
        assert forall|i: int| 0 <= i < rounds_events(seats, turns).len()
            implies !((#[trigger] rounds_events(seats, turns)[i]) is Initialize)
                && !(rounds_events(seats, turns)[i] == (Event::Observe { over: true })) by {
            if i >= prefix.len() {
                assert(rounds_events(seats, turns)[i] == block[i - prefix.len()]);
            }
        }
    }
}

/// Exactly one `initialize` call per seat happens, in seat order, before
/// anything else; in particular every `decide` comes after all of them.
pub proof fn lemma_initialization_first(trace: Seq<Event>, seats: Seq<Player>)
    requires
        is_game_trace(trace, seats),
    ensures
        trace.len() > seats.len(),
        forall|i: int| 0 <= i < seats.len()
            ==> trace[i] == (Event::Initialize { player: seats[i] }),
        forall|i: int| seats.len() <= i < trace.len()
            ==> !((#[trigger] trace[i]) is Initialize),
        forall|i: int| 0 <= i < trace.len() && (#[trigger] trace[i]) is Decide
            ==> i >= seats.len(),
{
    let turns = choose|turns: Seq<Turn>|
        #[trigger] game_events(seats, turns) == trace && turns_seated(seats, turns);
    lemma_rounds_events_kinds(seats, turns);
    let inits = init_events(seats);
    let rounds = rounds_events(seats, turns);
    assert forall|i: int| seats.len() <= i < trace.len()
        implies !((#[trigger] trace[i]) is Initialize) by {
        if i < inits.len() + rounds.len() {
            assert(trace[i] == rounds[i - inits.len()]);
        } else {
            assert(trace[i] == (Event::Observe { over: true }));
        }
    }
}

/// What "the decision was broadcast" means at position `i` of a trace: the
/// decided turn is applied first, and then every seat, in seat order,
/// receives exactly one `update` call carrying that same turn.
pub open spec fn decide_is_broadcast(trace: Seq<Event>, seats: Seq<Player>, i: int) -> bool
    recommends
        0 <= i < trace.len(),
        trace[i] is Decide,
{
    let turn = trace[i]->Decide_turn;
    &&& seats.contains(turn.player)
    &&& i + 2 + seats.len() <= trace.len()
    &&& trace[i + 1] == (Event::Apply { turn })
    &&& forall|j: int| 0 <= j < seats.len()
        ==> trace[i + 2 + j] == (Event::Update { player: seats[j], turn })
}

/// `decide_is_broadcast` holds at every `Decide` of any turn-block sequence.
proof fn lemma_rounds_decide_is_broadcast(seats: Seq<Player>, turns: Seq<Turn>)
    requires
        turns_seated(seats, turns),
    ensures
        forall|i: int|
            0 <= i < rounds_events(seats, turns).len()
                && (#[trigger] rounds_events(seats, turns)[i]) is Decide
            ==> decide_is_broadcast(rounds_events(seats, turns), seats, i),
    decreases turns.len(),
{
    if turns.len() > 0 {
        let sub = turns.drop_last();
        let t = turns.last();
        assert(turns_seated(seats, sub));
        lemma_rounds_decide_is_broadcast(seats, sub);
        let prefix = rounds_events(seats, sub);
        let block = turn_events(seats, t);
        let whole = rounds_events(seats, turns);
        assert(whole == prefix + block);
        assert forall|i: int|
            0 <= i < whole.len() && (#[trigger] whole[i]) is Decide
            implies decide_is_broadcast(whole, seats, i) by {
            if i < prefix.len() {
                assert(prefix[i] is Decide);
                assert(decide_is_broadcast(prefix, seats, i));
                let turn = prefix[i]->Decide_turn;
                assert(whole[i + 1] == prefix[i + 1]);
                assert forall|j: int| 0 <= j < seats.len()
                    implies whole[i + 2 + j] == (Event::Update { player: seats[j], turn }) by {
                    assert(whole[i + 2 + j] == prefix[i + 2 + j]);
                }
            } else {
                let k = i - prefix.len();
                assert(whole[i] == block[k]);
                assert(block[1] is Decide);
                assert(!(block[0] is Decide) && !(block[2] is Decide));
                assert forall|j: int| 3 <= j < block.len() implies !(block[j] is Decide) by {
                    assert(block[j] == update_events(seats, t)[j - 3]);
                }
                assert(k == 1);
                let turn = block[1]->Decide_turn;
                assert(turn == t);
                assert(seats.contains(t.player));
                assert(i + 2 + seats.len() == prefix.len() + block.len());
                assert(whole[i + 1] == block[2]);
                assert forall|j: int| 0 <= j < seats.len()
                    implies whole[i + 2 + j] == (Event::Update { player: seats[j], turn }) by {
                    assert(whole[i + 2 + j] == block[3 + j]);
                    assert(block[3 + j] == update_events(seats, t)[j]);
                }
            }
        }
    }
}

/// Every turn's `decide` is followed by the application of that same turn
/// and then exactly one `update` per seat, all carrying the same `Turn`.
pub proof fn lemma_decide_is_broadcast(trace: Seq<Event>, seats: Seq<Player>)
    requires
        is_game_trace(trace, seats),
    ensures
        forall|i: int| 0 <= i < trace.len() && (#[trigger] trace[i]) is Decide
            ==> decide_is_broadcast(trace, seats, i),
{
    let turns = choose|turns: Seq<Turn>|
        #[trigger] game_events(seats, turns) == trace && turns_seated(seats, turns);
    lemma_rounds_decide_is_broadcast(seats, turns);
    lemma_initialization_first(trace, seats);
    let inits = init_events(seats);
    let rounds = rounds_events(seats, turns);
    assert forall|i: int| 0 <= i < trace.len() && (#[trigger] trace[i]) is Decide
        implies decide_is_broadcast(trace, seats, i) by {
        assert(i >= inits.len());
        if i < inits.len() + rounds.len() {
            let k = i - inits.len();
            assert(trace[i] == rounds[k]);
            assert(decide_is_broadcast(rounds, seats, k));
            let turn = rounds[k]->Decide_turn;
            assert(trace[i + 1] == rounds[k + 1]);
            assert forall|j: int| 0 <= j < seats.len()
                implies trace[i + 2 + j] == (Event::Update { player: seats[j], turn }) by {
                assert(trace[i + 2 + j] == rounds[k + 2 + j]);
            }
        } else {
            assert(trace[i] == (Event::Observe { over: true }));
        }
    }
}

/// The terminal observation is absorbing: the game-over predicate is seen
/// to hold exactly once, as the very last event, so no `decide` (indeed no
/// call at all) ever follows it.
pub proof fn lemma_terminal_is_absorbing(trace: Seq<Event>, seats: Seq<Player>)
    requires
        is_game_trace(trace, seats),
    ensures
        forall|i: int| 0 <= i < trace.len() && trace[i] == (Event::Observe { over: true })
            ==> i == trace.len() - 1,
        forall|i: int, j: int|
            0 <= i < j < trace.len() && (#[trigger] trace[i]) == (Event::Observe { over: true })
            ==> !((#[trigger] trace[j]) is Decide),
{
    let turns = choose|turns: Seq<Turn>|
        #[trigger] game_events(seats, turns) == trace && turns_seated(seats, turns);
    lemma_rounds_events_kinds(seats, turns);
    let inits = init_events(seats);
    let rounds = rounds_events(seats, turns);
    assert forall|i: int| 0 <= i < trace.len() && trace[i] == (Event::Observe { over: true })
        implies i == trace.len() - 1 by {
        if i < inits.len() {
            assert(trace[i] == (Event::Initialize { player: seats[i] }));
        } else if i < inits.len() + rounds.len() {
            assert(trace[i] == rounds[i - inits.len()]);
        }
    }
}

} // verus!
