//! The turn-based simulation loop and the trial aggregator.
//!
//! `run_game` drives one game to completion and returns, besides the score,
//! a ghost record of every call it made at the strategy boundary; its
//! contract states that the record is a complete, well-formed game trace
//! (see `crate::trace`).  The aggregation functions run many independent
//! games and reduce the scores to an exact total; the arithmetic mean is
//! that total divided by the trial count.

use vstd::prelude::*;

use crate::game::{Game, GameOptions, Player, Score, Turn};
use crate::registry::Registry;
use crate::strategies::{Strategy, StrategyConfig};
use crate::trace::{
    init_events, is_game_trace, game_events, rounds_events, turn_events, turns_seated,
    update_events, Event,
};

verus! {

/// Run one game to completion: construct the authoritative state, create
/// one private state per seat, then alternate decide / apply / broadcast
/// until the rules engine reports the game over, and read off the score.
///
/// Besides the score, the result carries the game's seats and the ghost
/// trace of every boundary call, pinned by `is_game_trace` to the exact
/// protocol: one `initialize` per seat first, complete turns only, and
/// nothing after the terminal observation.
pub fn run_game<G: Game, C: StrategyConfig<G::View>>(opts: &GameOptions, cfg: &C) -> (r: (
    Score,
    Ghost<Seq<Player>>,
    Ghost<Seq<Event>>,
))
    ensures
        r.1@.len() == opts.num_players as int,
        r.1@.no_duplicates(),
        is_game_trace(r.2@, r.1@),
{
    let mut game = G::new(opts);
    let players = game.get_players();
    let ghost seats = players@;
    let mut registry: Registry<C::State> = Registry::new();
    let ghost mut trace: Seq<Event> = Seq::empty();

    let mut i: usize = 0;
    while i < players.len()
        invariant
            i <= players.len(),
            players@ == seats,
            seats.no_duplicates(),
            game.seats() == seats,
            registry.wf(),
            registry.all_present(),
            registry.seats() == seats.take(i as int),
            trace == init_events(seats.take(i as int)),
        decreases players.len() - i,
    {
        let p = players[i];
        proof {
            assert(seats.contains(seats[i as int]));
            assert forall|j: int| 0 <= j < i as int implies seats.take(i as int)[j] != p by {
                assert(seats[j] != seats[i as int]);
            }
            assert(!registry.seats().contains(p));
        }
        let view = game.get_view(p);
        let state = cfg.initialize(&p, &view);
        registry.register(p, state);
        proof {
            trace = trace + seq![Event::Initialize { player: p }];
            assert(registry.seats() =~= seats.take(i as int + 1));
            assert(trace =~= init_events(seats.take(i as int + 1)));
        }
        i = i + 1;
    }
    proof {
        assert(seats.take(players@.len() as int) =~= seats);
        assert(trace =~= init_events(seats));
    }

    let ghost mut turns: Seq<Turn> = Seq::empty();
    loop
        invariant_except_break
            players@ == seats,
            seats.no_duplicates(),
            game.seats() == seats,
            registry.wf(),
            registry.all_present(),
            registry.seats() == seats,
            turns_seated(seats, turns),
            trace == init_events(seats) + rounds_events(seats, turns),
        ensures
            game.done(),
            game.seats() == seats,
            turns_seated(seats, turns),
            trace == game_events(seats, turns),
        decreases game.turns_left(),
    {
        let over = game.is_over();
        proof {
            trace = trace + seq![Event::Observe { over }];
        }
        if over {
            proof {
                assert(trace =~= game_events(seats, turns));
            }
            break;
        }

        let p = game.current_player();
        let view = game.get_view(p);
        let ghost s0 = registry.slots();
        let ghost pos = registry.pos(p);
        let mut state = registry.take(p);
        let choice = cfg.decide(&mut state, &p, &view);
        registry.put(p, state);
        proof {
            assert forall|k: int| 0 <= k < registry.slots().len()
                implies registry.slots()[k] is Some by {
                if k != pos {
                    assert(registry.slots()[k] == s0[k]);
                }
            }
        }
        game.process_choice(&choice);
        let turn = Turn { player: p, choice };
        proof {
            trace = trace + seq![Event::Decide { turn }, Event::Apply { turn }];
        }
        let ghost base = trace;

        let mut j: usize = 0;
        while j < players.len()
            invariant
                j <= players.len(),
                players@ == seats,
                seats.no_duplicates(),
                game.seats() == seats,
                registry.wf(),
                registry.all_present(),
                registry.seats() == seats,
                trace == base + update_events(seats, turn).take(j as int),
            decreases players.len() - j,
        {
            let q = players[j];
            proof {
                assert(seats.contains(seats[j as int]));
            }
            let view_q = game.get_view(q);
            let ghost sq = registry.slots();
            let ghost pos_q = registry.pos(q);
            let mut state_q = registry.take(q);
            cfg.update(&mut state_q, &turn, &view_q);
            registry.put(q, state_q);
            proof {
                assert forall|k: int| 0 <= k < registry.slots().len()
                    implies registry.slots()[k] is Some by {
                    if k != pos_q {
                        assert(registry.slots()[k] == sq[k]);
                    }
                }
                trace = trace + seq![Event::Update { player: q, turn }];
                assert(trace =~= base + update_events(seats, turn).take(j as int + 1));
            }
            j = j + 1;
        }
        proof {
            assert(update_events(seats, turn).take(players@.len() as int)
                =~= update_events(seats, turn));
            let prev = turns;
            turns = turns.push(turn);
            assert(turns.drop_last() =~= prev);
            assert(turns.last() == turn);
            assert(rounds_events(seats, turns)
                == rounds_events(seats, prev) + turn_events(seats, turn));
            assert(trace =~= init_events(seats) + rounds_events(seats, turns));
            assert forall|k: int| 0 <= k < turns.len()
                implies seats.contains(#[trigger] turns[k].player) by {
                if k < prev.len() {
                    assert(turns[k] == prev[k]);
                } else {
                    assert(turns[k] == turn);
                }
            }
        }
    }

    let score = game.score();
    proof {
        assert(is_game_trace(trace, seats));
    }
    (score, Ghost(seats), Ghost(trace))
}

/// Run one game in which every seat runs the policy type `S`, each seat
/// with its own independent `InternalState`: the entry point for a strategy
/// assignment fixed at compile time.  Returns the score together with the
/// same ghost record `run_game` gives.
pub fn simulate_once<G: Game, S: Strategy<G::View>>(opts: &GameOptions, strategy: &S) -> (r: (
    Score,
    Ghost<Seq<Player>>,
    Ghost<Seq<Event>>,
))
    ensures
        r.1@.len() == opts.num_players as int,
        r.1@.no_duplicates(),
        is_game_trace(r.2@, r.1@),
{
    run_game::<G, S>(opts, strategy)
}

/// The exact sum of a sequence of game scores.
pub open spec fn score_sum(scores: Seq<Score>) -> int
    decreases scores.len(),
{
    if scores.len() == 0 {
        0
    } else {
        score_sum(scores.drop_last()) + scores.last()
    }
}

/// A trace is the complete record of one game over some duplicate-free
/// seating of `num_players` seats.
pub open spec fn trial_trace_ok(num_players: int, trace: Seq<Event>) -> bool {
    exists|seats: Seq<Player>|
        seats.len() == num_players && seats.no_duplicates() && #[trigger] is_game_trace(
            trace,
            seats,
        )
}

/// Run `n_trials` independent games from one configuration, one fresh game
/// and registry per trial, and collect each game's score in order.  The
/// ghost record holds every trial's full boundary trace.
pub fn run_trials<G: Game, C: StrategyConfig<G::View>>(
    opts: &GameOptions,
    cfg: &C,
    n_trials: u32,
) -> (r: (Vec<Score>, Ghost<Seq<Seq<Event>>>))
    ensures
        r.0@.len() == n_trials as int,
        r.1@.len() == n_trials as int,
        forall|k: int| 0 <= k < n_trials as int
            ==> trial_trace_ok(opts.num_players as int, #[trigger] r.1@[k]),
{
    let mut scores: Vec<Score> = Vec::new();
    let ghost mut traces: Seq<Seq<Event>> = Seq::empty();
    let mut t: u32 = 0;
    while t < n_trials
        invariant
            t <= n_trials,
            scores@.len() == t as int,
            traces.len() == t as int,
            forall|k: int| 0 <= k < t as int
                ==> trial_trace_ok(opts.num_players as int, #[trigger] traces[k]),
        decreases n_trials - t,
    {
        let (score, _seats, trace) = run_game::<G, C>(opts, cfg);
        scores.push(score);
        proof {
            traces = traces.push(trace@);
            assert(trial_trace_ok(opts.num_players as int, trace@));
        }
        t = t + 1;
    }
    (scores, Ghost(traces))
}

/// Add up a batch of trial scores without overflow: the total is the exact
/// mathematical sum.
pub fn sum_scores(scores: &Vec<Score>) -> (total: u64)
    requires
        scores@.len() <= 0x1_0000_0000,
    ensures
        total as int == score_sum(scores@),
{
    let mut total: u64 = 0;
    let mut i: usize = 0;
    while i < scores.len()
        invariant
            i <= scores@.len(),
            scores@.len() <= 0x1_0000_0000,
            total as int == score_sum(scores@.take(i as int)),
            total as int <= i as int * 0xffff_ffff,
        decreases scores.len() - i,
    {
        proof {
            assert(scores@.take(i as int + 1).drop_last() =~= scores@.take(i as int));
            assert(scores@.take(i as int + 1).last() == scores@[i as int]);
            assert((i as int + 1) * 0xffff_ffff <= 0xffff_ffff_0000_0000i128) by (nonlinear_arith)
                requires
                    i as int + 1 <= 0x1_0000_0000,
            ;
        }
        total = total + scores[i] as u64;
        i = i + 1;
    }
    proof {
        assert(scores@.take(scores@.len() as int) =~= scores@);
    }
    total
}

/// The arithmetic mean of a batch total, as an exact integer quotient and
/// remainder: `total == q * n_trials + r` with `r < n_trials`.  A caller
/// that wants the mean as a fraction divides outside this crate.
pub fn mean_score(total: u64, n_trials: u32) -> (avg: (u64, u64))
    requires
        n_trials > 0,
    ensures
        avg.0 == total as int / n_trials as int,
        avg.1 == total as int % n_trials as int,
        total as int == avg.0 * n_trials as int + avg.1,
        avg.1 < n_trials as int,
{
    let q = total / (n_trials as u64);
    let r = total % (n_trials as u64);
    proof {
        vstd::arithmetic::div_mod::lemma_fundamental_div_mod(total as int, n_trials as int);
        assert(total as int == n_trials as int * (total as int / n_trials as int) + total as int
            % n_trials as int);
        assert(q as int == total as int / n_trials as int);
        assert(r as int == total as int % n_trials as int);
        assert(n_trials as int * q as int == q as int * n_trials as int) by (nonlinear_arith);
    }
    (q, r)
}

/// Run `n_trials` independent games, every seat running the same policy
/// type, and reduce the scores: the total returned is the exact sum of the
/// per-trial scores carried in the ghost record, so the batch's mean score
/// is the total divided by `n_trials`.
pub fn simulate<G: Game, S: Strategy<G::View>>(
    opts: &GameOptions,
    strategy: &S,
    n_trials: u32,
) -> (r: (u64, Ghost<Seq<Score>>, Ghost<Seq<Seq<Event>>>))
    ensures
        r.1@.len() == n_trials as int,
        r.0 as int == score_sum(r.1@),
        r.2@.len() == n_trials as int,
        forall|k: int| 0 <= k < n_trials as int
            ==> trial_trace_ok(opts.num_players as int, #[trigger] r.2@[k]),
{
    simulate_symmetric::<G, S>(opts, strategy, n_trials)
}

/// Symmetric-mode aggregation: every seat's policy is built from the one
/// shared configuration value, each trial and each seat with independent
/// internal state.  The reduction is the same as `simulate`'s.
pub fn simulate_symmetric<G: Game, C: StrategyConfig<G::View>>(
    opts: &GameOptions,
    cfg: &C,
    n_trials: u32,
) -> (r: (u64, Ghost<Seq<Score>>, Ghost<Seq<Seq<Event>>>))
    ensures
        r.1@.len() == n_trials as int,
        r.0 as int == score_sum(r.1@),
        r.2@.len() == n_trials as int,
        forall|k: int| 0 <= k < n_trials as int
            ==> trial_trace_ok(opts.num_players as int, #[trigger] r.2@[k]),
{
    let (scores, traces) = run_trials::<G, C>(opts, cfg, n_trials);
    let total = sum_scores(&scores);
    (total, Ghost(scores@), traces)
}

} // verus!
