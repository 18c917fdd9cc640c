use std::cell::Cell;

use hanabi_sim::game::{Game, GameOptions, Player, Score, Turn, TurnChoice};
use hanabi_sim::registry::Registry;
use hanabi_sim::simulator::{
    mean_score, run_game, run_trials, simulate, simulate_once, sum_scores,
};
use hanabi_sim::strategies::{AlwaysPlay, StrategyConfig};

/// A small deterministic rules engine for exercising the simulator: the
/// game lasts exactly `num_players * hand_size` turns, seats act round
/// robin, and every played card scores one point.  Its valid score range is
/// `0..=num_players * hand_size`.
struct TestGame {
    num_players: u32,
    turns_left: u32,
    current: u32,
    points: u32,
}

/// The seat-scoped projection of `TestGame`: who is observing, how many
/// turns remain, and whose turn it is.
struct TestView {
    observer: Player,
    turns_left: u32,
    current: u32,
}

impl Game for TestGame {
    type View = TestView;

    // the ghost functions of the trait exist only for verification and are
    // never called at runtime
    fn seats(&self) -> vstd::prelude::Seq<Player> {
        panic!("ghost function")
    }

    fn done(&self) -> bool {
        panic!("ghost function")
    }

    fn turns_left(&self) -> vstd::prelude::nat {
        panic!("ghost function")
    }

    fn new(opts: &GameOptions) -> TestGame {
        TestGame {
            num_players: opts.num_players,
            turns_left: opts.num_players * opts.hand_size,
            current: 0,
            points: 0,
        }
    }

    fn get_players(&self) -> Vec<Player> {
        (0..self.num_players).collect()
    }

    fn is_over(&self) -> bool {
        self.turns_left == 0
    }

    fn current_player(&self) -> Player {
        self.current
    }

    fn get_view(&self, player: Player) -> TestView {
        TestView { observer: player, turns_left: self.turns_left, current: self.current }
    }

    fn process_choice(&mut self, choice: &TurnChoice) {
        if let TurnChoice::Play(_) = choice {
            self.points += 1;
        }
        self.turns_left -= 1;
        self.current = (self.current + 1) % self.num_players;
    }

    fn score(&self) -> Score {
        self.points
    }
}

/// A strategy configuration that always answers with a fixed choice and
/// records how the simulator drove it: call counts, ordering, whether every
/// call carried the calling seat's own state and view, whether every
/// broadcast carried the just-decided turn against the post-choice state,
/// and whether a decision was ever requested of a finished game.
struct CountingConfig {
    choice: TurnChoice,
    inits: Cell<u32>,
    decides: Cell<u32>,
    updates: Cell<u32>,
    inits_at_first_decide: Cell<u32>,
    last_turn: Cell<Option<Turn>>,
    turns_left_at_decide: Cell<u32>,
    isolation_ok: Cell<bool>,
    broadcast_ok: Cell<bool>,
    decided_when_over: Cell<bool>,
}

impl CountingConfig {
    fn new(choice: TurnChoice) -> CountingConfig {
        CountingConfig {
            choice,
            inits: Cell::new(0),
            decides: Cell::new(0),
            updates: Cell::new(0),
            inits_at_first_decide: Cell::new(0),
            last_turn: Cell::new(None),
            turns_left_at_decide: Cell::new(0),
            isolation_ok: Cell::new(true),
            broadcast_ok: Cell::new(true),
            decided_when_over: Cell::new(false),
        }
    }
}

impl StrategyConfig<TestView> for CountingConfig {
    type State = Player;

    fn initialize(&self, player: &Player, view: &TestView) -> Player {
        self.inits.set(self.inits.get() + 1);
        if view.observer != *player {
            self.isolation_ok.set(false);
        }
        *player
    }

    fn decide(&self, state: &mut Player, player: &Player, view: &TestView) -> TurnChoice {
        if self.decides.get() == 0 {
            self.inits_at_first_decide.set(self.inits.get());
        }
        self.decides.set(self.decides.get() + 1);
        if *state != *player || view.observer != *player || view.current != *player {
            self.isolation_ok.set(false);
        }
        if view.turns_left == 0 {
            self.decided_when_over.set(true);
        }
        self.turns_left_at_decide.set(view.turns_left);
        self.last_turn.set(Some(Turn { player: *player, choice: self.choice }));
        self.choice
    }

    fn update(&self, state: &mut Player, turn: &Turn, view: &TestView) {
        self.updates.set(self.updates.get() + 1);
        if *state != view.observer {
            self.isolation_ok.set(false);
        }
        match self.last_turn.get() {
            Some(expected) => {
                if *turn != expected {
                    self.broadcast_ok.set(false);
                }
            }
            None => {
                self.broadcast_ok.set(false);
            }
        }
        if view.turns_left != self.turns_left_at_decide.get() - 1 {
            self.broadcast_ok.set(false);
        }
    }
}

fn opts_4p() -> GameOptions {
    GameOptions { num_players: 4, hand_size: 4, num_hints: 8, num_lives: 3 }
}

#[test]
fn registry_hands_back_each_seats_own_state() {
    let mut reg: Registry<String> = Registry::new();
    reg.register(7, String::from("seven"));
    reg.register(2, String::from("two"));
    reg.register(9, String::from("nine"));
    let s = reg.take(2);
    assert_eq!(s, "two");
    reg.put(2, s);
    let s = reg.take(9);
    assert_eq!(s, "nine");
    reg.put(9, s);
    let s = reg.take(7);
    assert_eq!(s, "seven");
    reg.put(7, s);
}

#[test]
fn always_play_single_trial_scores_in_range() {
    let opts = opts_4p();
    let (score, _seats, _trace) = simulate_once::<TestGame, AlwaysPlay>(&opts, &AlwaysPlay);
    // every one of the 16 turns plays a card, and each play scores a point
    assert_eq!(score, 16);
    assert!(score <= opts.num_players * opts.hand_size);
}

#[test]
fn every_seat_initialized_before_first_decide() {
    let opts = opts_4p();
    let cfg = CountingConfig::new(TurnChoice::Play(0));
    let (score, _seats, _trace) = run_game::<TestGame, CountingConfig>(&opts, &cfg);
    assert_eq!(score, 16);
    assert_eq!(cfg.inits.get(), 4);
    assert_eq!(cfg.inits_at_first_decide.get(), 4);
    assert!(cfg.isolation_ok.get());
}

#[test]
fn every_decide_is_broadcast_to_every_seat() {
    let opts = GameOptions { num_players: 3, hand_size: 5, num_hints: 8, num_lives: 3 };
    let cfg = CountingConfig::new(TurnChoice::Discard(1));
    let (score, _seats, _trace) = run_game::<TestGame, CountingConfig>(&opts, &cfg);
    assert_eq!(score, 0);
    assert_eq!(cfg.decides.get(), 15);
    assert_eq!(cfg.updates.get(), 15 * 3);
    assert!(cfg.broadcast_ok.get());
    assert!(cfg.isolation_ok.get());
}

#[test]
fn no_decide_after_game_over() {
    let opts = opts_4p();
    let cfg = CountingConfig::new(TurnChoice::Hint(0));
    let (_score, _seats, _trace) = run_game::<TestGame, CountingConfig>(&opts, &cfg);
    assert!(!cfg.decided_when_over.get());

    // a game that is over before the first turn: seats are still
    // initialized, but no decision is ever requested
    let empty = GameOptions { num_players: 2, hand_size: 0, num_hints: 8, num_lives: 3 };
    let cfg = CountingConfig::new(TurnChoice::Play(0));
    let (score, _seats, _trace) = run_game::<TestGame, CountingConfig>(&empty, &cfg);
    assert_eq!(score, 0);
    assert_eq!(cfg.inits.get(), 2);
    assert_eq!(cfg.decides.get(), 0);
    assert_eq!(cfg.updates.get(), 0);
}

#[test]
fn aggregator_runs_each_trial_and_sums_exactly() {
    let opts = opts_4p();
    let (scores, _traces) = run_trials::<TestGame, AlwaysPlay>(&opts, &AlwaysPlay, 5);
    assert_eq!(scores.len(), 5);
    for s in &scores {
        assert_eq!(*s, 16);
    }
    let total = sum_scores(&scores);
    assert_eq!(total, 80);

    let (total, _scores, _traces) = simulate::<TestGame, AlwaysPlay>(&opts, &AlwaysPlay, 5);
    assert_eq!(total, 80);
    assert_eq!(mean_score(total, 5), (16, 0));
    assert_eq!(mean_score(7, 2), (3, 1));
    let mean = total as f64 / 5.0;
    assert_eq!(mean, 16.0);
}

#[test]
fn aggregator_zero_and_one_trials() {
    let opts = opts_4p();
    let (total, _scores, _traces) = simulate::<TestGame, AlwaysPlay>(&opts, &AlwaysPlay, 0);
    assert_eq!(total, 0);
    let (total, _scores, _traces) = simulate::<TestGame, AlwaysPlay>(&opts, &AlwaysPlay, 1);
    assert_eq!(total, 16);
}

/// A heterogeneous roster through one configuration: seat 0 always plays,
/// every other seat always discards.
struct SeatSplitConfig;

impl StrategyConfig<TestView> for SeatSplitConfig {
    type State = ();

    fn initialize(&self, _player: &Player, _view: &TestView) {}

    fn decide(&self, _state: &mut (), player: &Player, _view: &TestView) -> TurnChoice {
        if *player == 0 {
            TurnChoice::Play(0)
        } else {
            TurnChoice::Discard(0)
        }
    }

    fn update(&self, _state: &mut (), _turn: &Turn, _view: &TestView) {}
}

#[test]
fn heterogeneous_roster_by_seat_identity() {
    let opts = opts_4p();
    let (score, _seats, _trace) = run_game::<TestGame, SeatSplitConfig>(&opts, &SeatSplitConfig);
    // seat 0 acts on 4 of the 16 turns and only its plays score
    assert_eq!(score, 4);
}

#[test]
fn single_seat_game_works() {
    let opts = GameOptions { num_players: 1, hand_size: 3, num_hints: 8, num_lives: 3 };
    let cfg = CountingConfig::new(TurnChoice::Play(2));
    let (score, _seats, _trace) = run_game::<TestGame, CountingConfig>(&opts, &cfg);
    assert_eq!(score, 3);
    assert_eq!(cfg.inits.get(), 1);
    assert_eq!(cfg.decides.get(), 3);
    assert_eq!(cfg.updates.get(), 3);
}
