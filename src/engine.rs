use std::collections::VecDeque;

use vstd::prelude::*;
use vstd::string::StringExecFns;

use crate::app::{
    applied, clamped_col, clamped_row, cursor_ok, is_move, lemma_applied_valid,
    lemma_clamp_idempotent, lemma_clamp_valid, move_dest, quits, Action, App,
};
use crate::model::Board;

verus! {

/// How many moves may wait behind the one being confirmed.
pub const MAX_QUEUE_SIZE: usize = 64;

/// A move applied on screen and waiting for the store to confirm it.
pub struct PendingMove {
    pub card_id: String,
    pub to_col_id: String,
}

/// What the worker reports for the move it was handed.
pub enum MoveOutcome {
    /// The store made the move.
    Confirmed,
    /// The store refused the move; this is the board it holds now.
    Resynced(Board),
    /// The store refused the move and its board could not be read either.
    Rejected(String),
    /// The worker ended without reporting.
    WorkerFailed,
}

/// What the event loop has to do after a step.
pub enum Effect {
    /// Nothing beyond drawing the view.
    Nothing,
    /// Hand this move to a fresh worker.
    Dispatch(PendingMove),
    /// Read the board from the store and report it through `on_reload`.
    Reload,
    /// Leave the program.
    Exit,
}

/// The digit character for `d < 10`.
pub open spec fn digit_char(d: nat) -> char {
    seq!['0', '1', '2', '3', '4', '5', '6', '7', '8', '9'][d as int]
}

/// The decimal digits of `n`, without leading zeros.
pub open spec fn decimal_text(n: nat) -> Seq<char>
    decreases n,
{
    if n < 10 {
        seq![digit_char(n)]
    } else {
        decimal_text(n / 10).push(digit_char(n % 10))
    }
}

/// Relies on `usize`'s `ToString` (its `Display`): the decimal digits of `n`.
#[verifier::external_body]
fn decimal(n: usize) -> (r: String)
    ensures
        r@ == decimal_text(n as nat),
{
    n.to_string()
}

/// The notice while a move is being confirmed and `n` wait behind it.
pub open spec fn moving_notice(n: nat) -> Seq<char> {
    "Moving... ("@ + decimal_text(n) + " queued)"@
}

/// The notice while the program waits for `n` moves before it quits.
pub open spec fn finishing_notice(n: nat) -> Seq<char> {
    "Finishing "@ + decimal_text(n) + " pending moves before quit..."@
}

/// The notice once a failed move has been answered with the store's board.
pub open spec fn reloaded_notice() -> Seq<char> {
    "Move failed: reloaded board (optimistic state corrected)"@
}

/// The notice for a failed move that the store could not answer.
pub open spec fn failed_notice(msg: Seq<char>) -> Seq<char> {
    "Move failed: "@ + msg
}

/// The notice for a failed refresh.
pub open spec fn refresh_failed_notice(msg: Seq<char>) -> Seq<char> {
    "Refresh failed: "@ + msg
}

/// The pending move for the card at `(c, row)` going to column `d`.
pub open spec fn move_of(b: Board, c: int, row: int, d: int) -> PendingMove {
    PendingMove { card_id: b.card(c, row).id, to_col_id: b.columns@[d].id }
}

/// The step a move command takes on `before`, giving `after` and effect `e`,
/// where no quit is under way: the move is applied to the board at once;
/// with nothing in flight it is dispatched; else it joins the queue, or,
/// with the queue full, its confirmation is dropped.
pub open spec fn move_step(before: MoveEngine, after: MoveEngine, dir: int, e: Effect) -> bool {
    let b = before.app.board;
    let c = clamped_col(b, before.app.col as int);
    let row = clamped_row(b, c, before.app.row as int);
    &&& after.quitting == before.quitting
    &&& after.app.detail_open == before.app.detail_open
    &&& match move_dest(b, c, dir) {
        None => {
            &&& e is Nothing
            &&& after.app.board == b
            &&& after.app.col == before.app.col
            &&& after.app.row == before.app.row
            &&& after.app.banner == before.app.banner
            &&& after.in_flight == before.in_flight
            &&& after.queue@ == before.queue@
        },
        Some(d) => {
            let m = move_of(b, c, row, d);
            &&& is_move(b, after.app.board, c, row, d)
            &&& after.app.col == d
            &&& after.app.row == after.app.board.col_len(d) - 1
            &&& after.in_flight
            &&& if !before.in_flight {
                &&& e == Effect::Dispatch(m)
                &&& after.queue@ == before.queue@
                &&& opt_view(after.app.banner) == Some("Moving..."@)
            } else if before.queue@.len() >= MAX_QUEUE_SIZE {
                &&& e is Nothing
                &&& after.queue@ == before.queue@
                &&& opt_view(after.app.banner) == Some(queue_full_notice())
            } else {
                &&& e is Nothing
                &&& after.queue@ == before.queue@.push(m)
                &&& opt_view(after.app.banner) == Some(moving_notice(after.queue@.len()))
            }
        },
    }
}

/// The step the keyboard action `a` takes on `before`, giving `after` and
/// effect `e`.
pub open spec fn action_step(before: MoveEngine, after: MoveEngine, a: Action, e: Effect) -> bool {
    let is_move_key = a == Action::MoveLeft || a == Action::MoveRight;
    &&& before.quitting ==> after.quitting
    &&& e is Exit ==> after.drained()
    &&& e is Dispatch ==> !before.in_flight && !before.quitting
    &&& (is_move_key || a == Action::Refresh) && before.quitting ==> e is Nothing && after
        == before
    &&& is_move_key && !before.quitting ==> move_step(
        before,
        after,
        if a == Action::MoveLeft {
            -1
        } else {
            1
        },
        e,
    )
    &&& a == Action::Refresh && !before.quitting ==> e is Reload && after == before
    &&& !is_move_key && a != Action::Refresh ==> {
        &&& applied(before.app, after.app, a)
        &&& after.in_flight == before.in_flight
        &&& after.queue@ == before.queue@
        &&& if !quits(before.app, a) {
            &&& e is Nothing
            &&& after.quitting == before.quitting
            &&& after.app.banner == before.app.banner
        } else if before.pending() == 0 {
            &&& e is Exit
            &&& after.quitting == before.quitting
        } else {
            &&& e is Nothing
            &&& after.quitting
            &&& opt_view(after.app.banner) == Some(finishing_notice(before.pending()))
        }
    }
}

/// The step the worker's report `outcome` takes on `before`, giving `after`
/// and effect `e`.
pub open spec fn outcome_step(
    before: MoveEngine,
    after: MoveEngine,
    outcome: MoveOutcome,
    e: Effect,
) -> bool {
    &&& after.quitting == before.quitting
    &&& after.app.detail_open == before.app.detail_open
    &&& (e is Exit) == (after.quitting && after.drained())
    &&& (e is Dispatch) == (outcome is Confirmed && before.queue@.len() > 0)
    &&& !(e is Reload)
    &&& match outcome {
        MoveOutcome::Confirmed => {
            &&& after.app.board == before.app.board
            &&& after.app.col == before.app.col
            &&& after.app.row == before.app.row
            &&& if before.queue@.len() > 0 {
                &&& e == Effect::Dispatch(before.queue@[0])
                &&& after.in_flight
                &&& after.queue@ == before.queue@.drop_first()
                &&& !after.quitting ==> opt_view(after.app.banner) == Some(
                    moving_notice(after.queue@.len()),
                )
            } else {
                &&& after.drained()
                &&& !after.quitting ==> after.app.banner is None
            }
        },
        MoveOutcome::Resynced(b) => {
            &&& after.app.board == b
            &&& after.app.col == clamped_col(b, before.app.col as int)
            &&& after.app.row == clamped_row(
                b,
                after.app.col as int,
                before.app.row as int,
            )
            &&& after.drained()
            &&& !after.quitting ==> opt_view(after.app.banner) == Some(
                reloaded_notice(),
            )
        },
        MoveOutcome::Rejected(msg) => {
            &&& after.app.board == before.app.board
            &&& after.app.col == before.app.col
            &&& after.app.row == before.app.row
            &&& after.drained()
            &&& !after.quitting ==> opt_view(after.app.banner) == Some(
                failed_notice(msg@),
            )
        },
        MoveOutcome::WorkerFailed => {
            &&& after.app.board == before.app.board
            &&& after.app.col == before.app.col
            &&& after.app.row == before.app.row
            &&& after.drained()
            &&& !after.quitting ==> opt_view(after.app.banner) == Some(
                failed_notice("worker disconnected"@),
            )
        },
    }
    &&& after.quitting ==> opt_view(after.app.banner) == after.quit_banner(after.app.banner)
}

/// The notice for a move whose confirmation was dropped for a full queue.
pub open spec fn queue_full_notice() -> Seq<char> {
    "Move queue full \u{2014} too many pending moves"@
}

/// The board view together with the moves on their way to the store: at most
/// one being confirmed (`in_flight`) and a bounded queue behind it.
pub struct MoveEngine {
    pub app: App,
    pub in_flight: bool,
    pub queue: VecDeque<PendingMove>,
    pub quitting: bool,
}

impl MoveEngine {
    /// The state holds together: the queue is within its bound, moves wait
    /// only behind one being confirmed, and the cursor is valid.
    pub open spec fn wf(&self) -> bool {
        &&& self.queue@.len() <= MAX_QUEUE_SIZE
        &&& self.queue@.len() > 0 ==> self.in_flight
        &&& self.app.valid()
    }

    /// Moves not yet confirmed: those queued and the one in flight.
    pub open spec fn pending(&self) -> nat {
        self.queue@.len() + if self.in_flight {
            1nat
        } else {
            0nat
        }
    }

    /// Nothing is in flight and nothing waits.
    pub open spec fn drained(&self) -> bool {
        !self.in_flight && self.queue@.len() == 0
    }

    /// The notice that the quit notice turns `banner` into: while quitting,
    /// the count of pending moves, or none once there are none.
    pub open spec fn quit_banner(&self, banner: Option<String>) -> Option<Seq<char>> {
        if !self.quitting {
            match banner {
                Some(s) => Some(s@),
                None => None,
            }
        } else if self.pending() == 0 {
            None
        } else {
            Some(finishing_notice(self.pending()))
        }
    }

    /// An idle engine over `board`.
    pub fn new(board: Board) -> (r: Self)
        ensures
            r.wf(),
            r.app.board == board,
            r.app.col == 0 && r.app.row == 0,
            !r.app.detail_open,
            r.app.banner is None,
            !r.in_flight,
            r.queue@.len() == 0,
            !r.quitting,
    {
        let app = App::new(board);
        proof {
            lemma_origin_valid(app.board);
        }
        MoveEngine { app, in_flight: false, queue: VecDeque::new(), quitting: false }
    }

    /// While quitting, shows how many moves are still pending (no notice once
    /// none is); otherwise leaves the notice alone.
    pub fn update_quit_banner(&mut self)
        requires
            old(self).queue@.len() <= MAX_QUEUE_SIZE,
        ensures
            opt_view(final(self).app.banner) == old(self).quit_banner(old(self).app.banner),
            final(self).app.board == old(self).app.board,
            final(self).app.col == old(self).app.col,
            final(self).app.row == old(self).app.row,
            final(self).app.detail_open == old(self).app.detail_open,
            final(self).in_flight == old(self).in_flight,
            final(self).queue@ == old(self).queue@,
            final(self).quitting == old(self).quitting,
    {
        if !self.quitting {
            return ;
        }
        let pending: usize = self.queue.len() + if self.in_flight {
            1
        } else {
            0
        };
        if pending == 0 {
            self.app.banner = None;
        } else {
            let s = String::from_str("Finishing ").concat(decimal(pending).as_str()).concat(
                " pending moves before quit...",
            );
            self.app.banner = Some(s);
        }
    }

    /// A move command in direction `dir`, where no quit is under way.
    fn on_move(&mut self, dir: isize) -> (e: Effect)
        requires
            old(self).wf(),
        ensures
            final(self).wf(),
            move_step(*old(self), *final(self), dir as int, e),
    {
        let ghost before = *self;
        let moved = self.app.optimistic_move(dir);
        proof {
            if before.app.board.ncols() > 0 {
                lemma_clamp_valid(before.app.board, before.app.col, before.app.row);
                lemma_clamp_idempotent(before.app.board, before.app.col, before.app.row);
            }
        }
        match moved {
            None => Effect::Nothing,
            Some((card_id, to_col_id)) => {
                let m = PendingMove { card_id, to_col_id };
                if !self.in_flight {
                    self.in_flight = true;
                    self.app.banner = Some(String::from_str("Moving..."));
                    Effect::Dispatch(m)
                } else if self.queue.len() >= MAX_QUEUE_SIZE {
                    self.app.banner = Some(
                        String::from_str("Move queue full \u{2014} too many pending moves"),
                    );
                    Effect::Nothing
                } else {
                    self.queue.push_back(m);
                    let s = String::from_str("Moving... (").concat(
                        decimal(self.queue.len()).as_str(),
                    ).concat(" queued)");
                    self.app.banner = Some(s);
                    Effect::Nothing
                }
            },
        }
    }

    /// One action from the keyboard. Moves are applied at once and handed
    /// on (see `move_step`); a refresh asks the caller for the store's board;
    /// a quit ends the program where nothing is pending and otherwise starts
    /// the drain, during which moves and refreshes are ignored.
    pub fn on_action(&mut self, a: Action) -> (e: Effect)
        requires
            old(self).wf(),
        ensures
            final(self).wf(),
            action_step(*old(self), *final(self), a, e),
    {
        match a {
            Action::MoveLeft | Action::MoveRight | Action::Refresh => {
                if self.quitting {
                    return Effect::Nothing;
                }
            },
            _ => {},
        }
        match a {
            Action::MoveLeft => self.on_move(-1),
            Action::MoveRight => self.on_move(1),
            Action::Refresh => Effect::Reload,
            _ => {
                let ghost before = self.app;
                let quit = self.app.apply(a);
                proof {
                    lemma_applied_valid(before, self.app, a);
                }
                if !quit {
                    Effect::Nothing
                } else if self.in_flight || self.queue.len() > 0 {
                    self.quitting = true;
                    self.update_quit_banner();
                    Effect::Nothing
                } else {
                    Effect::Exit
                }
            },
        }
    }

    /// The board read for a refresh: it replaces the view's board with the
    /// cursor at `(0, 0)`; a failed read only shows its message.
    pub fn on_reload(&mut self, loaded: Result<Board, String>)
        requires
            old(self).wf(),
        ensures
            final(self).wf(),
            final(self).in_flight == old(self).in_flight,
            final(self).queue@ == old(self).queue@,
            final(self).quitting == old(self).quitting,
            final(self).app.detail_open == old(self).app.detail_open,
            match loaded {
                Ok(b) => {
                    &&& final(self).app.board == b
                    &&& final(self).app.col == 0
                    &&& final(self).app.row == 0
                    &&& final(self).app.banner is None
                },
                Err(msg) => {
                    &&& final(self).app.board == old(self).app.board
                    &&& final(self).app.col == old(self).app.col
                    &&& final(self).app.row == old(self).app.row
                    &&& opt_view(final(self).app.banner) == Some(refresh_failed_notice(msg@))
                },
            },
    {
        match loaded {
            Ok(b) => {
                self.app.board = b;
                self.app.col = 0;
                self.app.row = 0;
                self.app.banner = None;
                proof {
                    lemma_origin_valid(self.app.board);
                }
            },
            Err(msg) => {
                self.app.banner = Some(String::from_str("Refresh failed: ").concat(msg.as_str()));
            },
        }
    }

    /// The worker's report on the move in flight. A confirmation lets the
    /// next queued move go out; any failure empties the queue, a resync
    /// replacing the board and clamping the cursor onto it. While quitting,
    /// the program ends as soon as nothing is in flight or queued.
    pub fn on_outcome(&mut self, outcome: MoveOutcome) -> (e: Effect)
        requires
            old(self).wf(),
            old(self).in_flight,
        ensures
            final(self).wf(),
            outcome_step(*old(self), *final(self), outcome, e),
    {
        let mut e = Effect::Nothing;
        match outcome {
            MoveOutcome::Confirmed => {
                self.in_flight = false;
                match self.queue.pop_front() {
                    Some(m) => {
                        assert(self.queue@ =~= old(self).queue@.drop_first());
                        self.in_flight = true;
                        let s = String::from_str("Moving... (").concat(
                            decimal(self.queue.len()).as_str(),
                        ).concat(" queued)");
                        self.app.banner = Some(s);
                        e = Effect::Dispatch(m);
                    },
                    None => {
                        self.app.banner = None;
                    },
                }
            },
            MoveOutcome::Resynced(b) => {
                self.app.board = b;
                self.app.clamp();
                proof {
                    lemma_clamp_valid(b, old(self).app.col, old(self).app.row);
                }
                self.app.banner = Some(
                    String::from_str("Move failed: reloaded board (optimistic state corrected)"),
                );
                self.queue.clear();
                self.in_flight = false;
            },
            MoveOutcome::Rejected(msg) => {
                self.app.banner = Some(String::from_str("Move failed: ").concat(msg.as_str()));
                self.queue.clear();
                self.in_flight = false;
            },
            MoveOutcome::WorkerFailed => {
                self.app.banner = Some(
                    String::from_str("Move failed: ").concat("worker disconnected"),
                );
                self.queue.clear();
                self.in_flight = false;
            },
        }
        self.update_quit_banner();
        if self.should_exit() {
            e = Effect::Exit;
        }
        e
    }

    /// The program may end: a quit was asked for and every move is settled.
    pub fn should_exit(&self) -> (r: bool)
        ensures
            r == (self.quitting && self.drained()),
    {
        self.quitting && !self.in_flight && self.queue.len() == 0
    }
}

/// The worker's report on a move the store refused with message `move_msg`,
/// given the board read right after, where it could be read: the board to
/// resync with, else the refusal's message.
pub fn refused_outcome(move_msg: String, reloaded: Option<Board>) -> (r: MoveOutcome)
    ensures
        match reloaded {
            Some(b) => r == MoveOutcome::Resynced(b),
            None => r == MoveOutcome::Rejected(move_msg),
        },
{
    match reloaded {
        Some(b) => MoveOutcome::Resynced(b),
        None => MoveOutcome::Rejected(move_msg),
    }
}

/// The view of an optional string.
pub open spec fn opt_view(s: Option<String>) -> Option<Seq<char>> {
    match s {
        Some(t) => Some(t@),
        None => None,
    }
}

/// A move command never lets the queue outgrow its bound and never undoes
/// the move already made on screen: with the queue full, the queue stays as
/// it was and the board still shows the move.
pub proof fn lemma_queue_bound(before: MoveEngine, after: MoveEngine, dir: int, e: Effect)
    requires
        before.wf(),
        move_step(before, after, dir, e),
    ensures
        after.queue@.len() <= MAX_QUEUE_SIZE,
        before.queue@.len() == MAX_QUEUE_SIZE ==> after.queue@ == before.queue@,
        after.queue@.len() >= before.queue@.len(),
        forall|i: int| 0 <= i < before.queue@.len() ==> after.queue@[i] == before.queue@[i],
        ({
            let b = before.app.board;
            let c = clamped_col(b, before.app.col as int);
            let row = clamped_row(b, c, before.app.row as int);
            move_dest(b, c, dir) matches Some(d) ==> is_move(b, after.app.board, c, row, d)
        }),
{
}

/// A failed move answered with the store's board replaces the board with it
/// whole, empties the queue whatever it held, and leaves a valid cursor.
pub proof fn lemma_resync(before: MoveEngine, after: MoveEngine, b: Board, e: Effect)
    requires
        outcome_step(before, after, MoveOutcome::Resynced(b), e),
    ensures
        after.app.board == b,
        after.queue@.len() == 0,
        !after.in_flight,
        after.app.valid(),
{
    lemma_clamp_valid(b, before.app.col, before.app.row);
}

/// Once a quit is under way, it stays under way, no move goes out but the
/// next queued one, and the program ends exactly when nothing is in flight
/// and nothing is queued: a report that settles the last pending move ends
/// it in that very step, and one that does not leaves a move in flight whose
/// report is still to come.
pub proof fn lemma_drain(
    before: MoveEngine,
    after: MoveEngine,
    a: Action,
    outcome: MoveOutcome,
    e: Effect,
)
    requires
        before.quitting,
    ensures
        action_step(before, after, a, e) ==> {
            &&& after.quitting
            &&& !(e is Dispatch)
            &&& e is Exit ==> after.drained()
        },
        outcome_step(before, after, outcome, e) ==> {
            &&& after.quitting
            &&& (e is Exit) == after.drained()
            &&& !(e is Exit) ==> after.in_flight
            &&& e matches Effect::Dispatch(m) ==> m == before.queue@[0]
        },
{
}

/// At most one worker is ever at work: a key action starts one only where
/// none is in flight, a report starts one only in place of the worker that
/// just reported (a confirmation with moves queued), and either way the
/// in-flight slot is then taken.
pub proof fn lemma_single_worker(
    before: MoveEngine,
    after: MoveEngine,
    a: Action,
    outcome: MoveOutcome,
    e: Effect,
)
    ensures
        action_step(before, after, a, e) && e is Dispatch ==> !before.in_flight && after.in_flight,
        outcome_step(before, after, outcome, e) ==> ((e is Dispatch) == (outcome is Confirmed
            && before.queue@.len() > 0) && (e is Dispatch ==> after.in_flight)),
{
}

/// The cursor `(0, 0)` is valid on every board.
pub proof fn lemma_origin_valid(b: Board)
    ensures
        cursor_ok(b, 0, 0),
{
}

} // verus!
