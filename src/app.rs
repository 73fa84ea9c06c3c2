use vstd::prelude::*;

use crate::model::{Board, Card};

verus! {

/// What a key press asks of the board view.
#[derive(Clone, Copy, Debug, PartialEq, Eq, Structural)]
pub enum Action {
    Quit,
    CloseOrQuit,
    FocusLeft,
    FocusRight,
    SelectUp,
    SelectDown,
    MoveLeft,
    MoveRight,
    ToggleDetail,
    Refresh,
}

/// The board on screen, the focused card `(col, row)`, whether the detail
/// pane is open, and the current notice.
pub struct App {
    pub board: Board,
    pub col: usize,
    pub row: usize,
    pub detail_open: bool,
    pub banner: Option<String>,
}

/// A cursor is valid on a board: `(0, 0)` on an empty board, else a column
/// index in range and a row in range of that column (0 for an empty column).
pub open spec fn cursor_ok(b: Board, col: int, row: int) -> bool {
    if b.ncols() == 0 {
        col == 0 && row == 0
    } else {
        &&& 0 <= col < b.ncols()
        &&& if b.col_len(col) == 0 {
            row == 0
        } else {
            0 <= row < b.col_len(col)
        }
    }
}

/// The column that clamping focuses: the last one where `col` is past it.
pub open spec fn clamped_col(b: Board, col: int) -> int {
    if b.ncols() == 0 {
        0
    } else if col < b.ncols() - 1 {
        col
    } else {
        b.ncols() - 1
    }
}

/// `row` limited to the rows of column `col`; 0 where it has none.
pub open spec fn clamped_row(b: Board, col: int, row: int) -> int {
    if b.col_len(col) == 0 {
        0
    } else if row < b.col_len(col) - 1 {
        row
    } else {
        b.col_len(col) - 1
    }
}

/// `idx + delta`, held within `0 ..= max`.
pub open spec fn stepped(idx: int, delta: int, max: int) -> int {
    if idx + delta < 0 {
        0
    } else if idx + delta > max {
        max
    } else {
        idx + delta
    }
}

/// Where a move of the card at `(col, row)` in direction `dir` lands: the
/// column `col + dir`, where the board has columns, column `col` has a card
/// and column `col + dir` exists.
pub open spec fn move_dest(b: Board, col: int, dir: int) -> Option<int> {
    if b.ncols() == 0 || b.col_len(col) == 0 || col + dir < 0 || col + dir >= b.ncols() {
        None
    } else {
        Some(col + dir)
    }
}

/// The cards of column `k` once the card at `(src, row)` has been taken out
/// of its column and appended to column `dst`.
pub open spec fn cards_after_move(b: Board, src: int, row: int, dst: int, k: int) -> Seq<Card> {
    let kept = if k == src {
        b.columns@[k].cards@.remove(row)
    } else {
        b.columns@[k].cards@
    };
    if k == dst {
        kept.push(b.card(src, row))
    } else {
        kept
    }
}

/// `after` is `before` with the card at `(src, row)` moved to the end of
/// column `dst`; the columns keep their ids and titles.
pub open spec fn is_move(before: Board, after: Board, src: int, row: int, dst: int) -> bool {
    &&& after.ncols() == before.ncols()
    &&& forall|k: int|
        0 <= k < before.ncols() ==> {
            &&& (#[trigger] after.columns@[k]).id == before.columns@[k].id
            &&& after.columns@[k].title == before.columns@[k].title
            &&& after.columns@[k].cards@ == cards_after_move(before, src, row, dst, k)
        }
}

/// The index of the first column that holds a card.
pub open spec fn is_first_non_empty(b: Board, i: int) -> bool {
    &&& 0 <= i < b.ncols()
    &&& b.col_len(i) > 0
    &&& forall|j: int| 0 <= j < i ==> #[trigger] b.col_len(j) == 0
}

/// `a` asks to quit: `Quit` always, `CloseOrQuit` where no detail pane is open.
pub open spec fn quits(app: App, a: Action) -> bool {
    a == Action::Quit || (a == Action::CloseOrQuit && !app.detail_open)
}

/// `after` is `before` once `a` has been carried out on the view: focus and
/// selection move one step, the detail pane opens or closes, and nothing
/// else changes (moves and refreshes are not the view's to carry out).
pub open spec fn applied(before: App, after: App, a: Action) -> bool {
    &&& after.board == before.board
    &&& a == Action::CloseOrQuit ==> !after.detail_open
    &&& a == Action::ToggleDetail ==> after.detail_open == !before.detail_open
    &&& a != Action::CloseOrQuit && a != Action::ToggleDetail ==> after.detail_open
        == before.detail_open
    &&& a == Action::FocusLeft || a == Action::FocusRight ==> {
        let delta: int = if a == Action::FocusLeft {
            -1
        } else {
            1
        };
        &&& before.board.ncols() == 0 ==> after.col == 0 && after.row == 0
        &&& before.board.ncols() > 0 ==> {
            &&& after.col == stepped(before.col as int, delta, before.board.ncols() - 1)
            &&& after.row == clamped_row(before.board, after.col as int, before.row as int)
        }
    }
    &&& a == Action::SelectUp || a == Action::SelectDown ==> {
        let delta: int = if a == Action::SelectUp {
            -1
        } else {
            1
        };
        let len = before.board.col_len(before.col as int);
        &&& after.col == before.col
        &&& after.row == if len == 0 {
            0
        } else {
            stepped(before.row as int, delta, len - 1)
        }
    }
    &&& a != Action::FocusLeft && a != Action::FocusRight && a != Action::SelectUp && a
        != Action::SelectDown ==> after.col == before.col && after.row == before.row
}

/// Carrying out an action on the view keeps a valid cursor valid.
pub proof fn lemma_applied_valid(before: App, after: App, a: Action)
    requires
        before.valid(),
        applied(before, after, a),
    ensures
        after.valid(),
{
    if a == Action::FocusLeft || a == Action::FocusRight {
        if before.board.ncols() > 0 {
            lemma_clamp_valid(before.board, after.col, before.row);
        }
    }
}

impl App {
    /// The view of a fresh board: cursor at `(0, 0)`, detail closed, no notice.
    pub fn new(board: Board) -> (r: Self)
        ensures
            r.board == board,
            r.col == 0,
            r.row == 0,
            !r.detail_open,
            r.banner is None,
    {
        App { board, col: 0, row: 0, detail_open: false, banner: None }
    }

    /// The cursor of this view is valid on its board.
    pub open spec fn valid(&self) -> bool {
        cursor_ok(self.board, self.col as int, self.row as int)
    }

    fn reset_cursor(&mut self)
        ensures
            final(self).col == 0,
            final(self).row == 0,
            final(self).board == old(self).board,
            final(self).detail_open == old(self).detail_open,
            final(self).banner == old(self).banner,
    {
        self.col = 0;
        self.row = 0;
    }

    /// `idx + delta` held within `0 ..= max`, computed without overflow.
    fn clamp_index(idx: usize, delta: isize, max: usize) -> (r: usize)
        ensures
            r == stepped(idx as int, delta as int, max as int),
    {
        if delta < 0 {
            let back: usize = (-(delta + 1)) as usize + 1;
            if idx <= back {
                0
            } else if idx - back > max {
                max
            } else {
                idx - back
            }
        } else {
            let fwd: usize = delta as usize;
            if idx >= max || fwd >= max - idx {
                max
            } else {
                idx + fwd
            }
        }
    }

    /// Number of cards in the focused column; 0 where the column does not exist.
    fn col_len(&self) -> (r: usize)
        ensures
            r == self.board.col_len(self.col as int),
    {
        if self.col < self.board.columns.len() {
            self.board.columns[self.col].cards.len()
        } else {
            0
        }
    }

    fn clamp_row(&mut self)
        ensures
            final(self).row == clamped_row(
                old(self).board,
                old(self).col as int,
                old(self).row as int,
            ),
            final(self).col == old(self).col,
            final(self).board == old(self).board,
            final(self).detail_open == old(self).detail_open,
            final(self).banner == old(self).banner,
    {
        let len = self.col_len();
        self.row = if len == 0 {
            0
        } else if self.row < len - 1 {
            self.row
        } else {
            len - 1
        };
    }

    /// Brings the cursor back onto the board: the column is limited to the
    /// last one, the row to the last card of that column (0 where it is empty).
    pub fn clamp(&mut self)
        ensures
            final(self).col == clamped_col(old(self).board, old(self).col as int),
            final(self).row == clamped_row(
                old(self).board,
                final(self).col as int,
                old(self).row as int,
            ),
            final(self).board == old(self).board,
            final(self).detail_open == old(self).detail_open,
            final(self).banner == old(self).banner,
    {
        if self.board.columns.len() == 0 {
            self.reset_cursor();
            return ;
        }
        let last = self.board.columns.len() - 1;
        if self.col > last {
            self.col = last;
        }
        self.clamp_row();
    }

    /// Moves the focus `delta` columns, stopping at the first and the last
    /// column, and brings the row within the newly focused column.
    pub fn focus(&mut self, delta: isize)
        ensures
            old(self).board.ncols() == 0 ==> final(self).col == 0 && final(self).row == 0,
            old(self).board.ncols() > 0 ==> {
                &&& final(self).col == stepped(
                    old(self).col as int,
                    delta as int,
                    old(self).board.ncols() - 1,
                )
                &&& final(self).row == clamped_row(
                    old(self).board,
                    final(self).col as int,
                    old(self).row as int,
                )
            },
            final(self).board == old(self).board,
            final(self).detail_open == old(self).detail_open,
            final(self).banner == old(self).banner,
    {
        if self.board.columns.len() == 0 {
            self.reset_cursor();
            return ;
        }
        self.col = Self::clamp_index(self.col, delta, self.board.columns.len() - 1);
        self.clamp_row();
    }

    /// Moves the selection `delta` rows within the focused column, stopping
    /// at its first and last card; 0 where the column is empty.
    pub fn select(&mut self, delta: isize)
        ensures
            ({
                let len = old(self).board.col_len(old(self).col as int);
                final(self).row == if len == 0 {
                    0
                } else {
                    stepped(old(self).row as int, delta as int, len - 1)
                }
            }),
            final(self).col == old(self).col,
            final(self).board == old(self).board,
            final(self).detail_open == old(self).detail_open,
            final(self).banner == old(self).banner,
    {
        let len = self.col_len();
        if len == 0 {
            self.row = 0;
            return ;
        }
        self.row = Self::clamp_index(self.row, delta, len - 1);
    }
    /// Carries out `a` where it concerns the view alone, and says whether the
    /// view asks to quit. Moves and refreshes are left to the caller.
    pub fn apply(&mut self, a: Action) -> (quit: bool)
        ensures
            quit == quits(*old(self), a),
            applied(*old(self), *final(self), a),
            final(self).banner == old(self).banner,
    {
        match a {
            Action::Quit => {
                return true;
            },
            Action::CloseOrQuit => {
                if self.detail_open {
                    self.detail_open = false;
                } else {
                    return true;
                }
            },
            Action::FocusLeft => self.focus(-1),
            Action::FocusRight => self.focus(1),
            Action::SelectUp => self.select(-1),
            Action::SelectDown => self.select(1),
            Action::ToggleDetail => self.detail_open = !self.detail_open,
            Action::Refresh | Action::MoveLeft | Action::MoveRight => {},
        }
        false
    }

    /// Focuses the first card of the first column that has one; `(0, 0)`
    /// where every column is empty.
    pub fn focus_first_non_empty(&mut self)
        ensures
            final(self).row == 0,
            is_first_non_empty(old(self).board, final(self).col as int) || (final(self).col == 0
                && forall|j: int|
                0 <= j < old(self).board.ncols() ==> #[trigger] old(self).board.col_len(j) == 0),
            final(self).board == old(self).board,
            final(self).detail_open == old(self).detail_open,
            final(self).banner == old(self).banner,
    {
        let first = first_non_empty_column(&self.board);
        self.col = match first {
            Some(i) => i,
            None => 0,
        };
        self.row = 0;
    }

    /// The column `col + dir`, where it exists.
    fn dst_col(&self, dir: isize) -> (r: Option<usize>)
        ensures
            r == (if 0 <= self.col + dir < self.board.ncols() {
                Some((self.col + dir) as usize)
            } else {
                None
            }),
    {
        let n = self.board.columns.len();
        if dir < 0 {
            let back: usize = (-(dir + 1)) as usize + 1;
            if back > self.col || self.col - back >= n {
                None
            } else {
                Some(self.col - back)
            }
        } else {
            let fwd: usize = dir as usize;
            if self.col >= n || fwd >= n - self.col {
                None
            } else {
                Some(self.col + fwd)
            }
        }
    }

    /// Moves the focused card optimistically: after clamping the cursor, the
    /// card leaves its column for the end of column `col + dir`, the cursor
    /// follows it, and the card's id and the destination column's id come
    /// back. Where the board is empty, the focused column holds no card or
    /// column `col + dir` does not exist, nothing moves and `None` comes back.
    pub fn optimistic_move(&mut self, dir: isize) -> (r: Option<(String, String)>)
        ensures
            ({
                let b = old(self).board;
                let c = clamped_col(b, old(self).col as int);
                let row = clamped_row(b, c, old(self).row as int);
                match move_dest(b, c, dir as int) {
                    None => {
                        &&& r is None
                        &&& final(self).board == b
                        &&& b.ncols() > 0 ==> final(self).col == c && final(self).row == row
                    },
                    Some(d) => {
                        &&& r == Some((b.card(c, row).id, b.columns@[d].id))
                        &&& is_move(b, final(self).board, c, row, d)
                        &&& final(self).col == d
                        &&& final(self).row == final(self).board.col_len(d) - 1
                    },
                }
            }),
            old(self).board.ncols() == 0 ==> final(self).col == old(self).col && final(self).row
                == old(self).row,
            final(self).detail_open == old(self).detail_open,
            final(self).banner == old(self).banner,
    {
        if self.board.columns.len() == 0 {
            return None;
        }
        self.clamp();
        let dst = match self.dst_col(dir) {
            Some(d) => d,
            None => {
                return None;
            },
        };
        let src = self.col;
        if self.board.columns[src].cards.len() == 0 {
            return None;
        }
        let row = self.row;
        let ghost before = self.board;
        let card = self.board.columns[src].cards.remove(row);
        let card_id = card.id.clone();
        let to_col_id = self.board.columns[dst].id.clone();
        self.board.columns[dst].cards.push(card);
        self.col = dst;
        self.row = self.board.columns[dst].cards.len() - 1;
        assert(is_move(before, self.board, src as int, row as int, dst as int));
        Some((card_id, to_col_id))
    }
}

/// The index of the first column that holds a card, if any does.
pub fn first_non_empty_column(board: &Board) -> (r: Option<usize>)
    ensures
        match r {
            Some(i) => is_first_non_empty(*board, i as int),
            None => forall|j: int| 0 <= j < board.ncols() ==> #[trigger] board.col_len(j) == 0,
        },
{
    let mut i: usize = 0;
    while i < board.columns.len()
        invariant
            0 <= i <= board.ncols(),
            forall|j: int| 0 <= j < i ==> #[trigger] board.col_len(j) == 0,
        decreases board.columns.len() - i,
    {
        if board.columns[i].cards.len() > 0 {
            return Some(i);
        }
        i += 1;
    }
    None
}

/// Clamping yields a valid cursor on every board, from every cursor.
pub proof fn lemma_clamp_valid(b: Board, col: usize, row: usize)
    ensures
        ({
            let c = clamped_col(b, col as int);
            cursor_ok(b, c, clamped_row(b, c, row as int))
        }),
{
}

/// Clamping a valid cursor leaves it where it is.
pub proof fn lemma_clamp_idempotent(b: Board, col: usize, row: usize)
    requires
        cursor_ok(b, col as int, row as int),
    ensures
        clamped_col(b, col as int) == col,
        clamped_row(b, col as int, row as int) == row,
{
}

/// From a valid cursor, a move does nothing exactly when the board has no
/// column, the focused column has no card, or there is no column in the
/// direction asked for; the cursor then stays where it is.
pub proof fn lemma_move_noop(b: Board, col: usize, row: usize, dir: isize)
    requires
        cursor_ok(b, col as int, row as int),
    ensures
        move_dest(b, clamped_col(b, col as int), dir as int) is None <==> (b.ncols() == 0
            || b.col_len(col as int) == 0 || col + dir < 0 || col + dir >= b.ncols()),
        clamped_col(b, col as int) == col,
        clamped_row(b, col as int, row as int) == row,
{
}

/// After a move one column to the left or right on a board whose card ids
/// are unique, the moved card is gone from its former column and is the last
/// card of the destination column, where the cursor then points.
pub proof fn lemma_move_relocates(
    before: Board,
    after: Board,
    col: usize,
    row: usize,
    dir: isize,
    d: int,
)
    requires
        cursor_ok(before, col as int, row as int),
        before.ids_unique(),
        dir == -1 || dir == 1,
        move_dest(before, col as int, dir as int) == Some(d),
        is_move(before, after, col as int, row as int, d),
    ensures
        forall|k: int|
            0 <= k < after.col_len(col as int) ==> (#[trigger] after.card(col as int, k)).id@
                != before.card(col as int, row as int).id@,
        after.col_len(d) >= 1,
        after.card(d, after.col_len(d) - 1) == before.card(col as int, row as int),
        cursor_ok(after, d, after.col_len(d) - 1),
{
    let c = col as int;
    let r = row as int;
    assert(after.columns@[c].cards@ == before.columns@[c].cards@.remove(r));
    assert(after.columns@[d].cards@ == before.columns@[d].cards@.push(before.card(c, r)));
    assert forall|k: int| 0 <= k < after.col_len(c) implies (#[trigger] after.card(c, k)).id@
        != before.card(c, r).id@ by {
        let k0 = if k < r {
            k
        } else {
            k + 1
        };
        assert(after.card(c, k) == before.card(c, k0));
        assert(before.card(c, k0).id@ != before.card(c, r).id@);
    }
}

} // verus!
