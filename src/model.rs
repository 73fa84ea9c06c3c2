use vstd::prelude::*;

verus! {

/// One card on the board; its `id` identifies it across the whole board.
#[derive(Clone, Debug)]
pub struct Card {
    pub id: String,
    pub title: String,
    pub description: String,
}

/// A column: its id, its title and its cards in display order.
#[derive(Clone, Debug)]
pub struct Column {
    pub id: String,
    pub title: String,
    pub cards: Vec<Card>,
}

/// The whole board: its columns in display order.
#[derive(Clone, Debug)]
pub struct Board {
    pub columns: Vec<Column>,
}

impl Board {
    /// Number of columns.
    pub open spec fn ncols(&self) -> int {
        self.columns@.len() as int
    }

    /// Number of cards in column `c`, or 0 where there is no such column.
    pub open spec fn col_len(&self, c: int) -> int {
        if 0 <= c < self.ncols() {
            self.columns@[c].cards@.len() as int
        } else {
            0
        }
    }

    /// The card at column `c`, row `r`.
    pub open spec fn card(&self, c: int, r: int) -> Card {
        self.columns@[c].cards@[r]
    }

    /// No card id occurs at two places of the board.
    pub open spec fn ids_unique(&self) -> bool {
        forall|c1: int, r1: int, c2: int, r2: int|
            0 <= c1 < self.ncols() && 0 <= r1 < self.col_len(c1) && 0 <= c2 < self.ncols() && 0
                <= r2 < self.col_len(c2) && (c1 != c2 || r1 != r2) ==> #[trigger] self.card(
                c1,
                r1,
            ).id@ != #[trigger] self.card(c2, r2).id@
    }
}

} // verus!
