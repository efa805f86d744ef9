//! The board state: an occupant for each of the 63 cells, the canonical
//! initial placement, and the state invariant that every reachable state
//! keeps.

use vstd::prelude::*;
use crate::game::{
    Player, Piece, Terrain, in_bounds, terrain_spec, is_water, idx_of, col_of, row_of,
    lemma_idx_bij, classify,
};

verus! {

/// An occupant of a cell: the owning player and the piece kind.
pub type Occupant = (Player, Piece);

/// The board state: one optional occupant per cell, in row-major order.
pub struct Board {
    cells: Vec<Option<Occupant>>,
}

impl View for Board {
    type V = Seq<Option<Occupant>>;

    closed spec fn view(&self) -> Seq<Option<Occupant>> {
        self.cells@
    }
}

/// Well-formedness: exactly one entry per board cell.
pub open spec fn board_wf(s: Seq<Option<Occupant>>) -> bool {
    s.len() == 63
}

/// The occupant of cell `(x, y)`.
pub open spec fn occ(s: Seq<Option<Occupant>>, x: int, y: int) -> Option<Occupant> {
    s[y * 7 + x]
}

/// Terrain compatibility of one cell: no piece sits in its owner's own den,
/// and no piece other than a Rat sits on water.
pub open spec fn cell_ok(s: Seq<Option<Occupant>>, x: int, y: int) -> bool {
    match occ(s, x, y) {
        None => true,
        Some(o) => {
            &&& terrain_spec(x, y) != Terrain::Den(o.0)
            &&& (o.1 != Piece::Rat ==> !is_water(x, y))
        },
    }
}

/// The state invariant: well-formed, and every cell terrain-compatible.
/// It holds of the initial position and is preserved by every legal move.
pub open spec fn board_inv(s: Seq<Option<Occupant>>) -> bool {
    &&& board_wf(s)
    &&& forall|x: int, y: int| in_bounds(x, y) ==> #[trigger] cell_ok(s, x, y)
}

/// No two cells hold the same occupant: each player fields at most one
/// piece of each kind (and so at most eight pieces).
pub open spec fn pieces_distinct(s: Seq<Option<Occupant>>) -> bool {
    forall|i: int, j: int|
        #![trigger s[i], s[j]]
        0 <= i < 63 && 0 <= j < 63 && i != j && s[i] is Some ==> s[i] != s[j]
}

/// The board after moving the occupant of flat cell `f` onto flat cell `t`.
pub open spec fn apply_spec(
    s: Seq<Option<Occupant>>,
    f: int,
    t: int,
) -> Seq<Option<Occupant>> {
    s.update(t, s[f]).update(f, None)
}

/// The canonical initial occupant of cell `(x, y)`: each player's eight
/// pieces on their three home rows, mirrored through the board's center.
pub open spec fn init_occ(x: int, y: int) -> Option<Occupant> {
    if x == 0 && y == 0 {
        Some((Player::Player1, Piece::Lion))
    } else if x == 6 && y == 0 {
        Some((Player::Player1, Piece::Tiger))
    } else if x == 1 && y == 1 {
        Some((Player::Player1, Piece::Dog))
    } else if x == 5 && y == 1 {
        Some((Player::Player1, Piece::Cat))
    } else if x == 0 && y == 2 {
        Some((Player::Player1, Piece::Rat))
    } else if x == 2 && y == 2 {
        Some((Player::Player1, Piece::Leopard))
    } else if x == 4 && y == 2 {
        Some((Player::Player1, Piece::Wolf))
    } else if x == 6 && y == 2 {
        Some((Player::Player1, Piece::Elephant))
    } else if x == 6 && y == 8 {
        Some((Player::Player2, Piece::Lion))
    } else if x == 0 && y == 8 {
        Some((Player::Player2, Piece::Tiger))
    } else if x == 5 && y == 7 {
        Some((Player::Player2, Piece::Dog))
    } else if x == 1 && y == 7 {
        Some((Player::Player2, Piece::Cat))
    } else if x == 6 && y == 6 {
        Some((Player::Player2, Piece::Rat))
    } else if x == 4 && y == 6 {
        Some((Player::Player2, Piece::Leopard))
    } else if x == 2 && y == 6 {
        Some((Player::Player2, Piece::Wolf))
    } else if x == 0 && y == 6 {
        Some((Player::Player2, Piece::Elephant))
    } else {
        None
    }
}

/// The canonical initial occupant of an in-bounds cell.
fn initial_cell(x: usize, y: usize) -> (r: Option<Occupant>)
    requires
        in_bounds(x as int, y as int),
    ensures
        r == init_occ(x as int, y as int),
{
    if x == 0 && y == 0 {
        Some((Player::Player1, Piece::Lion))
    } else if x == 6 && y == 0 {
        Some((Player::Player1, Piece::Tiger))
    } else if x == 1 && y == 1 {
        Some((Player::Player1, Piece::Dog))
    } else if x == 5 && y == 1 {
        Some((Player::Player1, Piece::Cat))
    } else if x == 0 && y == 2 {
        Some((Player::Player1, Piece::Rat))
    } else if x == 2 && y == 2 {
        Some((Player::Player1, Piece::Leopard))
    } else if x == 4 && y == 2 {
        Some((Player::Player1, Piece::Wolf))
    } else if x == 6 && y == 2 {
        Some((Player::Player1, Piece::Elephant))
    } else if x == 6 && y == 8 {
        Some((Player::Player2, Piece::Lion))
    } else if x == 0 && y == 8 {
        Some((Player::Player2, Piece::Tiger))
    } else if x == 5 && y == 7 {
        Some((Player::Player2, Piece::Dog))
    } else if x == 1 && y == 7 {
        Some((Player::Player2, Piece::Cat))
    } else if x == 6 && y == 6 {
        Some((Player::Player2, Piece::Rat))
    } else if x == 4 && y == 6 {
        Some((Player::Player2, Piece::Leopard))
    } else if x == 2 && y == 6 {
        Some((Player::Player2, Piece::Wolf))
    } else if x == 0 && y == 6 {
        Some((Player::Player2, Piece::Elephant))
    } else {
        None
    }
}

impl Board {
    /// Well-formedness of this board.
    pub open spec fn wf(&self) -> bool {
        board_wf(self@)
    }

    /// An empty board: all 63 cells unoccupied.
    pub fn empty() -> (b: Board)
        ensures
            b.wf(),
            forall|x: int, y: int| in_bounds(x, y) ==> #[trigger] occ(b@, x, y) is None,
            board_inv(b@),
    {
        let mut cells: Vec<Option<Occupant>> = Vec::new();
        let mut i: usize = 0;
        while i < 63
            invariant
                i <= 63,
                cells@.len() == i,
                forall|j: int| 0 <= j < i ==> cells@[j] is None,
            decreases 63 - i,
        {
            cells.push(None);
            i = i + 1;
        }
        let b = Board { cells };
        proof {
            assert forall|x: int, y: int| in_bounds(x, y) implies #[trigger] occ(b@, x, y) is None
            by {
                lemma_idx_bij(x, y);
            }
        }
        b
    }

    /// The canonical starting position.
    pub fn default_initial() -> (b: Board)
        ensures
            b.wf(),
            forall|x: int, y: int| in_bounds(x, y) ==> #[trigger] occ(b@, x, y) == init_occ(x, y),
            board_inv(b@),
            pieces_distinct(b@),
    {
        let mut cells: Vec<Option<Occupant>> = Vec::new();
        let mut y: usize = 0;
        while y < 9
            invariant
                y <= 9,
                cells@.len() == y * 7,
                forall|j: int| 0 <= j < y * 7 ==> cells@[j] == init_occ(j % 7, j / 7),
            decreases 9 - y,
        {
            let mut x: usize = 0;
            while x < 7
                invariant
                    y < 9,
                    x <= 7,
                    cells@.len() == y * 7 + x,
                    forall|j: int| 0 <= j < y * 7 + x ==> cells@[j] == init_occ(j % 7, j / 7),
                decreases 7 - x,
            {
                cells.push(initial_cell(x, y));
                proof {
                    lemma_idx_bij(x as int, y as int);
                }
                x = x + 1;
            }
            y = y + 1;
        }
        let b = Board { cells };
        proof {
            assert forall|x: int, y: int| in_bounds(x, y) implies #[trigger] occ(b@, x, y)
                == init_occ(x, y) by {
                lemma_idx_bij(x, y);
            }
            assert forall|x: int, y: int| in_bounds(x, y) implies #[trigger] cell_ok(b@, x, y) by {
                lemma_idx_bij(x, y);
            }
            assert forall|i: int, j: int|
                #![trigger b@[i], b@[j]]
                0 <= i < 63 && 0 <= j < 63 && i != j && b@[i] is Some implies b@[i] != b@[j] by {
                assert(i == 7 * (i / 7) + (i % 7) && j == 7 * (j / 7) + (j % 7));
                assert(b@[i] == init_occ(i % 7, i / 7));
                assert(b@[j] == init_occ(j % 7, j / 7));
            }
        }
        b
    }

    /// The occupant of the flat cell `i`.
    pub fn at_idx(&self, i: usize) -> (r: Option<Occupant>)
        requires
            self.wf(),
            i < 63,
        ensures
            r == self@[i as int],
    {
        self.cells[i]
    }

    /// The occupant of the in-bounds cell `(x, y)`.
    pub fn occupant_at(&self, x: usize, y: usize) -> (r: Option<Occupant>)
        requires
            self.wf(),
            in_bounds(x as int, y as int),
        ensures
            r == occ(self@, x as int, y as int),
    {
        self.cells[y * 7 + x]
    }

    /// Place a piece on an in-bounds cell, replacing any occupant. This is
    /// the direct-construction primitive; it does not check game legality.
    pub fn place(&mut self, x: usize, y: usize, p: Player, k: Piece)
        requires
            old(self).wf(),
            in_bounds(x as int, y as int),
        ensures
            final(self).wf(),
            final(self)@ == old(self)@.update(idx_of(x as int, y as int), Some((p, k))),
    {
        self.cells.set(y * 7 + x, Some((p, k)));
    }

    /// Clear an in-bounds cell.
    pub fn clear(&mut self, x: usize, y: usize)
        requires
            old(self).wf(),
            in_bounds(x as int, y as int),
        ensures
            final(self).wf(),
            final(self)@ == old(self)@.update(idx_of(x as int, y as int), None),
    {
        self.cells.set(y * 7 + x, None);
    }

    /// A copy of this board with the same occupants.
    pub fn duplicate(&self) -> (b: Board)
        requires
            self.wf(),
        ensures
            b@ == self@,
    {
        let mut cells: Vec<Option<Occupant>> = Vec::new();
        let mut i: usize = 0;
        while i < 63
            invariant
                self.wf(),
                i <= 63,
                cells@.len() == i,
                forall|j: int| 0 <= j < i ==> cells@[j] == self@[j],
            decreases 63 - i,
        {
            cells.push(self.cells[i]);
            i = i + 1;
        }
        let b = Board { cells };
        proof {
            assert(b@ =~= self@);
        }
        b
    }

    /// One entry per board cell in row-major order: its host coordinates,
    /// terrain, and occupant. This is the full-board rendering handoff.
    pub fn cells_row_major(&self) -> (v: Vec<((isize, isize), Terrain, Option<Occupant>)>)
        requires
            self.wf(),
        ensures
            v@.len() == 63,
            forall|i: int| 0 <= i < 63 ==> {
                let e = #[trigger] v@[i];
                &&& e.0.0 as int == col_of(i)
                &&& e.0.1 as int == row_of(i)
                &&& e.1 == terrain_spec(col_of(i), row_of(i))
                &&& e.2 == self@[i]
            },
    {
        let mut v: Vec<((isize, isize), Terrain, Option<Occupant>)> = Vec::new();
        let mut y: usize = 0;
        while y < 9
            invariant
                self.wf(),
                y <= 9,
                v@.len() == y * 7,
                forall|i: int| 0 <= i < y * 7 ==> {
                    let e = #[trigger] v@[i];
                    &&& e.0.0 as int == col_of(i)
                    &&& e.0.1 as int == row_of(i)
                    &&& e.1 == terrain_spec(col_of(i), row_of(i))
                    &&& e.2 == self@[i]
                },
            decreases 9 - y,
        {
            let mut x: usize = 0;
            while x < 7
                invariant
                    self.wf(),
                    y < 9,
                    x <= 7,
                    v@.len() == y * 7 + x,
                    forall|i: int| 0 <= i < y * 7 + x ==> {
                        let e = #[trigger] v@[i];
                        &&& e.0.0 as int == col_of(i)
                        &&& e.0.1 as int == row_of(i)
                        &&& e.1 == terrain_spec(col_of(i), row_of(i))
                        &&& e.2 == self@[i]
                    },
                decreases 7 - x,
            {
                let t = classify(x, y);
                let o = self.cells[y * 7 + x];
                v.push(((x as isize, y as isize), t, o));
                proof {
                    lemma_idx_bij(x as int, y as int);
                }
                x = x + 1;
            }
            y = y + 1;
        }
        v
    }
}

} // verus!
