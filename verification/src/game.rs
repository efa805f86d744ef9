//! Core value types of the game: players, piece kinds, terrain, and the
//! fixed board geometry.

use vstd::prelude::*;

verus! {

/// One of the two player identities.
#[derive(Clone, Copy, PartialEq, Eq, Structural, Debug)]
pub enum Player {
    Player1,
    Player2,
}

/// The opponent of a player.
pub open spec fn opponent(p: Player) -> Player {
    match p {
        Player::Player1 => Player::Player2,
        Player::Player2 => Player::Player1,
    }
}

impl Player {
    /// The opponent of `self`.
    pub fn other(self) -> (r: Player)
        ensures
            r == opponent(self),
    {
        match self {
            Player::Player1 => Player::Player2,
            Player::Player2 => Player::Player1,
        }
    }
}

/// One of the eight ranked animal kinds.
#[derive(Clone, Copy, PartialEq, Eq, Structural, Debug)]
pub enum Piece {
    Rat,
    Cat,
    Dog,
    Wolf,
    Leopard,
    Tiger,
    Lion,
    Elephant,
}

/// The base strength rank of a piece kind, from 1 (Rat) to 8 (Elephant).
pub open spec fn rank(k: Piece) -> int {
    match k {
        Piece::Rat => 1,
        Piece::Cat => 2,
        Piece::Dog => 3,
        Piece::Wolf => 4,
        Piece::Leopard => 5,
        Piece::Tiger => 6,
        Piece::Lion => 7,
        Piece::Elephant => 8,
    }
}

impl Piece {
    /// The base strength rank of this kind.
    pub fn base_rank(self) -> (r: u8)
        ensures
            r as int == rank(self),
    {
        match self {
            Piece::Rat => 1,
            Piece::Cat => 2,
            Piece::Dog => 3,
            Piece::Wolf => 4,
            Piece::Leopard => 5,
            Piece::Tiger => 6,
            Piece::Lion => 7,
            Piece::Elephant => 8,
        }
    }
}

/// The terrain classification of one board cell.
#[derive(Clone, Copy, PartialEq, Eq, Structural, Debug)]
pub enum Terrain {
    Grass,
    Water,
    Trap(Player),
    Den(Player),
}

/// Whether `(x, y)` lies on the 7 x 9 grid.
pub open spec fn in_bounds(x: int, y: int) -> bool {
    0 <= x < 7 && 0 <= y < 9
}

/// The fixed terrain layout of the canonical board: player one's den at
/// (3, 0) flanked by three traps, player two's mirrored at (3, 8), and two
/// 2 x 3 water lakes in rows 3..=5 at columns 1..=2 and 4..=5.
pub open spec fn terrain_spec(x: int, y: int) -> Terrain {
    if x == 3 && y == 0 {
        Terrain::Den(Player::Player1)
    } else if x == 3 && y == 8 {
        Terrain::Den(Player::Player2)
    } else if (y == 0 && (x == 2 || x == 4)) || (x == 3 && y == 1) {
        Terrain::Trap(Player::Player1)
    } else if (y == 8 && (x == 2 || x == 4)) || (x == 3 && y == 7) {
        Terrain::Trap(Player::Player2)
    } else if 3 <= y <= 5 && (x == 1 || x == 2 || x == 4 || x == 5) {
        Terrain::Water
    } else {
        Terrain::Grass
    }
}

/// Whether the cell `(x, y)` is water.
pub open spec fn is_water(x: int, y: int) -> bool {
    terrain_spec(x, y) == Terrain::Water
}

/// Terrain classification of an in-bounds cell.
pub fn classify(x: usize, y: usize) -> (t: Terrain)
    requires
        in_bounds(x as int, y as int),
    ensures
        t == terrain_spec(x as int, y as int),
{
    if x == 3 && y == 0 {
        Terrain::Den(Player::Player1)
    } else if x == 3 && y == 8 {
        Terrain::Den(Player::Player2)
    } else if (y == 0 && (x == 2 || x == 4)) || (x == 3 && y == 1) {
        Terrain::Trap(Player::Player1)
    } else if (y == 8 && (x == 2 || x == 4)) || (x == 3 && y == 7) {
        Terrain::Trap(Player::Player2)
    } else if 3 <= y && y <= 5 && (x == 1 || x == 2 || x == 4 || x == 5) {
        Terrain::Water
    } else {
        Terrain::Grass
    }
}

/// Whether `(x, y)` lies on the grid, for signed host coordinates.
pub fn in_bounds_exec(x: isize, y: isize) -> (r: bool)
    ensures
        r == in_bounds(x as int, y as int),
{
    0 <= x && x < 7 && 0 <= y && y < 9
}

/// The flat row-major index of an in-bounds cell.
pub open spec fn idx_of(x: int, y: int) -> int {
    y * 7 + x
}

/// The column of a flat row-major cell index.
pub open spec fn col_of(i: int) -> int {
    i % 7
}

/// The row of a flat row-major cell index.
pub open spec fn row_of(i: int) -> int {
    i / 7
}

/// Row-major indexing is a bijection between in-bounds coordinate pairs and
/// the indices `0..63`.
pub proof fn lemma_idx_bij(x: int, y: int)
    requires
        in_bounds(x, y),
    ensures
        0 <= idx_of(x, y) < 63,
        col_of(idx_of(x, y)) == x,
        row_of(idx_of(x, y)) == y,
{
    assert((y * 7 + x) % 7 == x && (y * 7 + x) / 7 == y) by (nonlinear_arith)
        requires
            0 <= x < 7 && 0 <= y < 9,
    ;
}

} // verus!
