//! Move enumeration in the fixed deterministic order (source row-major,
//! then destination row-major), and move application.

use vstd::prelude::*;
use crate::game::{
    Player, Terrain, opponent, in_bounds, terrain_spec, idx_of, col_of, row_of, lemma_idx_bij,
    classify, in_bounds_exec,
};
use crate::board::{Board, Occupant, occ, board_wf, board_inv, cell_ok, apply_spec,
    pieces_distinct};
use crate::rules::{is_legal, is_legal_idx, legal_check};

verus! {

/// Why a requested move was rejected.
#[derive(Clone, Copy, PartialEq, Eq, Structural, Debug)]
pub enum RuleViolation {
    /// A coordinate lies outside the 7 x 9 grid.
    OutOfBounds,
    /// The source cell is empty or holds the other player's piece.
    NoPieceAtSource,
    /// The destination is not in the mover's legal set.
    IllegalDestination,
}

/// The result of applying a legal move.
pub struct MoveOutcome {
    /// The state after the move.
    pub board: Board,
    /// The enemy occupant removed from the destination, if any.
    pub captured: Option<Occupant>,
    /// The mover, when the move entered the opponent's den.
    pub winner: Option<Player>,
}

/// Whether flat cell `f` holds a piece of `p`.
pub open spec fn owned_by(s: Seq<Option<Occupant>>, p: Player, f: int) -> bool {
    match s[f] {
        Some(o) => o.0 == p,
        None => false,
    }
}

/// The legal destinations below flat index `n` for the piece of `p` on flat
/// cell `f`, in row-major order.
pub open spec fn dests_upto(s: Seq<Option<Occupant>>, p: Player, f: int, n: int) -> Seq<int>
    decreases n,
{
    if n <= 0 {
        Seq::empty()
    } else if is_legal_idx(s, p, f, n - 1) {
        dests_upto(s, p, f, n - 1).push(n - 1)
    } else {
        dests_upto(s, p, f, n - 1)
    }
}

/// The legal destinations of the piece of `p` on flat cell `f`.
pub open spec fn dest_list(s: Seq<Option<Occupant>>, p: Player, f: int) -> Seq<int> {
    dests_upto(s, p, f, 63)
}

/// The legal `(from, to)` pairs from flat cell `f` with `to < n`.
pub open spec fn pairs_upto(s: Seq<Option<Occupant>>, p: Player, f: int, n: int) -> Seq<(
    int,
    int,
)>
    decreases n,
{
    if n <= 0 {
        Seq::empty()
    } else if is_legal_idx(s, p, f, n - 1) {
        pairs_upto(s, p, f, n - 1).push((f, n - 1))
    } else {
        pairs_upto(s, p, f, n - 1)
    }
}

/// All legal `(from, to)` pairs of `p` with `from < n`, source row-major
/// then destination row-major.
pub open spec fn moves_upto(s: Seq<Option<Occupant>>, p: Player, n: int) -> Seq<(int, int)>
    decreases n,
{
    if n <= 0 {
        Seq::empty()
    } else if owned_by(s, p, n - 1) {
        moves_upto(s, p, n - 1) + pairs_upto(s, p, n - 1, 63)
    } else {
        moves_upto(s, p, n - 1)
    }
}

/// All legal `(from, to)` pairs of `p`, in the fixed enumeration order.
pub open spec fn all_moves(s: Seq<Option<Occupant>>, p: Player) -> Seq<(int, int)> {
    moves_upto(s, p, 63)
}

/// The occupied source cells of `p` below flat index `n`, row-major.
pub open spec fn srcs_upto(s: Seq<Option<Occupant>>, p: Player, n: int) -> Seq<int>
    decreases n,
{
    if n <= 0 {
        Seq::empty()
    } else if owned_by(s, p, n - 1) {
        srcs_upto(s, p, n - 1).push(n - 1)
    } else {
        srcs_upto(s, p, n - 1)
    }
}

/// Every destination enumerated for one source is a legal move from it.
pub proof fn lemma_dests_legal(s: Seq<Option<Occupant>>, p: Player, f: int, n: int)
    ensures
        forall|j: int| 0 <= j < dests_upto(s, p, f, n).len() ==> {
            let t = #[trigger] dests_upto(s, p, f, n)[j];
            &&& 0 <= t < n
            &&& is_legal_idx(s, p, f, t)
        },
    decreases n,
{
    if n > 0 {
        lemma_dests_legal(s, p, f, n - 1);
        let prev = dests_upto(s, p, f, n - 1);
        let cur = dests_upto(s, p, f, n);
        assert forall|j: int| 0 <= j < cur.len() implies {
            let t = #[trigger] cur[j];
            &&& 0 <= t < n
            &&& is_legal_idx(s, p, f, t)
        } by {
            if j < prev.len() {
                assert(cur[j] == prev[j]);
            } else {
                assert(cur[j] == n - 1);
            }
        }
    }
}

/// Every legal destination below `n` is enumerated: together with
/// `lemma_dests_legal`, the destination list holds exactly the legal
/// destinations.
pub proof fn lemma_dests_complete(s: Seq<Option<Occupant>>, p: Player, f: int, t: int, n: int)
    requires
        0 <= t < n,
        is_legal_idx(s, p, f, t),
    ensures
        dests_upto(s, p, f, n).contains(t),
    decreases n,
{
    let prev = dests_upto(s, p, f, n - 1);
    let cur = dests_upto(s, p, f, n);
    if t == n - 1 {
        assert(cur[prev.len() as int] == t);
    } else {
        lemma_dests_complete(s, p, f, t, n - 1);
        let j = choose|j: int| 0 <= j < prev.len() && prev[j] == t;
        assert(cur[j] == t);
    }
}

/// Every pair enumerated from one source is a legal move from that source.
pub proof fn lemma_pairs_legal(s: Seq<Option<Occupant>>, p: Player, f: int, n: int)
    ensures
        forall|j: int| 0 <= j < pairs_upto(s, p, f, n).len() ==> {
            let m = #[trigger] pairs_upto(s, p, f, n)[j];
            &&& m.0 == f
            &&& 0 <= m.1 < n
            &&& is_legal_idx(s, p, m.0, m.1)
        },
    decreases n,
{
    if n > 0 {
        lemma_pairs_legal(s, p, f, n - 1);
        let prev = pairs_upto(s, p, f, n - 1);
        let cur = pairs_upto(s, p, f, n);
        assert forall|j: int| 0 <= j < cur.len() implies {
            let m = #[trigger] cur[j];
            &&& m.0 == f
            &&& 0 <= m.1 < n
            &&& is_legal_idx(s, p, m.0, m.1)
        } by {
            if j < prev.len() {
                assert(cur[j] == prev[j]);
            } else {
                assert(cur[j] == (f, n - 1));
            }
        }
    }
}

/// Every enumerated move is legal, with both cells on the board.
pub proof fn lemma_moves_legal(s: Seq<Option<Occupant>>, p: Player, n: int)
    ensures
        forall|j: int| 0 <= j < moves_upto(s, p, n).len() ==> {
            let m = #[trigger] moves_upto(s, p, n)[j];
            &&& 0 <= m.0 < n
            &&& 0 <= m.1 < 63
            &&& is_legal_idx(s, p, m.0, m.1)
        },
    decreases n,
{
    if n > 0 {
        lemma_moves_legal(s, p, n - 1);
        let prev = moves_upto(s, p, n - 1);
        let cur = moves_upto(s, p, n);
        if owned_by(s, p, n - 1) {
            lemma_pairs_legal(s, p, n - 1, 63);
            let tail = pairs_upto(s, p, n - 1, 63);
            assert forall|j: int| 0 <= j < cur.len() implies {
                let m = #[trigger] cur[j];
                &&& 0 <= m.0 < n
                &&& 0 <= m.1 < 63
                &&& is_legal_idx(s, p, m.0, m.1)
            } by {
                if j < prev.len() {
                    assert(cur[j] == prev[j]);
                } else {
                    assert(cur[j] == tail[j - prev.len()]);
                }
            }
        }
    }
}

/// All legal moves of `p`, as flat `(from, to)` cell indices in the fixed
/// enumeration order.
pub fn moves_flat(b: &Board, p: Player) -> (v: Vec<(usize, usize)>)
    requires
        b.wf(),
    ensures
        v@.len() == all_moves(b@, p).len(),
        forall|j: int| 0 <= j < v@.len() ==> {
            let m = #[trigger] v@[j];
            &&& m.0 < 63
            &&& m.1 < 63
            &&& (m.0 as int, m.1 as int) == all_moves(b@, p)[j]
        },
{
    let ghost s = b@;
    let mut v: Vec<(usize, usize)> = Vec::new();
    let mut f: usize = 0;
    while f < 63
        invariant
            b.wf(),
            s == b@,
            f <= 63,
            v@.len() == moves_upto(s, p, f as int).len(),
            forall|j: int| 0 <= j < v@.len() ==> {
                let m = #[trigger] v@[j];
                &&& m.0 < 63
                &&& m.1 < 63
                &&& (m.0 as int, m.1 as int) == moves_upto(s, p, f as int)[j]
            },
        decreases 63 - f,
    {
        let src_owned = match b.at_idx(f) {
            Some(o) => o.0 == p,
            None => false,
        };
        if src_owned {
            let mut t: usize = 0;
            while t < 63
                invariant
                    b.wf(),
                    s == b@,
                    f < 63,
                    owned_by(s, p, f as int),
                    t <= 63,
                    v@.len() == moves_upto(s, p, f as int).len() + pairs_upto(
                        s,
                        p,
                        f as int,
                        t as int,
                    ).len(),
                    forall|j: int| 0 <= j < v@.len() ==> {
                        let m = #[trigger] v@[j];
                        &&& m.0 < 63
                        &&& m.1 < 63
                        &&& (m.0 as int, m.1 as int) == (moves_upto(s, p, f as int) + pairs_upto(
                            s,
                            p,
                            f as int,
                            t as int,
                        ))[j]
                    },
                decreases 63 - t,
            {
                if legal_check(b, p, f % 7, f / 7, t % 7, t / 7) {
                    v.push((f, t));
                }
                t = t + 1;
            }
            proof {
                assert(moves_upto(s, p, f as int + 1) == moves_upto(s, p, f as int) + pairs_upto(
                    s,
                    p,
                    f as int,
                    63,
                ));
            }
        } else {
            proof {
                assert(moves_upto(s, p, f as int + 1) == moves_upto(s, p, f as int));
            }
        }
        f = f + 1;
    }
    v
}

impl Board {
    /// The legal moves of `p`, grouped by source: one entry per piece of
    /// `p` in row-major order, with that piece's legal destinations in
    /// row-major order.
    pub fn legal_moves(&self, p: Player) -> (v: Vec<((isize, isize), Vec<(isize, isize)>)>)
        requires
            self.wf(),
        ensures
            v@.len() == srcs_upto(self@, p, 63).len(),
            forall|i: int| 0 <= i < v@.len() ==> {
                let f = srcs_upto(self@, p, 63)[i];
                let ds = dest_list(self@, p, f);
                let e = #[trigger] v@[i];
                &&& e.0.0 as int == col_of(f)
                &&& e.0.1 as int == row_of(f)
                &&& e.1@.len() == ds.len()
                &&& forall|j: int| 0 <= j < ds.len() ==> {
                    let c = #[trigger] e.1@[j];
                    c.0 as int == col_of(ds[j]) && c.1 as int == row_of(ds[j])
                }
            },
    {
        let ghost s = self@;
        let mut v: Vec<((isize, isize), Vec<(isize, isize)>)> = Vec::new();
        let mut f: usize = 0;
        while f < 63
            invariant
                self.wf(),
                s == self@,
                f <= 63,
                v@.len() == srcs_upto(s, p, f as int).len(),
                forall|i: int| 0 <= i < v@.len() ==> {
                    let ff = srcs_upto(s, p, f as int)[i];
                    let ds = dest_list(s, p, ff);
                    let e = #[trigger] v@[i];
                    &&& e.0.0 as int == col_of(ff)
                    &&& e.0.1 as int == row_of(ff)
                    &&& e.1@.len() == ds.len()
                    &&& forall|j: int| 0 <= j < ds.len() ==> {
                        let c = #[trigger] e.1@[j];
                        c.0 as int == col_of(ds[j]) && c.1 as int == row_of(ds[j])
                    }
                },
            decreases 63 - f,
        {
            let src_owned = match self.at_idx(f) {
                Some(o) => o.0 == p,
                None => false,
            };
            if src_owned {
                let mut ds: Vec<(isize, isize)> = Vec::new();
                let mut t: usize = 0;
                while t < 63
                    invariant
                        self.wf(),
                        s == self@,
                        f < 63,
                        t <= 63,
                        ds@.len() == dests_upto(s, p, f as int, t as int).len(),
                        forall|j: int| 0 <= j < ds@.len() ==> {
                            let c = #[trigger] ds@[j];
                            c.0 as int == col_of(dests_upto(s, p, f as int, t as int)[j])
                                && c.1 as int == row_of(dests_upto(s, p, f as int, t as int)[j])
                        },
                    decreases 63 - t,
                {
                    if legal_check(self, p, f % 7, f / 7, t % 7, t / 7) {
                        ds.push(((t % 7) as isize, (t / 7) as isize));
                    }
                    t = t + 1;
                }
                v.push((((f % 7) as isize, (f / 7) as isize), ds));
                proof {
                    assert(srcs_upto(s, p, f as int + 1) == srcs_upto(s, p, f as int).push(
                        f as int,
                    ));
                }
            } else {
                proof {
                    assert(srcs_upto(s, p, f as int + 1) == srcs_upto(s, p, f as int));
                }
            }
            f = f + 1;
        }
        v
    }

    /// Apply a move of `p` from `from` to `to`. On success the result holds
    /// the new state, the captured enemy occupant if the destination was
    /// occupied, and the winner when the move entered the opponent's den.
    /// The receiver is never changed; an illegal request only reports why.
    pub fn make_move(&self, p: Player, from: (isize, isize), to: (isize, isize)) -> (r: Result<
        MoveOutcome,
        RuleViolation,
    >)
        requires
            self.wf(),
        ensures
            r is Ok <==> is_legal(self@, p, from.0 as int, from.1 as int, to.0 as int, to.1 as int),
            !(in_bounds(from.0 as int, from.1 as int) && in_bounds(to.0 as int, to.1 as int))
                ==> r == Result::<MoveOutcome, RuleViolation>::Err(RuleViolation::OutOfBounds),
            in_bounds(from.0 as int, from.1 as int) && in_bounds(to.0 as int, to.1 as int)
                && !owned_by(self@, p, idx_of(from.0 as int, from.1 as int)) ==> r == Result::<
                MoveOutcome,
                RuleViolation,
            >::Err(RuleViolation::NoPieceAtSource),
            in_bounds(from.0 as int, from.1 as int) && in_bounds(to.0 as int, to.1 as int)
                && owned_by(self@, p, idx_of(from.0 as int, from.1 as int)) && !is_legal(
                self@,
                p,
                from.0 as int,
                from.1 as int,
                to.0 as int,
                to.1 as int,
            ) ==> r == Result::<MoveOutcome, RuleViolation>::Err(RuleViolation::IllegalDestination),
            r matches Ok(out) ==> {
                &&& out.board.wf()
                &&& out.board@ == apply_spec(
                    self@,
                    idx_of(from.0 as int, from.1 as int),
                    idx_of(to.0 as int, to.1 as int),
                )
                &&& out.captured == occ(self@, to.0 as int, to.1 as int)
                &&& out.winner == (if terrain_spec(to.0 as int, to.1 as int) == Terrain::Den(
                    opponent(p),
                ) {
                    Some(p)
                } else {
                    None::<Player>
                })
                &&& (board_inv(self@) ==> board_inv(out.board@))
                &&& (pieces_distinct(self@) ==> pieces_distinct(out.board@))
            },
    {
        if !(in_bounds_exec(from.0, from.1) && in_bounds_exec(to.0, to.1)) {
            return Err(RuleViolation::OutOfBounds);
        }
        let fx = from.0 as usize;
        let fy = from.1 as usize;
        let tx = to.0 as usize;
        let ty = to.1 as usize;
        let m = match self.occupant_at(fx, fy) {
            Some(m) => m,
            None => {
                return Err(RuleViolation::NoPieceAtSource);
            },
        };
        if !(m.0 == p) {
            return Err(RuleViolation::NoPieceAtSource);
        }
        if !legal_check(self, p, fx, fy, tx, ty) {
            return Err(RuleViolation::IllegalDestination);
        }
        let captured = self.occupant_at(tx, ty);
        let mut nb = self.duplicate();
        nb.place(tx, ty, m.0, m.1);
        nb.clear(fx, fy);
        let winner = if classify(tx, ty) == Terrain::Den(p.other()) {
            Some(p)
        } else {
            None
        };
        proof {
            assert(nb@ == apply_spec(self@, idx_of(fx as int, fy as int), idx_of(
                tx as int,
                ty as int,
            )));
            if board_inv(self@) {
                lemma_apply_preserves_inv(self@, p, fx as int, fy as int, tx as int, ty as int);
            }
            if pieces_distinct(self@) {
                lemma_idx_bij(fx as int, fy as int);
                lemma_idx_bij(tx as int, ty as int);
                lemma_apply_preserves_distinct(
                    self@,
                    idx_of(fx as int, fy as int),
                    idx_of(tx as int, ty as int),
                );
            }
        }
        Ok(MoveOutcome { board: nb, captured, winner })
    }
}

/// Moving a piece keeps the occupants pairwise distinct: each player still
/// fields at most one piece of each kind.
pub proof fn lemma_apply_preserves_distinct(s: Seq<Option<Occupant>>, f: int, t: int)
    requires
        pieces_distinct(s),
        board_wf(s),
        0 <= f < 63,
        0 <= t < 63,
    ensures
        pieces_distinct(apply_spec(s, f, t)),
{
    let s2 = apply_spec(s, f, t);
    assert forall|i: int, j: int|
        #![trigger s2[i], s2[j]]
        0 <= i < 63 && 0 <= j < 63 && i != j && s2[i] is Some implies s2[i] != s2[j] by {
        if i != f && i != t && j != f && j != t {
            assert(s2[i] == s[i] && s2[j] == s[j]);
        } else if i == t && i != f {
            assert(s2[i] == s[f]);
            if j != f && j != t {
                assert(s2[j] == s[j]);
            }
        } else if j == t && j != f {
            assert(s2[j] == s[f]);
            if i != f && i != t {
                assert(s2[i] == s[i]);
            }
        }
    }
}

/// A legal move keeps the state invariant: the mover lands on terrain its
/// kind may occupy and never in its own den, and every other cell is
/// unchanged.
pub proof fn lemma_apply_preserves_inv(
    s: Seq<Option<Occupant>>,
    p: Player,
    fx: int,
    fy: int,
    tx: int,
    ty: int,
)
    requires
        board_inv(s),
        is_legal(s, p, fx, fy, tx, ty),
    ensures
        board_inv(apply_spec(s, idx_of(fx, fy), idx_of(tx, ty))),
{
    let f = idx_of(fx, fy);
    let t = idx_of(tx, ty);
    let s2 = apply_spec(s, f, t);
    lemma_idx_bij(fx, fy);
    lemma_idx_bij(tx, ty);
    assert forall|x: int, y: int| in_bounds(x, y) implies #[trigger] cell_ok(s2, x, y) by {
        lemma_idx_bij(x, y);
        let i = idx_of(x, y);
        if i == f {
            assert(occ(s2, x, y) is None);
        } else if i == t {
            assert(x == tx && y == ty);
            assert(occ(s2, x, y) == occ(s, fx, fy));
        } else {
            assert(occ(s2, x, y) == occ(s, x, y));
            assert(cell_ok(s, x, y));
        }
    }
}

} // verus!
