//! The engine's general laws, stated and proved over the same spec
//! functions that the executable functions' contracts use.

use vstd::prelude::*;
use crate::game::{Player, Piece, Terrain, opponent, rank, in_bounds, terrain_spec, is_water,
    col_of, row_of};
use crate::board::{Board, Occupant, occ, board_inv, cell_ok};
use crate::rules::{eff_rank, can_capture, is_legal, is_legal_idx, is_adjacent};
use crate::moves::{all_moves, dest_list, lemma_moves_legal, lemma_dests_legal,
    lemma_dests_complete};
use crate::search::{ai_spec, root_val, best_idx_upto, move_wins, value_spec, WIN_VALUE,
    lemma_value_bounded};

verus! {

/// No legal move of a player ends on that player's own den.
pub proof fn lemma_legal_never_own_den(
    s: Seq<Option<Occupant>>,
    p: Player,
    fx: int,
    fy: int,
    tx: int,
    ty: int,
)
    requires
        is_legal(s, p, fx, fy, tx, ty),
    ensures
        terrain_spec(tx, ty) != Terrain::Den(p),
{
}

/// No destination enumerated by the move generator for `p` lies on `p`'s
/// own den.
pub proof fn lemma_moves_never_own_den(s: Seq<Option<Occupant>>, p: Player)
    ensures
        forall|j: int| 0 <= j < all_moves(s, p).len() ==> {
            let m = #[trigger] all_moves(s, p)[j];
            terrain_spec(col_of(m.1), row_of(m.1)) != Terrain::Den(p)
        },
{
    lemma_moves_legal(s, p, 63);
}

/// No destination listed by the grouped move query for a piece of `p`
/// lies on `p`'s own den.
pub proof fn lemma_grouped_moves_never_own_den(s: Seq<Option<Occupant>>, p: Player, f: int)
    ensures
        forall|j: int| 0 <= j < dest_list(s, p, f).len() ==> {
            let t = #[trigger] dest_list(s, p, f)[j];
            terrain_spec(col_of(t), row_of(t)) != Terrain::Den(p)
        },
{
    lemma_dests_legal(s, p, f, 63);
}

/// A move is legal exactly when its destination stands in the move
/// generator's list for its source: the legality test that `make_move`
/// applies and the published move list agree, so a pair absent from the
/// list is rejected and a pair present is accepted.
pub proof fn lemma_legal_iff_listed(s: Seq<Option<Occupant>>, p: Player, f: int, t: int)
    requires
        0 <= f < 63,
        0 <= t < 63,
    ensures
        is_legal_idx(s, p, f, t) <==> dest_list(s, p, f).contains(t),
{
    if is_legal_idx(s, p, f, t) {
        lemma_dests_complete(s, p, f, t, 63);
    }
    if dest_list(s, p, f).contains(t) {
        lemma_dests_legal(s, p, f, 63);
        let j = choose|j: int| 0 <= j < dest_list(s, p, f).len() && dest_list(s, p, f)[j] == t;
        assert(is_legal_idx(s, p, f, dest_list(s, p, f)[j]));
    }
}

/// Under the state invariant, only a rat ever occupies a water cell. The
/// invariant holds of the canonical initial position and is preserved by
/// every legal move, so this holds of every reachable state.
pub proof fn lemma_water_holds_only_rats(s: Seq<Option<Occupant>>, x: int, y: int)
    requires
        board_inv(s),
        in_bounds(x, y),
        is_water(x, y),
    ensures
        occ(s, x, y) matches Some(o) ==> o.1 == Piece::Rat,
{
    assert(cell_ok(s, x, y));
}

/// A rat may enter water: an orthogonal step of a rat onto an empty water
/// cell is legal.
pub proof fn lemma_rat_enters_water(
    s: Seq<Option<Occupant>>,
    p: Player,
    fx: int,
    fy: int,
    tx: int,
    ty: int,
)
    requires
        in_bounds(fx, fy),
        in_bounds(tx, ty),
        occ(s, fx, fy) == Some((p, Piece::Rat)),
        is_adjacent(fx, fy, tx, ty),
        occ(s, tx, ty) is None,
        is_water(tx, ty),
    ensures
        is_legal(s, p, fx, fy, tx, ty),
{
}

/// A piece standing on a trap of its owner's opponent has effective rank 0
/// and is capturable by every enemy piece — with the one overriding
/// exception that the elephant never captures the rat.
pub proof fn lemma_trapped_piece_capturable(
    p: Player,
    ak: Piece,
    ax: int,
    ay: int,
    dk: Piece,
    dx: int,
    dy: int,
)
    requires
        terrain_spec(dx, dy) == Terrain::Trap(p),
        !(ak == Piece::Elephant && dk == Piece::Rat),
    ensures
        can_capture(p, ak, ax, ay, dk, dx, dy),
{
}

/// Standing anywhere but on a trap of the owner's opponent — one's own
/// trap, grass, water or a den — leaves the effective rank at the base
/// rank.
pub proof fn lemma_no_rank_reduction_off_enemy_trap(p: Player, k: Piece, x: int, y: int)
    requires
        terrain_spec(x, y) != Terrain::Trap(opponent(p)),
    ensures
        eff_rank(p, k, x, y) == rank(k),
{
}

/// The elephant can never capture the rat, whatever the terrain and
/// effective ranks.
pub proof fn lemma_elephant_never_captures_rat(
    p: Player,
    ax: int,
    ay: int,
    dx: int,
    dy: int,
)
    ensures
        !can_capture(p, Piece::Elephant, ax, ay, Piece::Rat, dx, dy),
{
}

/// The rat, while not standing on water, can always capture the elephant,
/// whatever the effective ranks.
pub proof fn lemma_rat_always_captures_elephant(
    p: Player,
    ax: int,
    ay: int,
    dx: int,
    dy: int,
)
    requires
        !is_water(ax, ay),
    ensures
        can_capture(p, Piece::Rat, ax, ay, Piece::Elephant, dx, dy),
{
}

/// The first maximal root value is found at `best_idx_upto`: it lies below
/// `n` and no earlier prefix move exceeds it.
pub proof fn lemma_best_idx_is_max(
    s: Seq<Option<Occupant>>,
    p: Player,
    ms: Seq<(int, int)>,
    n: int,
    h: nat,
)
    requires
        n >= 1,
    ensures
        0 <= best_idx_upto(s, p, ms, n, h) < n,
        forall|j: int| 0 <= j < n ==> root_val(s, p, #[trigger] ms[j], h) <= root_val(
            s,
            p,
            ms[best_idx_upto(s, p, ms, n, h)],
            h,
        ),
    decreases n,
{
    if n > 1 {
        lemma_best_idx_is_max(s, p, ms, n - 1, h);
    }
}

/// Whenever some legal move of `p` enters the opponent's den, the search
/// returns a move that does so, at every horizon — an immediately winning
/// move is never passed over for a deeper plan.
pub proof fn lemma_ai_takes_immediate_win(s: Seq<Option<Occupant>>, p: Player, h: nat, j: int)
    requires
        0 <= j < all_moves(s, p).len(),
        move_wins(p, all_moves(s, p)[j]),
    ensures
        ai_spec(s, p, h) matches Some(m) && move_wins(p, m) && is_legal_idx(s, p, m.0, m.1),
{
    let ms = all_moves(s, p);
    let n = ms.len() as int;
    lemma_moves_legal(s, p, 63);
    lemma_best_idx_is_max(s, p, ms, n, h);
    let b = best_idx_upto(s, p, ms, n, h);
    assert(root_val(s, p, ms[j], h) == WIN_VALUE as int + 1);
    if !move_wins(p, ms[b]) {
        lemma_value_bounded(
            crate::board::apply_spec(s, ms[b].0, ms[b].1),
            p,
            opponent(p),
            h,
        );
        assert(root_val(s, p, ms[b], h) <= WIN_VALUE as int);
        assert(false);
    }
}

/// The search returns a move exactly when the player has one, and what it
/// returns is always a legal move of that player.
pub proof fn lemma_ai_chooses_a_legal_move(s: Seq<Option<Occupant>>, p: Player, h: nat)
    ensures
        (ai_spec(s, p, h) is Some) <==> all_moves(s, p).len() > 0,
        ai_spec(s, p, h) matches Some(m) ==> is_legal_idx(s, p, m.0, m.1),
{
    let ms = all_moves(s, p);
    if ms.len() > 0 {
        lemma_moves_legal(s, p, 63);
        lemma_best_idx_is_max(s, p, ms, ms.len() as int, h);
    }
}

/// With horizon 0 — the one-ply greedy search — an immediately available
/// winning den entry is still taken.
pub proof fn lemma_greedy_takes_immediate_win(s: Seq<Option<Occupant>>, p: Player, j: int)
    requires
        0 <= j < all_moves(s, p).len(),
        move_wins(p, all_moves(s, p)[j]),
    ensures
        ai_spec(s, p, 0) matches Some(m) && move_wins(p, m),
{
    lemma_ai_takes_immediate_win(s, p, 0, j);
}

} // verus!
