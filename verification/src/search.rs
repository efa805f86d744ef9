//! The bounded-depth adversarial search: a static evaluator and a
//! deterministic minimax over the fixed move enumeration order.

use vstd::prelude::*;
use crate::game::{Player, Piece, Terrain, opponent, terrain_spec, col_of, row_of, classify};
use crate::board::{Board, Occupant, apply_spec};
use crate::moves::{all_moves, moves_flat, lemma_moves_legal};
use crate::rules::{is_legal, is_legal_idx};

verus! {

/// The score of a position already won; above every static evaluation.
pub const WIN_VALUE: i64 = 1000000;

/// The material weight of a piece kind. The weights follow the base ranks
/// except for the rat, whose power over the elephant raises it between the
/// wolf and the leopard.
pub open spec fn piece_value(k: Piece) -> int {
    match k {
        Piece::Rat => 450,
        Piece::Cat => 200,
        Piece::Dog => 300,
        Piece::Wolf => 400,
        Piece::Leopard => 500,
        Piece::Tiger => 600,
        Piece::Lion => 700,
        Piece::Elephant => 800,
    }
}

/// The row of a player's own den.
pub open spec fn den_row(p: Player) -> int {
    match p {
        Player::Player1 => 0,
        Player::Player2 => 8,
    }
}

/// Absolute value.
pub open spec fn abs_val(i: int) -> int {
    if i < 0 {
        -i
    } else {
        i
    }
}

/// The proximity bonus of a piece of `q` on flat cell `i`: larger the
/// nearer the piece stands to its opponent's den.
pub open spec fn prox_bonus(q: Player, i: int) -> int {
    16 - (abs_val(col_of(i) - 3) + abs_val(row_of(i) - den_row(opponent(q))))
}

/// The contribution of flat cell `i` to the static score for `me`.
pub open spec fn cell_score(s: Seq<Option<Occupant>>, me: Player, i: int) -> int {
    match s[i] {
        None => 0,
        Some(o) => {
            let w = piece_value(o.1) + prox_bonus(o.0, i);
            if o.0 == me {
                w
            } else {
                -w
            }
        },
    }
}

/// The static score of the cells below flat index `n`.
pub open spec fn eval_upto(s: Seq<Option<Occupant>>, me: Player, n: int) -> int
    decreases n,
{
    if n <= 0 {
        0
    } else {
        eval_upto(s, me, n - 1) + cell_score(s, me, n - 1)
    }
}

/// The static evaluation of a position for `me`: own material and den
/// proximity minus the opponent's.
pub open spec fn eval_spec(s: Seq<Option<Occupant>>, me: Player) -> int {
    eval_upto(s, me, 63)
}

/// Each cell contributes at most 900 in magnitude.
pub proof fn lemma_eval_upto_bounded(s: Seq<Option<Occupant>>, me: Player, n: int)
    requires
        0 <= n <= 63,
    ensures
        -900 * n <= eval_upto(s, me, n) <= 900 * n,
    decreases n,
{
    if n > 0 {
        lemma_eval_upto_bounded(s, me, n - 1);
    }
}

/// Whether the move `m` of `p` enters the opponent's den and so wins at
/// once.
pub open spec fn move_wins(p: Player, m: (int, int)) -> bool {
    terrain_spec(col_of(m.1), row_of(m.1)) == Terrain::Den(opponent(p))
}

/// The value for `me` of position `s` with `turn` to move and `depth`
/// plies left to explore: the static evaluation at the horizon or when the
/// side to move has no legal move, else the best reply value for the side
/// to move.
pub open spec fn value_spec(s: Seq<Option<Occupant>>, me: Player, turn: Player, depth: nat) -> int
    decreases depth, all_moves(s, turn).len() + 1,
{
    if depth == 0 {
        eval_spec(s, me)
    } else {
        let ms = all_moves(s, turn);
        if ms.len() == 0 {
            eval_spec(s, me)
        } else {
            vals_best(s, me, turn, ms, ms.len() as int, depth)
        }
    }
}

/// The best value among the first `n` moves of `ms` for the side to move:
/// the maximum when `me` moves, the minimum when the opponent moves. Ties
/// keep the earlier move's value.
pub open spec fn vals_best(
    s: Seq<Option<Occupant>>,
    me: Player,
    turn: Player,
    ms: Seq<(int, int)>,
    n: int,
    depth: nat,
) -> int
    decreases depth, n,
{
    if n <= 0 {
        0
    } else if n == 1 {
        child_value(s, me, turn, ms[0], depth)
    } else {
        let v = child_value(s, me, turn, ms[n - 1], depth);
        let rest = vals_best(s, me, turn, ms, n - 1, depth);
        if turn == me {
            if v > rest {
                v
            } else {
                rest
            }
        } else {
            if v < rest {
                v
            } else {
                rest
            }
        }
    }
}

/// The value of one move of `turn`: an immediate win when it enters the
/// opponent's den, else the search value of the resulting position.
pub open spec fn child_value(
    s: Seq<Option<Occupant>>,
    me: Player,
    turn: Player,
    m: (int, int),
    depth: nat,
) -> int
    decreases depth, 0int,
{
    if move_wins(turn, m) {
        if turn == me {
            WIN_VALUE as int
        } else {
            -(WIN_VALUE as int)
        }
    } else if depth == 0 {
        0
    } else {
        value_spec(apply_spec(s, m.0, m.1), me, opponent(turn), (depth - 1) as nat)
    }
}

/// Search values never leave `[-WIN_VALUE, WIN_VALUE]`.
pub proof fn lemma_value_bounded(s: Seq<Option<Occupant>>, me: Player, turn: Player, depth: nat)
    ensures
        -(WIN_VALUE as int) <= value_spec(s, me, turn, depth) <= WIN_VALUE as int,
    decreases depth, all_moves(s, turn).len() + 1,
{
    if depth == 0 {
        lemma_eval_upto_bounded(s, me, 63);
    } else {
        let ms = all_moves(s, turn);
        if ms.len() == 0 {
            lemma_eval_upto_bounded(s, me, 63);
        } else {
            lemma_vals_best_bounded(s, me, turn, ms, ms.len() as int, depth);
        }
    }
}

/// Bound for the best-of-prefix value.
pub proof fn lemma_vals_best_bounded(
    s: Seq<Option<Occupant>>,
    me: Player,
    turn: Player,
    ms: Seq<(int, int)>,
    n: int,
    depth: nat,
)
    requires
        depth >= 1,
    ensures
        n >= 1 ==> -(WIN_VALUE as int) <= vals_best(s, me, turn, ms, n, depth) <= WIN_VALUE as int,
    decreases depth, n,
{
    if n >= 1 {
        lemma_child_bounded(s, me, turn, ms[n - 1], depth);
        if n == 1 {
            lemma_child_bounded(s, me, turn, ms[0], depth);
        } else {
            lemma_vals_best_bounded(s, me, turn, ms, n - 1, depth);
        }
    }
}

/// Bound for the value of one move.
pub proof fn lemma_child_bounded(
    s: Seq<Option<Occupant>>,
    me: Player,
    turn: Player,
    m: (int, int),
    depth: nat,
)
    requires
        depth >= 1,
    ensures
        -(WIN_VALUE as int) <= child_value(s, me, turn, m, depth) <= WIN_VALUE as int,
    decreases depth, 0int,
{
    if !move_wins(turn, m) {
        lemma_value_bounded(apply_spec(s, m.0, m.1), me, opponent(turn), (depth - 1) as nat);
    }
}

/// The root value of one legal move `m` of `p` under horizon `h`: an
/// immediate den entry outranks every searched value, else the value of the
/// resulting position searched `h` plies deeper.
pub open spec fn root_val(s: Seq<Option<Occupant>>, p: Player, m: (int, int), h: nat) -> int {
    if move_wins(p, m) {
        WIN_VALUE as int + 1
    } else {
        value_spec(apply_spec(s, m.0, m.1), p, opponent(p), h)
    }
}

/// The index of the first move with the maximal root value among the first
/// `n` moves of `ms`.
pub open spec fn best_idx_upto(
    s: Seq<Option<Occupant>>,
    p: Player,
    ms: Seq<(int, int)>,
    n: int,
    h: nat,
) -> int
    decreases n,
{
    if n <= 1 {
        0
    } else {
        let b = best_idx_upto(s, p, ms, n - 1, h);
        if root_val(s, p, ms[n - 1], h) > root_val(s, p, ms[b], h) {
            n - 1
        } else {
            b
        }
    }
}

/// The horizon actually searched: a negative request is clamped to 0.
pub open spec fn horizon_clamp(h: i32) -> nat {
    if h < 0 {
        0
    } else {
        h as nat
    }
}

/// The move the search chooses for `p` in `s` under horizon `h`: `None`
/// when `p` has no legal move, else the first legal move (in the fixed
/// enumeration order) whose root value no later move exceeds.
pub open spec fn ai_spec(s: Seq<Option<Occupant>>, p: Player, h: nat) -> Option<(int, int)> {
    let ms = all_moves(s, p);
    if ms.len() == 0 {
        None
    } else {
        Some(ms[best_idx_upto(s, p, ms, ms.len() as int, h)])
    }
}

/// The material weight of a piece kind.
fn piece_value_exec(k: Piece) -> (r: i64)
    ensures
        r as int == piece_value(k),
{
    match k {
        Piece::Rat => 450,
        Piece::Cat => 200,
        Piece::Dog => 300,
        Piece::Wolf => 400,
        Piece::Leopard => 500,
        Piece::Tiger => 600,
        Piece::Lion => 700,
        Piece::Elephant => 800,
    }
}

/// The static evaluation of a position for `me`.
pub fn evaluate(b: &Board, me: Player) -> (r: i64)
    requires
        b.wf(),
    ensures
        r as int == eval_spec(b@, me),
{
    let mut acc: i64 = 0;
    let mut i: usize = 0;
    while i < 63
        invariant
            b.wf(),
            i <= 63,
            acc as int == eval_upto(b@, me, i as int),
            -900 * (i as int) <= acc as int <= 900 * (i as int),
        decreases 63 - i,
    {
        let score: i64 = match b.at_idx(i) {
            None => 0,
            Some(o) => {
                let x = (i % 7) as i64;
                let y = (i / 7) as i64;
                let ty = match o.0.other() {
                    Player::Player1 => 0i64,
                    Player::Player2 => 8i64,
                };
                let dx = if x >= 3 {
                    x - 3
                } else {
                    3 - x
                };
                let dy = if y >= ty {
                    y - ty
                } else {
                    ty - y
                };
                let w = piece_value_exec(o.1) + (16 - (dx + dy));
                if o.0 == me {
                    w
                } else {
                    -w
                }
            },
        };
        proof {
            assert(score as int == cell_score(b@, me, i as int));
            lemma_eval_upto_bounded(b@, me, i as int);
        }
        acc = acc + score;
        i = i + 1;
    }
    acc
}

/// The search value of one legal move of `turn`.
fn child_val_exec(b: &Board, me: Player, turn: Player, mv: (usize, usize), depth: u32) -> (r: i64)
    requires
        b.wf(),
        depth >= 1,
        mv.0 < 63,
        mv.1 < 63,
        is_legal_idx(b@, turn, mv.0 as int, mv.1 as int),
    ensures
        r as int == child_value(b@, me, turn, (mv.0 as int, mv.1 as int), depth as nat),
    decreases depth, 0int,
{
    if classify(mv.1 % 7, mv.1 / 7) == Terrain::Den(turn.other()) {
        if turn == me {
            WIN_VALUE
        } else {
            -WIN_VALUE
        }
    } else {
        let from = ((mv.0 % 7) as isize, (mv.0 / 7) as isize);
        let to = ((mv.1 % 7) as isize, (mv.1 / 7) as isize);
        match b.make_move(turn, from, to) {
            Ok(out) => value_exec(&out.board, me, turn.other(), depth - 1),
            Err(_) => {
                proof {
                    assert(false);
                }
                0
            },
        }
    }
}

/// The minimax value for `me` of the position with `turn` to move and
/// `depth` plies left.
fn value_exec(b: &Board, me: Player, turn: Player, depth: u32) -> (r: i64)
    requires
        b.wf(),
    ensures
        r as int == value_spec(b@, me, turn, depth as nat),
    decreases depth, 1int,
{
    let ms = moves_flat(b, turn);
    if depth == 0 || ms.len() == 0 {
        return evaluate(b, me);
    }
    proof {
        lemma_moves_legal(b@, turn, 63);
    }
    let ghost sms = all_moves(b@, turn);
    let mut acc = child_val_exec(b, me, turn, ms[0], depth);
    let mut j: usize = 1;
    while j < ms.len()
        invariant
            b.wf(),
            depth >= 1,
            sms == all_moves(b@, turn),
            ms@.len() == sms.len(),
            forall|jj: int| 0 <= jj < ms@.len() ==> {
                let m = #[trigger] ms@[jj];
                &&& m.0 < 63
                &&& m.1 < 63
                &&& (m.0 as int, m.1 as int) == sms[jj]
                &&& is_legal_idx(b@, turn, m.0 as int, m.1 as int)
            },
            1 <= j <= ms@.len(),
            acc as int == vals_best(b@, me, turn, sms, j as int, depth as nat),
        decreases ms@.len() - j,
    {
        let v = child_val_exec(b, me, turn, ms[j], depth);
        acc = if turn == me {
            if v > acc {
                v
            } else {
                acc
            }
        } else {
            if v < acc {
                v
            } else {
                acc
            }
        };
        j = j + 1;
    }
    acc
}

/// The root value of one legal move of `p` under horizon `depth`.
fn root_val_exec(b: &Board, p: Player, mv: (usize, usize), depth: u32) -> (r: i64)
    requires
        b.wf(),
        mv.0 < 63,
        mv.1 < 63,
        is_legal_idx(b@, p, mv.0 as int, mv.1 as int),
    ensures
        r as int == root_val(b@, p, (mv.0 as int, mv.1 as int), depth as nat),
{
    if classify(mv.1 % 7, mv.1 / 7) == Terrain::Den(p.other()) {
        WIN_VALUE + 1
    } else {
        let from = ((mv.0 % 7) as isize, (mv.0 / 7) as isize);
        let to = ((mv.1 % 7) as isize, (mv.1 / 7) as isize);
        match b.make_move(p, from, to) {
            Ok(out) => value_exec(&out.board, p, p.other(), depth),
            Err(_) => {
                proof {
                    assert(false);
                }
                0
            },
        }
    }
}

/// The best move for `p` within `horizon` plies of look-ahead (a negative
/// horizon is clamped to 0), or `None` when `p` has no legal move. The
/// choice is a function of the position, the player and the horizon alone:
/// among equally valued moves the first in the fixed enumeration order is
/// returned, and an immediately winning den entry is always preferred.
pub fn ai_move(b: &Board, p: Player, horizon: i32) -> (r: Option<((isize, isize), (isize, isize))>)
    requires
        b.wf(),
    ensures
        (r is None) == (ai_spec(b@, p, horizon_clamp(horizon)) is None),
        r matches Some(mv) ==> {
            let m = ai_spec(b@, p, horizon_clamp(horizon))->Some_0;
            &&& ai_spec(b@, p, horizon_clamp(horizon)) is Some
            &&& mv.0.0 as int == col_of(m.0)
            &&& mv.0.1 as int == row_of(m.0)
            &&& mv.1.0 as int == col_of(m.1)
            &&& mv.1.1 as int == row_of(m.1)
            &&& is_legal(b@, p, mv.0.0 as int, mv.0.1 as int, mv.1.0 as int, mv.1.1 as int)
        },
{
    let depth: u32 = if horizon < 0 {
        0
    } else {
        horizon as u32
    };
    let ms = moves_flat(b, p);
    if ms.len() == 0 {
        return None;
    }
    proof {
        lemma_moves_legal(b@, p, 63);
    }
    let ghost sms = all_moves(b@, p);
    let mut best_j: usize = 0;
    let mut best_v = root_val_exec(b, p, ms[0], depth);
    let mut j: usize = 1;
    while j < ms.len()
        invariant
            b.wf(),
            sms == all_moves(b@, p),
            ms@.len() == sms.len(),
            ms@.len() >= 1,
            forall|jj: int| 0 <= jj < ms@.len() ==> {
                let m = #[trigger] ms@[jj];
                &&& m.0 < 63
                &&& m.1 < 63
                &&& (m.0 as int, m.1 as int) == sms[jj]
                &&& is_legal_idx(b@, p, m.0 as int, m.1 as int)
            },
            1 <= j <= ms@.len(),
            best_j < j,
            best_j as int == best_idx_upto(b@, p, sms, j as int, depth as nat),
            best_v as int == root_val(b@, p, sms[best_j as int], depth as nat),
        decreases ms@.len() - j,
    {
        let v = root_val_exec(b, p, ms[j], depth);
        if v > best_v {
            best_j = j;
            best_v = v;
        }
        j = j + 1;
    }
    let m = ms[best_j];
    Some((((m.0 % 7) as isize, (m.0 / 7) as isize), ((m.1 % 7) as isize, (m.1 / 7) as isize)))
}

} // verus!
