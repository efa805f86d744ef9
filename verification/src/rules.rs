//! Move legality: effective ranks on traps, the rat/elephant capture
//! exceptions, orthogonal steps, and tiger/lion jumps over water.

use vstd::prelude::*;
use crate::game::{
    Player, Piece, Terrain, opponent, rank, in_bounds, terrain_spec, is_water, col_of, row_of,
    classify,
};
use crate::board::{Board, Occupant, occ};

verus! {

/// The effective rank of a piece of kind `k` owned by `p` standing on
/// `(x, y)`: 0 while it stands on a trap of its owner's opponent, else its
/// base rank.
pub open spec fn eff_rank(p: Player, k: Piece, x: int, y: int) -> int {
    if terrain_spec(x, y) == Terrain::Trap(opponent(p)) {
        0
    } else {
        rank(k)
    }
}

/// Whether a piece of kind `ak` owned by `p` standing on `(ax, ay)` may
/// capture an enemy piece of kind `dk` standing on `(dx, dy)`. The elephant
/// never captures the rat; the rat, while not in water, always captures the
/// elephant; otherwise the mover's effective rank must reach the defender's.
pub open spec fn can_capture(
    p: Player,
    ak: Piece,
    ax: int,
    ay: int,
    dk: Piece,
    dx: int,
    dy: int,
) -> bool {
    if ak == Piece::Elephant && dk == Piece::Rat {
        false
    } else if ak == Piece::Rat && dk == Piece::Elephant && !is_water(ax, ay) {
        true
    } else {
        eff_rank(p, ak, ax, ay) >= eff_rank(opponent(p), dk, dx, dy)
    }
}

/// Whether a rat stands on cell `(x, y)`.
pub open spec fn has_rat(s: Seq<Option<Occupant>>, x: int, y: int) -> bool {
    match occ(s, x, y) {
        Some(o) => o.1 == Piece::Rat,
        None => false,
    }
}

/// Scan along direction `(dx, dy)` from the water cell `(x, y)`: the landing
/// cell of a jump across the water run, or `None` when a rat blocks the run
/// or the run leaves the board.
pub open spec fn jump_scan(
    s: Seq<Option<Occupant>>,
    x: int,
    y: int,
    dx: int,
    dy: int,
    fuel: nat,
) -> Option<(int, int)>
    decreases fuel,
{
    if has_rat(s, x, y) {
        None
    } else if fuel == 0 {
        None
    } else {
        let nx = x + dx;
        let ny = y + dy;
        if !in_bounds(nx, ny) {
            None
        } else if is_water(nx, ny) {
            jump_scan(s, nx, ny, dx, dy, (fuel - 1) as nat)
        } else {
            Some((nx, ny))
        }
    }
}

/// The landing cell of a jump from `(x, y)` in direction `(dx, dy)`: the
/// first non-water cell beyond a contiguous water run starting next to
/// `(x, y)`, provided no rat occupies the run. A fuel of 9 covers any run
/// on the 7 x 9 board.
pub open spec fn jump_dest(
    s: Seq<Option<Occupant>>,
    x: int,
    y: int,
    dx: int,
    dy: int,
) -> Option<(int, int)> {
    if in_bounds(x + dx, y + dy) && is_water(x + dx, y + dy) {
        jump_scan(s, x + dx, y + dy, dx, dy, 9)
    } else {
        None
    }
}

/// The column step of direction `d` (0 up, 1 left, 2 right, 3 down).
pub open spec fn dir_dx(d: int) -> int {
    if d == 1 {
        -1
    } else if d == 2 {
        1
    } else {
        0
    }
}

/// The row step of direction `d` (0 up, 1 left, 2 right, 3 down).
pub open spec fn dir_dy(d: int) -> int {
    if d == 0 {
        -1
    } else if d == 3 {
        1
    } else {
        0
    }
}

/// Whether `(tx, ty)` is reached from `(fx, fy)` by a water jump in one of
/// the four directions.
pub open spec fn is_jump(
    s: Seq<Option<Occupant>>,
    fx: int,
    fy: int,
    tx: int,
    ty: int,
) -> bool {
    exists|d: int|
        0 <= d < 4 && #[trigger] jump_dest(s, fx, fy, dir_dx(d), dir_dy(d)) == Some((tx, ty))
}

/// Whether the two cells are orthogonal neighbors.
pub open spec fn is_adjacent(fx: int, fy: int, tx: int, ty: int) -> bool {
    ||| (tx == fx && (ty == fy + 1 || ty == fy - 1))
    ||| (ty == fy && (tx == fx + 1 || tx == fx - 1))
}

/// Whether moving from `(fx, fy)` to `(tx, ty)` is legal for `p` in state
/// `s`: the source holds a piece of `p`; the destination is an orthogonal
/// neighbor, or a water jump for tiger and lion; only the rat enters water;
/// no piece enters its own den; and an occupied destination holds an enemy
/// piece the mover may capture.
pub open spec fn is_legal(
    s: Seq<Option<Occupant>>,
    p: Player,
    fx: int,
    fy: int,
    tx: int,
    ty: int,
) -> bool {
    &&& in_bounds(fx, fy)
    &&& in_bounds(tx, ty)
    &&& match occ(s, fx, fy) {
        Some(m) => {
            &&& m.0 == p
            &&& (is_adjacent(fx, fy, tx, ty) || ((m.1 == Piece::Tiger || m.1 == Piece::Lion)
                && is_jump(s, fx, fy, tx, ty)))
            &&& (m.1 == Piece::Rat || !is_water(tx, ty))
            &&& terrain_spec(tx, ty) != Terrain::Den(p)
            &&& match occ(s, tx, ty) {
                None => true,
                Some(o) => o.0 != p && can_capture(p, m.1, fx, fy, o.1, tx, ty),
            }
        },
        None => false,
    }
}

/// Legality over flat row-major cell indices.
pub open spec fn is_legal_idx(s: Seq<Option<Occupant>>, p: Player, f: int, t: int) -> bool {
    is_legal(s, p, col_of(f), row_of(f), col_of(t), row_of(t))
}

/// The effective rank of a piece of `p` of kind `k` on `(x, y)`.
pub fn eff_rank_exec(p: Player, k: Piece, x: usize, y: usize) -> (r: u8)
    requires
        in_bounds(x as int, y as int),
    ensures
        r as int == eff_rank(p, k, x as int, y as int),
{
    if classify(x, y) == Terrain::Trap(p.other()) {
        0
    } else {
        k.base_rank()
    }
}

/// Whether the capture rules allow `(p, ak)` on `(ax, ay)` to take `dk` on
/// `(dx, dy)`.
pub fn can_capture_exec(
    p: Player,
    ak: Piece,
    ax: usize,
    ay: usize,
    dk: Piece,
    dx: usize,
    dy: usize,
) -> (r: bool)
    requires
        in_bounds(ax as int, ay as int),
        in_bounds(dx as int, dy as int),
    ensures
        r == can_capture(p, ak, ax as int, ay as int, dk, dx as int, dy as int),
{
    if ak == Piece::Elephant && dk == Piece::Rat {
        false
    } else if ak == Piece::Rat && dk == Piece::Elephant && classify(ax, ay) != Terrain::Water {
        true
    } else {
        eff_rank_exec(p, ak, ax, ay) >= eff_rank_exec(p.other(), dk, dx, dy)
    }
}

/// Scan along one direction for the landing cell of a water jump.
fn jump_scan_exec(
    b: &Board,
    x: isize,
    y: isize,
    dx: isize,
    dy: isize,
    fuel: u8,
) -> (r: Option<(isize, isize)>)
    requires
        b.wf(),
        in_bounds(x as int, y as int),
        -1 <= dx as int <= 1,
        -1 <= dy as int <= 1,
    ensures
        (r is None) == (jump_scan(b@, x as int, y as int, dx as int, dy as int, fuel as nat)
            is None),
        r matches Some(c) ==> jump_scan(b@, x as int, y as int, dx as int, dy as int, fuel as nat)
            == Some((c.0 as int, c.1 as int)),
    decreases fuel,
{
    let here = b.occupant_at(x as usize, y as usize);
    let rat_here = match here {
        Some(o) => o.1 == Piece::Rat,
        None => false,
    };
    if rat_here {
        None
    } else if fuel == 0 {
        None
    } else {
        let nx = x + dx;
        let ny = y + dy;
        if !crate::game::in_bounds_exec(nx, ny) {
            None
        } else if classify(nx as usize, ny as usize) == Terrain::Water {
            jump_scan_exec(b, nx, ny, dx, dy, fuel - 1)
        } else {
            Some((nx, ny))
        }
    }
}

/// The landing cell of a jump from `(x, y)` in direction `(dx, dy)`.
fn jump_dest_exec(b: &Board, x: isize, y: isize, dx: isize, dy: isize) -> (r: Option<(
    isize,
    isize,
)>)
    requires
        b.wf(),
        in_bounds(x as int, y as int),
        -1 <= dx as int <= 1,
        -1 <= dy as int <= 1,
    ensures
        (r is None) == (jump_dest(b@, x as int, y as int, dx as int, dy as int) is None),
        r matches Some(c) ==> jump_dest(b@, x as int, y as int, dx as int, dy as int) == Some((
            c.0 as int,
            c.1 as int,
        )),
{
    let nx = x + dx;
    let ny = y + dy;
    if crate::game::in_bounds_exec(nx, ny) && classify(nx as usize, ny as usize)
        == Terrain::Water {
        jump_scan_exec(b, nx, ny, dx, dy, 9)
    } else {
        None
    }
}

/// The step of direction `d` (0 up, 1 left, 2 right, 3 down).
fn dir_delta(d: usize) -> (r: (isize, isize))
    requires
        d < 4,
    ensures
        r.0 as int == dir_dx(d as int),
        r.1 as int == dir_dy(d as int),
{
    if d == 0 {
        (0, -1)
    } else if d == 1 {
        (-1, 0)
    } else if d == 2 {
        (1, 0)
    } else {
        (0, 1)
    }
}

/// Whether `(tx, ty)` is reached from `(fx, fy)` by a water jump.
fn is_jump_exec(b: &Board, fx: usize, fy: usize, tx: usize, ty: usize) -> (r: bool)
    requires
        b.wf(),
        in_bounds(fx as int, fy as int),
        in_bounds(tx as int, ty as int),
    ensures
        r == is_jump(b@, fx as int, fy as int, tx as int, ty as int),
{
    let mut d: usize = 0;
    let mut found = false;
    while d < 4
        invariant
            b.wf(),
            in_bounds(fx as int, fy as int),
            in_bounds(tx as int, ty as int),
            d <= 4,
            found == exists|dd: int|
                0 <= dd < d && #[trigger] jump_dest(b@, fx as int, fy as int, dir_dx(dd), dir_dy(
                    dd,
                )) == Some((tx as int, ty as int)),
        decreases 4 - d,
    {
        let (dx, dy) = dir_delta(d);
        let hit = match jump_dest_exec(b, fx as isize, fy as isize, dx, dy) {
            Some(c) => c.0 == tx as isize && c.1 == ty as isize,
            None => false,
        };
        proof {
            if hit {
                assert(jump_dest(b@, fx as int, fy as int, dir_dx(d as int), dir_dy(d as int))
                    == Some((tx as int, ty as int)));
            }
        }
        found = found || hit;
        d = d + 1;
    }
    found
}

/// Whether moving from `(fx, fy)` to `(tx, ty)` is legal for `p`.
pub fn legal_check(b: &Board, p: Player, fx: usize, fy: usize, tx: usize, ty: usize) -> (r:
    bool)
    requires
        b.wf(),
        in_bounds(fx as int, fy as int),
        in_bounds(tx as int, ty as int),
    ensures
        r == is_legal(b@, p, fx as int, fy as int, tx as int, ty as int),
{
    let m = match b.occupant_at(fx, fy) {
        Some(m) => m,
        None => {
            return false;
        },
    };
    if !(m.0 == p) {
        return false;
    }
    let k = m.1;
    let adjacent = (tx == fx && (ty == fy + 1 || ty + 1 == fy)) || (ty == fy && (tx == fx + 1
        || tx + 1 == fx));
    let shape_ok = adjacent || ((k == Piece::Tiger || k == Piece::Lion) && is_jump_exec(
        b,
        fx,
        fy,
        tx,
        ty,
    ));
    if !shape_ok {
        return false;
    }
    if !(k == Piece::Rat) && classify(tx, ty) == Terrain::Water {
        return false;
    }
    if classify(tx, ty) == Terrain::Den(p) {
        return false;
    }
    match b.occupant_at(tx, ty) {
        None => true,
        Some(o) => !(o.0 == p) && can_capture_exec(p, k, fx, fy, o.1, tx, ty),
    }
}

} // verus!
