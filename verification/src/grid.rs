//! The virtual-office grid: positions and the spatial placement resolver.

use vstd::prelude::*;

verus! {

/// Largest x coordinate of the office grid.
pub const GRID_X_MAX: usize = 169;

/// Largest y coordinate of the office grid.
pub const GRID_Y_MAX: usize = 109;

/// The position of an entity in the office grid.
#[derive(Clone, Copy, Debug, PartialEq, Eq, Structural)]
pub struct Position {
    pub x: usize,
    pub y: usize,
}

impl Position {
    /// Both coordinates lie inside the grid.
    pub open spec fn in_bounds(self) -> bool {
        self.x <= GRID_X_MAX && self.y <= GRID_Y_MAX
    }
}

/// `v - 1`, clamped into `[0, max]`.
pub open spec fn spec_dec_clamped(v: usize, max: usize) -> usize {
    if v == 0 {
        0
    } else if v - 1 > max {
        max
    } else {
        (v - 1) as usize
    }
}

/// `v + 1`, clamped into `[0, max]`.
pub open spec fn spec_inc_clamped(v: usize, max: usize) -> usize {
    if v >= max {
        max
    } else {
        (v + 1) as usize
    }
}

fn dec_clamped(v: usize, max: usize) -> (r: usize)
    ensures
        r == spec_dec_clamped(v, max),
{
    if v == 0 {
        0
    } else if v - 1 > max {
        max
    } else {
        v - 1
    }
}

fn inc_clamped(v: usize, max: usize) -> (r: usize)
    ensures
        r == spec_inc_clamped(v, max),
{
    if v >= max {
        max
    } else {
        v + 1
    }
}

/// The eight candidate positions adjacent to `pos`, in placement priority
/// order: left, right, top, top-left, top-right, bottom, bottom-left,
/// bottom-right. Left and right come first because of the usual desk
/// orientation in the office.
pub open spec fn spec_surrounding_positions(pos: Position) -> Seq<Position> {
    let xl = spec_dec_clamped(pos.x, GRID_X_MAX);
    let xr = spec_inc_clamped(pos.x, GRID_X_MAX);
    let yt = spec_dec_clamped(pos.y, GRID_Y_MAX);
    let yb = spec_inc_clamped(pos.y, GRID_Y_MAX);
    let xm = if pos.x > GRID_X_MAX {
        GRID_X_MAX
    } else {
        pos.x
    };
    let ym = if pos.y > GRID_Y_MAX {
        GRID_Y_MAX
    } else {
        pos.y
    };
    seq![
        Position { x: xl, y: ym },
        Position { x: xr, y: ym },
        Position { x: xm, y: yt },
        Position { x: xl, y: yt },
        Position { x: xr, y: yt },
        Position { x: xm, y: yb },
        Position { x: xl, y: yb },
        Position { x: xr, y: yb },
    ]
}

/// Enumerates the eight grid slots adjacent to `pos` where the bot may stand
/// while it updates the desk, each coordinate independently clamped to the
/// grid bounds, in the fixed priority order left, right, top, top-left,
/// top-right, bottom, bottom-left, bottom-right.
pub fn surrounding_positions(pos: &Position) -> (r: Vec<Position>)
    ensures
        r@ == spec_surrounding_positions(*pos),
        r@.len() == 8,
{
    let xl = dec_clamped(pos.x, GRID_X_MAX);
    let xr = inc_clamped(pos.x, GRID_X_MAX);
    let yt = dec_clamped(pos.y, GRID_Y_MAX);
    let yb = inc_clamped(pos.y, GRID_Y_MAX);
    let xm = if pos.x > GRID_X_MAX {
        GRID_X_MAX
    } else {
        pos.x
    };
    let ym = if pos.y > GRID_Y_MAX {
        GRID_Y_MAX
    } else {
        pos.y
    };
    let r: Vec<Position> = vec![
        Position { x: xl, y: ym },
        Position { x: xr, y: ym },
        Position { x: xm, y: yt },
        Position { x: xl, y: yt },
        Position { x: xr, y: yt },
        Position { x: xm, y: yb },
        Position { x: xl, y: yb },
        Position { x: xr, y: yb },
    ];
    proof {
        assert(r@ =~= spec_surrounding_positions(*pos));
    }
    r
}

/// Every candidate that the spatial resolver returns lies inside the grid,
/// and the left neighbour is listed first, before the top neighbour.
pub proof fn lemma_surrounding_positions_clamped(pos: Position)
    ensures
        spec_surrounding_positions(pos).len() == 8,
        forall|i: int|
            0 <= i < 8 ==> #[trigger] spec_surrounding_positions(pos)[i].in_bounds(),
        spec_surrounding_positions(pos)[0] == (Position {
            x: spec_dec_clamped(pos.x, GRID_X_MAX),
            y: if pos.y > GRID_Y_MAX {
                GRID_Y_MAX
            } else {
                pos.y
            },
        }),
{
}

} // verus!
