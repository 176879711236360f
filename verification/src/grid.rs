//! Static playfield geometry: the grid measured in cells, the margins the
//! player may not cross, and the line past which descending entities despawn.

use vstd::prelude::*;

verus! {

/// Width of the playfield in cells.
pub const WIDTH_CELLS: i64 = 20;

/// Height of the playfield in cells.
pub const HEIGHT_CELLS: i64 = 30;

/// Leftmost column an entity may occupy.
pub const MIN_X: i64 = 1;

/// Rightmost column an entity may occupy (`WIDTH_CELLS - 2`).
pub const MAX_X: i64 = WIDTH_CELLS - 2;

/// The player must stay strictly below this row (HUD margin).
pub const TOP_MARGIN: i64 = 3;

/// The player must stay strictly above this row (`HEIGHT_CELLS - 3`).
pub const BOTTOM_ROW: i64 = HEIGHT_CELLS - 3;

/// Descending entities whose row exceeds this line are despawned
/// (`HEIGHT_CELLS - 4`).
pub const DESPAWN_ROW: i64 = HEIGHT_CELLS - 4;

/// Column where the player (re)spawns.
pub const SPAWN_X: i64 = 10;

/// Row where the player (re)spawns.
pub const SPAWN_Y: i64 = 26;

/// A world coordinate in cell units: `(column, row)`.  Rows grow downward.
pub type Coord = (i64, i64);

/// The region the player ship may occupy: columns `[MIN_X, MAX_X]`,
/// rows strictly between `TOP_MARGIN` and `BOTTOM_ROW`.
pub open spec fn player_in_bounds(x: int, y: int) -> bool {
    MIN_X <= x <= MAX_X && TOP_MARGIN < y < BOTTOM_ROW
}

} // verus!
