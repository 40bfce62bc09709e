//! The level description handed to the search: initial lander state and the
//! terrain polyline, plus the terrain spec functions the whole crate shares.
//!
//! All quantities are fixed point: coordinates and speeds in units of 1/2000
//! metre, the angle in whole degrees, power and fuel in whole units.

use vstd::prelude::*;
use crate::geometry::Pos;
use crate::nums::sqrt_floor;

verus! {

/// Map width: 7000 metres in units of 1/2000 metre.
pub const MAP_WIDTH: i64 = 14_000_000;

/// Map height: 3000 metres in units of 1/2000 metre.
pub const MAP_HEIGHT: i64 = 6_000_000;

/// `p` lies inside the map rectangle.
pub open spec fn in_map_s(p: Pos) -> bool {
    0 <= p.x < MAP_WIDTH as int && 0 <= p.y < MAP_HEIGHT as int
}

/// The terrain pair at `i` is flat: both ends share one height.
pub open spec fn is_flat_pair(map: Seq<Pos>, i: int) -> bool {
    0 <= i < map.len() - 1 && map[i].y == map[i + 1].y
}

/// A well-formed terrain: at least two points, not unreasonably many, all
/// inside the map, listed left to right, and exactly one flat pair - the
/// landing zone.
pub open spec fn wf_map(map: Seq<Pos>) -> bool {
    &&& 2 <= map.len() <= 256
    &&& forall|i: int| 0 <= i < map.len() ==> in_map_s(#[trigger] map[i])
    &&& forall|i: int| 0 <= i < map.len() - 1 ==> #[trigger] map[i].x < map[i + 1].x
    &&& exists|i: int| is_flat_pair(map, i)
    &&& forall|i: int, j: int| is_flat_pair(map, i) && is_flat_pair(map, j) ==> i == j
}

/// Distance between two points, as the floor square root of the squared
/// euclidean distance.
pub open spec fn dist_s(a: Pos, b: Pos) -> int {
    let dx = a.x - b.x;
    let dy = a.y - b.y;
    sqrt_floor((dx * dx + dy * dy) as nat) as int
}

/// Length of the terrain segment from `map[i]` to `map[i + 1]`.
pub open spec fn seg_len_s(map: Seq<Pos>, i: int) -> int {
    dist_s(map[i], map[i + 1])
}

/// Summed length of the first `n` terrain segments.
pub open spec fn total_len_s(map: Seq<Pos>, n: int) -> int
    decreases n,
{
    if n <= 0 {
        0
    } else {
        total_len_s(map, n - 1) + seg_len_s(map, n - 1)
    }
}

/// The initial lander state and the terrain, as an external parser hands
/// them over.
#[derive(Debug)]
pub struct LevelData {
    /// Initial position.
    pub pos: Pos,
    /// Initial orientation, whole degrees.
    pub angle: i32,
    /// Initial thrust power.
    pub power: i32,
    /// Initial horizontal speed.
    pub h_speed: i64,
    /// Initial vertical speed.
    pub v_speed: i64,
    /// Initial fuel, whole units.
    pub fuel: i64,
    /// The terrain polyline.
    pub map: Vec<Pos>,
}

impl LevelData {
    /// A level the search accepts: lander inside the map, moderate initial
    /// speeds, clamped angle and power, some fuel, well-formed terrain.
    pub open spec fn wf(self) -> bool {
        &&& in_map_s(self.pos)
        &&& -90 <= self.angle <= 90
        &&& 0 <= self.power <= 4
        &&& -1_000_000 <= self.h_speed <= 1_000_000
        &&& -1_000_000 <= self.v_speed <= 1_000_000
        &&& 1 <= self.fuel <= 100_000
        &&& wf_map(self.map@)
    }

    /// Runtime check of `wf`, so an unverified caller can reject a bad level
    /// before the search starts.
    pub fn check(&self) -> (r: bool)
        ensures
            r == self.wf(),
    {
        let ok_state: bool = self.pos.x >= 0 && self.pos.x < MAP_WIDTH && self.pos.y >= 0
            && self.pos.y < MAP_HEIGHT && self.angle >= -90 && self.angle <= 90 && self.power >= 0
            && self.power <= 4 && self.h_speed >= -1_000_000 && self.h_speed <= 1_000_000
            && self.v_speed >= -1_000_000 && self.v_speed <= 1_000_000 && self.fuel >= 1
            && self.fuel <= 100_000;
        if !ok_state {
            return false;
        }
        if self.map.len() < 2 || self.map.len() > 256 {
            return false;
        }
        let n: usize = self.map.len();
        let mut i: usize = 0;
        let mut flat_count: usize = 0;
        let ghost mut flat_at: int = 0;
        while i < n
            invariant
                0 <= i <= n,
                n == self.map@.len(),
                2 <= n <= 256,
                flat_count <= i,
                forall|j: int| 0 <= j < i ==> in_map_s(#[trigger] self.map@[j]),
                forall|j: int| 0 <= j < i && j < n - 1 ==> #[trigger] self.map@[j].x < self.map@[j
                    + 1].x,
                flat_count == 0 ==> forall|j: int| 0 <= j < i ==> !is_flat_pair(self.map@, j),
                flat_count == 1 ==> is_flat_pair(self.map@, flat_at) && flat_at < i,
                flat_count == 1 ==> forall|j: int|
                    0 <= j < i && j != flat_at ==> !is_flat_pair(self.map@, j),
                flat_count >= 2 ==> !wf_map(self.map@),
            decreases n - i,
        {
            let p = self.map[i];
            if !(p.x >= 0 && p.x < MAP_WIDTH && p.y >= 0 && p.y < MAP_HEIGHT) {
                return false;
            }
            if i + 1 < n && self.map[i].x >= self.map[i + 1].x {
                return false;
            }
            if i + 1 < n && self.map[i].y == self.map[i + 1].y {
                proof {
                    if flat_count == 1 {
                        assert(is_flat_pair(self.map@, flat_at));
                        assert(is_flat_pair(self.map@, i as int));
                        assert(!wf_map(self.map@));
                    } else if flat_count == 0 {
                        flat_at = i as int;
                    }
                }
                flat_count = flat_count + 1;
            }
            i = i + 1;
        }
        if flat_count != 1 {
            proof {
                if flat_count == 0 {
                    assert(forall|j: int| !(0 <= j < n) ==> !is_flat_pair(self.map@, j));
                }
            }
            return false;
        }
        proof {
            assert(forall|j: int| is_flat_pair(self.map@, j) ==> 0 <= j < n);
        }
        true
    }
}

} // verus!
