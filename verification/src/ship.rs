//! One candidate of the search: an immutable genome and the mutable
//! trajectory state its simulation builds up, with the exact fixed-point
//! step semantics of one discrete turn.

use vstd::prelude::*;
use crate::geometry::{Pos, pos_bounded};
use crate::level::{LevelData, in_map_s, MAP_WIDTH, MAP_HEIGHT};
use crate::nums::{clamp_s, clamp_i32};
use crate::trig::{cos_deg_s, sin_deg_s, cos_milli, lemma_cos_milli_bounds};
use crate::rng::rand_range_i64;

verus! {

/// Number of genes of every genome: the turn limit of one simulation.
pub const CHROMOSOME_SIZE: usize = 180;

/// One per-turn control instruction: a rotation delta in whole degrees and
/// a thrust delta.
#[derive(Clone, Copy, Debug, PartialEq, Eq, Structural)]
pub struct Gene {
    /// Rotation delta, clamped by the simulator into `[-15, 15]` degrees.
    pub angle: i32,
    /// Thrust delta, clamped by the simulator into `[-1, 1]`.
    pub power: i32,
}

/// A gene as the sampler produces it: deltas already inside the clamps.
pub open spec fn wf_gene(g: Gene) -> bool {
    -15 <= g.angle <= 15 && -1 <= g.power <= 1
}

/// The genome of a candidate, plus its fitness once evaluated.
#[derive(Debug)]
pub struct Chromosome {
    /// One instruction per turn.
    pub genes: Vec<Gene>,
    /// Fitness in milli-points; zero until the candidate is evaluated.
    pub fitness: i64,
}

impl Chromosome {
    /// Fixed genome length, sane genes, representable fitness.
    pub open spec fn wf(self) -> bool {
        &&& self.genes@.len() == CHROMOSOME_SIZE
        &&& forall|i: int| 0 <= i < self.genes@.len() ==> wf_gene(#[trigger] self.genes@[i])
        &&& 0 <= self.fitness <= 300_000
    }

    /// A fresh genome, every gene sampled independently and uniformly.
    pub fn random(rng: &mut rand::rngs::StdRng) -> (r: Chromosome)
        ensures
            r.wf(),
            r.fitness == 0,
    {
        let mut genes: Vec<Gene> = Vec::new();
        let mut i: usize = 0;
        while i < CHROMOSOME_SIZE
            invariant
                0 <= i <= CHROMOSOME_SIZE,
                genes@.len() == i,
                forall|j: int| 0 <= j < i ==> wf_gene(#[trigger] genes@[j]),
            decreases CHROMOSOME_SIZE - i,
        {
            let da: i64 = rand_range_i64(rng, -15, 16);
            let dp: i64 = rand_range_i64(rng, -1, 2);
            genes.push(Gene { angle: da as i32, power: dp as i32 });
            i = i + 1;
        }
        Chromosome { genes, fitness: 0 }
    }

    /// A copy of the genome and the fitness.
    pub fn duplicate(&self) -> (r: Chromosome)
        ensures
            r.genes@ == self.genes@,
            r.fitness == self.fitness,
    {
        let mut genes: Vec<Gene> = Vec::new();
        let mut i: usize = 0;
        while i < self.genes.len()
            invariant
                0 <= i <= self.genes@.len(),
                genes@ == self.genes@.take(i as int),
            decreases self.genes@.len() - i,
        {
            genes.push(self.genes[i]);
            proof {
                assert(genes@ == self.genes@.take(i + 1 as int));
            }
            i = i + 1;
        }
        proof {
            assert(self.genes@.take(self.genes@.len() as int) =~= self.genes@);
        }
        Chromosome { genes, fitness: self.fitness }
    }
}

/// New orientation after one turn: the delta clamped into `[-15, 15]`, the
/// accumulator clamped into `[-90, 90]`.
pub open spec fn next_angle_s(angle: int, da: int) -> int {
    clamp_s(angle + clamp_s(da, -15, 15), -90, 90)
}

/// New thrust after one turn: while fuel remains, the delta clamped into
/// `[-1, 1]` and the accumulator clamped into `[0, 4]`; with the tank empty
/// the thrust is forced to zero.
pub open spec fn next_power_s(power: int, fuel: int, dp: int) -> int {
    if fuel > 0 {
        clamp_s(power + clamp_s(dp, -1, 1), 0, 4)
    } else {
        0
    }
}

/// New fuel after one turn: the new thrust is burnt, and the tank never goes
/// below empty.
pub open spec fn next_fuel_s(fuel: int, new_power: int) -> int {
    if fuel > 0 {
        if fuel - new_power >= 0 {
            fuel - new_power
        } else {
            0
        }
    } else {
        fuel
    }
}

/// Vertical acceleration in milli-metres per turn squared: the vertical
/// thrust component minus gravity.
pub open spec fn v_acc_s(power: int, angle: int, gravity: int) -> int {
    power * cos_deg_s(angle) - gravity
}

/// Horizontal acceleration in milli-metres per turn squared: a positive
/// angle leans the thrust to the left.
pub open spec fn h_acc_s(power: int, angle: int) -> int {
    -(power * sin_deg_s(angle))
}

/// Angle, power and fuel after one instruction.
pub open spec fn ctrl_step_s(angle: int, power: int, fuel: int, da: int, dp: int) -> (
    int,
    int,
    int,
) {
    let np = next_power_s(power, fuel, dp);
    (next_angle_s(angle, da), np, next_fuel_s(fuel, np))
}

/// Angle, power and fuel after a whole instruction sequence.
pub open spec fn ctrl_run_s(angle: int, power: int, fuel: int, instrs: Seq<(int, int)>) -> (
    int,
    int,
    int,
)
    decreases instrs.len(),
{
    if instrs.len() == 0 {
        (angle, power, fuel)
    } else {
        let st = ctrl_step_s(angle, power, fuel, instrs[0].0, instrs[0].1);
        ctrl_run_s(st.0, st.1, st.2, instrs.drop_first())
    }
}

/// However long the instruction sequence, the accumulated angle stays in
/// `[-90, 90]` and the accumulated power in `[0, 4]`; fuel never goes
/// negative and never grows; and once the tank is empty it stays empty and
/// every further turn flies with zero thrust.
pub proof fn lemma_ctrl_run_bounds(angle: int, power: int, fuel: int, instrs: Seq<(int, int)>)
    requires
        -90 <= angle <= 90,
        0 <= power <= 4,
        0 <= fuel,
    ensures
        -90 <= ctrl_run_s(angle, power, fuel, instrs).0 <= 90,
        0 <= ctrl_run_s(angle, power, fuel, instrs).1 <= 4,
        0 <= ctrl_run_s(angle, power, fuel, instrs).2 <= fuel,
        fuel == 0 ==> ctrl_run_s(angle, power, fuel, instrs).2 == 0,
        fuel == 0 && instrs.len() > 0 ==> ctrl_run_s(angle, power, fuel, instrs).1 == 0,
    decreases instrs.len(),
{
    if instrs.len() > 0 {
        let st = ctrl_step_s(angle, power, fuel, instrs[0].0, instrs[0].1);
        lemma_ctrl_run_bounds(st.0, st.1, st.2, instrs.drop_first());
    }
}

/// The bounds of `lemma_ctrl_run_bounds` hold after every prefix of the
/// instruction sequence: at every turn, not only at the end.
pub proof fn lemma_ctrl_run_bounds_every_turn(
    angle: int,
    power: int,
    fuel: int,
    instrs: Seq<(int, int)>,
)
    requires
        -90 <= angle <= 90,
        0 <= power <= 4,
        0 <= fuel,
    ensures
        forall|k: int|
            0 <= k <= instrs.len() ==> {
                let st = #[trigger] ctrl_run_s(angle, power, fuel, instrs.take(k));
                -90 <= st.0 <= 90 && 0 <= st.1 <= 4 && 0 <= st.2 <= fuel
            },
{
    assert forall|k: int| 0 <= k <= instrs.len() implies {
        let st = #[trigger] ctrl_run_s(angle, power, fuel, instrs.take(k));
        -90 <= st.0 <= 90 && 0 <= st.1 <= 4 && 0 <= st.2 <= fuel
    } by {
        lemma_ctrl_run_bounds(angle, power, fuel, instrs.take(k));
    }
}

/// One candidate: genome, physical state, trajectory and terminal flags.
#[derive(Debug)]
pub struct Ship {
    /// The genome driving this candidate, with its fitness.
    pub chromosome: Chromosome,
    /// Current position.
    pub pos: Pos,
    /// Accumulated orientation, whole degrees in `[-90, 90]`.
    pub angle: i32,
    /// Accumulated thrust power in `[0, 4]`.
    pub power: i32,
    /// Horizontal speed, units of 1/2000 metre per turn.
    pub h_speed: i64,
    /// Vertical speed, units of 1/2000 metre per turn.
    pub v_speed: i64,
    /// Remaining fuel, whole units, never negative.
    pub fuel: i64,
    /// Terminal: the candidate crashed or left the map.
    pub is_dead: bool,
    /// The candidate touched down inside the landing zone gently enough.
    pub is_solution: bool,
    /// Where the trajectory met the terrain.
    pub crash_pos: Pos,
    /// Every position the candidate has visited, one per turn.
    pub path: Vec<Pos>,
    /// Cloned unchanged from the previous generation.
    pub is_elite: bool,
    /// Index of the terrain segment the trajectory met.
    pub crash_zone_index: usize,
    /// Terminal: the candidate left the map without touching the terrain.
    pub is_out: bool,
}

impl Ship {
    /// The physical-state invariant every candidate keeps: clamped
    /// accumulators, bounded fuel and speeds, bounded coordinates, a path no
    /// longer than the genome, and coherent terminal flags.
    pub open spec fn wf(self) -> bool {
        &&& self.chromosome.wf()
        &&& -90 <= self.angle <= 90
        &&& 0 <= self.power <= 4
        &&& 0 <= self.fuel <= 100_000
        &&& self.path@.len() <= CHROMOSOME_SIZE
        &&& -(1_000_000 + 16_000 * (self.path@.len() as int)) <= self.h_speed <= 1_000_000
            + 16_000 * (self.path@.len() as int)
        &&& -(1_000_000 + 16_000 * (self.path@.len() as int)) <= self.v_speed <= 1_000_000
            + 16_000 * (self.path@.len() as int)
        &&& pos_bounded(self.pos)
        &&& pos_bounded(self.crash_pos)
        &&& (self.is_out ==> self.is_dead)
        &&& (self.is_solution ==> self.is_dead && !self.is_out)
    }

    /// The landing-success predicate is sound: a candidate flagged as a
    /// solution crashed into terrain segment `lz`, upright, descending no
    /// faster than 40 m/s and drifting no faster than 20 m/s.
    pub open spec fn solution_sound(self, lz: int) -> bool {
        self.is_solution ==> {
            &&& self.crash_zone_index == lz
            &&& self.angle == 0
            &&& self.v_speed >= -80_000
            &&& -40_000 <= self.h_speed <= 40_000
        }
    }

    /// A fresh candidate: the given genome, the level's initial state, an
    /// empty trajectory, every flag cleared.
    pub fn from_genome(level: &LevelData, chromosome: Chromosome) -> (r: Ship)
        requires
            level.wf(),
            chromosome.wf(),
        ensures
            r.chromosome.genes@ == chromosome.genes@,
            r.chromosome.fitness == chromosome.fitness,
            r.pos == level.pos,
            r.angle == level.angle,
            r.power == level.power,
            r.h_speed == level.h_speed,
            r.v_speed == level.v_speed,
            r.fuel == level.fuel,
            !r.is_dead && !r.is_solution && !r.is_elite && !r.is_out,
            r.crash_pos == (Pos { x: 0, y: 0 }),
            r.crash_zone_index == 0,
            r.path@.len() == 0,
            r.wf(),
    {
        Ship {
            chromosome,
            pos: level.pos,
            angle: level.angle,
            power: level.power,
            h_speed: level.h_speed,
            v_speed: level.v_speed,
            fuel: level.fuel,
            is_dead: false,
            is_solution: false,
            crash_pos: Pos { x: 0, y: 0 },
            path: Vec::new(),
            is_elite: false,
            crash_zone_index: 0,
            is_out: false,
        }
    }

    /// A deep copy, field for field.
    pub fn duplicate(&self) -> (r: Ship)
        ensures
            r.chromosome.genes@ == self.chromosome.genes@,
            r.chromosome.fitness == self.chromosome.fitness,
            r.pos == self.pos,
            r.angle == self.angle,
            r.power == self.power,
            r.h_speed == self.h_speed,
            r.v_speed == self.v_speed,
            r.fuel == self.fuel,
            r.is_dead == self.is_dead,
            r.is_solution == self.is_solution,
            r.crash_pos == self.crash_pos,
            r.path@ == self.path@,
            r.is_elite == self.is_elite,
            r.crash_zone_index == self.crash_zone_index,
            r.is_out == self.is_out,
    {
        let mut path: Vec<Pos> = Vec::new();
        let mut i: usize = 0;
        while i < self.path.len()
            invariant
                0 <= i <= self.path@.len(),
                path@ == self.path@.take(i as int),
            decreases self.path@.len() - i,
        {
            path.push(self.path[i]);
            proof {
                assert(path@ == self.path@.take(i + 1 as int));
            }
            i = i + 1;
        }
        proof {
            assert(self.path@.take(self.path@.len() as int) =~= self.path@);
        }
        Ship {
            chromosome: self.chromosome.duplicate(),
            pos: self.pos,
            angle: self.angle,
            power: self.power,
            h_speed: self.h_speed,
            v_speed: self.v_speed,
            fuel: self.fuel,
            is_dead: self.is_dead,
            is_solution: self.is_solution,
            crash_pos: self.crash_pos,
            path,
            is_elite: self.is_elite,
            crash_zone_index: self.crash_zone_index,
            is_out: self.is_out,
        }
    }

    /// Whether the candidate has left the map rectangle.
    pub fn is_out_of_map(&self) -> (r: bool)
        ensures
            r == !in_map_s(self.pos),
    {
        self.pos.x < 0 || self.pos.x >= MAP_WIDTH || self.pos.y < 0 || self.pos.y >= MAP_HEIGHT
    }

    /// One discrete turn: rotate, throttle, burn fuel, then integrate the
    /// accelerations (exactly, thanks to the 1/2000 metre grid) and record
    /// the new position on the path.
    pub fn simulate(&mut self, angle: i32, power: i32, gravity: i64)
        requires
            old(self).wf(),
            !old(self).is_dead,
            in_map_s(old(self).pos),
            old(self).path@.len() < CHROMOSOME_SIZE,
            0 <= gravity <= 4_000,
        ensures
            final(self).angle == next_angle_s(old(self).angle as int, angle as int),
            final(self).power == next_power_s(
                old(self).power as int,
                old(self).fuel as int,
                power as int,
            ),
            final(self).fuel == next_fuel_s(old(self).fuel as int, final(self).power as int),
            final(self).pos.y == old(self).pos.y + old(self).v_speed + v_acc_s(
                final(self).power as int,
                final(self).angle as int,
                gravity as int,
            ),
            final(self).v_speed == old(self).v_speed + 2 * v_acc_s(
                final(self).power as int,
                final(self).angle as int,
                gravity as int,
            ),
            final(self).pos.x == old(self).pos.x + old(self).h_speed + h_acc_s(
                final(self).power as int,
                final(self).angle as int,
            ),
            final(self).h_speed == old(self).h_speed + 2 * h_acc_s(
                final(self).power as int,
                final(self).angle as int,
            ),
            (final(self).angle as int, final(self).power as int, final(self).fuel as int)
                == ctrl_step_s(
                old(self).angle as int,
                old(self).power as int,
                old(self).fuel as int,
                angle as int,
                power as int,
            ),
            final(self).path@ == old(self).path@.push(final(self).pos),
            final(self).chromosome.genes@ == old(self).chromosome.genes@,
            final(self).chromosome.fitness == old(self).chromosome.fitness,
            final(self).is_dead == old(self).is_dead,
            final(self).is_solution == old(self).is_solution,
            final(self).is_elite == old(self).is_elite,
            final(self).is_out == old(self).is_out,
            final(self).crash_pos == old(self).crash_pos,
            final(self).crash_zone_index == old(self).crash_zone_index,
            final(self).wf(),
    {
        let da: i32 = clamp_i32(angle, -15, 15);
        self.angle = clamp_i32(self.angle + da, -90, 90);

        if self.fuel > 0 {
            let dp: i32 = clamp_i32(power, -1, 1);
            self.power = clamp_i32(self.power + dp, 0, 4);
            if self.fuel >= self.power as i64 {
                self.fuel = self.fuel - self.power as i64;
            } else {
                self.fuel = 0;
            }
        } else {
            self.power = 0;
        }

        let a_abs: i32 = if self.angle >= 0 {
            self.angle
        } else {
            -self.angle
        };
        let cos_v: i32 = cos_milli(a_abs);
        let sin_v: i32 = if self.angle >= 0 {
            cos_milli(90 - self.angle)
        } else {
            -cos_milli(90 + self.angle)
        };
        proof {
            lemma_cos_milli_bounds(a_abs as int);
            if self.angle >= 0 {
                lemma_cos_milli_bounds(90 - self.angle);
            } else {
                lemma_cos_milli_bounds(90 + self.angle);
            }
            crate::nums::lemma_mul_bounds(self.power as int, cos_v as int, 4, 1000);
            crate::nums::lemma_mul_bounds(self.power as int, sin_v as int, 4, 1000);
        }
        let v_acc: i64 = (self.power as i64) * (cos_v as i64) - gravity;
        self.pos.y = self.pos.y + self.v_speed + v_acc;
        self.v_speed = self.v_speed + 2 * v_acc;
        let h_acc: i64 = -((self.power as i64) * (sin_v as i64));
        self.pos.x = self.pos.x + self.h_speed + h_acc;
        self.h_speed = self.h_speed + 2 * h_acc;
        self.path.push(self.pos);
    }
}

} // verus!
