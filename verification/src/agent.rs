//! The agent update stage: sensing, steering, movement, deposition.
//!
//! Each agent reads the trail field at three sensor points forward of its
//! heading, turns toward the strongest reading (a supplied random word
//! breaks exact ties), advances along its heading, wraps toroidally at the
//! field edges, and adds one deposit unit to the cell it lands in. Agents
//! are updated in index order, so deposits of earlier agents in the same
//! pass are visible to later ones — a deterministic schedule of the
//! additive, order-irrelevant deposition the stage guarantees.

use vstd::prelude::*;
use vstd::arithmetic::div_mod::{lemma_div_is_ordered, lemma_div_multiples_vanish,
    lemma_div_pos_is_pos, lemma_multiply_divide_lt};
use vstd::arithmetic::mul::lemma_mul_inequality;
use crate::params::{Params, MAX_DELTA_MS};
use crate::field::{TrailField, total_of, spec_area_sum, lemma_elem_le_total,
    lemma_total_update, lemma_total_nonneg, lemma_index_bound, lemma_area_sum_bounds};
use crate::trig::{spec_sin_milli, spec_cos_milli, sin_milli, cos_milli,
    lemma_sin_bounds, lemma_cos_bounds};

verus! {

/// One simulated particle: position in milli-cells, heading in whole
/// degrees.
#[derive(PartialEq, Eq, Structural, Clone, Copy, Debug)]
pub struct Agent {
    /// Horizontal position, `0 <= x < width * 1000`.
    pub x: u32,
    /// Vertical position, `0 <= y < height * 1000`.
    pub y: u32,
    /// Heading in degrees, `0 <= heading < 360`.
    pub heading: u32,
}

impl Agent {
    /// The agent lies inside the field and its heading is a valid angle.
    pub open spec fn wf(self, p: Params) -> bool {
        &&& self.x < p.span_x()
        &&& self.y < p.span_y()
        &&& self.heading < 360
    }
}

/// Which way a steering decision turns.
#[derive(PartialEq, Eq, Structural, Clone, Copy, Debug)]
pub enum TurnDir {
    /// Keep the current heading.
    Straight,
    /// Turn by the turning increment toward the left sensor.
    Left,
    /// Turn by the turning increment toward the right sensor.
    Right,
}

/// Magnitude of the difference of two readings.
pub open spec fn spec_abs_diff(a: int, b: int) -> int {
    if a >= b {
        a - b
    } else {
        b - a
    }
}

/// The steering rule on the three sensor readings. Center at least as
/// strong as both sides: straight. Both sides stronger than center and
/// within tolerance of each other: the random word decides (even left,
/// odd right). Otherwise: toward the stronger side.
pub open spec fn spec_steer(c: int, l: int, r: int, tol: int, rand: u32) -> TurnDir {
    if c >= l && c >= r {
        TurnDir::Straight
    } else if l > c && r > c && spec_abs_diff(l, r) <= tol {
        if rand % 2 == 0 {
            TurnDir::Left
        } else {
            TurnDir::Right
        }
    } else if l >= r {
        TurnDir::Left
    } else {
        TurnDir::Right
    }
}

/// A heading after turning by `step` degrees in direction `dir`.
pub open spec fn spec_turn(h: int, step: int, dir: TurnDir) -> int {
    match dir {
        TurnDir::Straight => h,
        TurnDir::Left => (h + 360 - step) % 360,
        TurnDir::Right => (h + step) % 360,
    }
}

/// A coordinate displaced by `dist * trig / 1000` along one axis and
/// wrapped into `[0, span)` — the toroidal boundary policy, applied alike
/// to sensing and movement.
pub open spec fn spec_move_coord(pos: int, dist: int, trig: int, span: int) -> int {
    let mag = if trig >= 0 { trig } else { -trig };
    let off = ((dist * mag) / 1000) % span;
    if trig >= 0 {
        (pos + off) % span
    } else {
        (pos + span - off) % span
    }
}

/// Average intensity over the square sampling window of radius
/// `sensor_size` centered on cell `(cx, cy)`.
pub open spec fn spec_reading(f: Seq<u64>, p: Params, cx: int, cy: int) -> int {
    let s = p.sensor_size as int;
    let n = 2 * s + 1;
    spec_area_sum(f, p.width as int, p.height as int,
        (cx + p.width - s) % (p.width as int), (cy + p.height - s) % (p.height as int),
        n, n) / (n * n)
}

/// Column of the sensor placed `sensor_dist` ahead of the agent at
/// absolute angle `deg`.
pub open spec fn spec_sensor_cx(p: Params, a: Agent, deg: int) -> int {
    spec_move_coord(a.x as int, p.sensor_dist as int, spec_cos_milli(deg), p.span_x()) / 1000
}

/// Row of that sensor.
pub open spec fn spec_sensor_cy(p: Params, a: Agent, deg: int) -> int {
    spec_move_coord(a.y as int, p.sensor_dist as int, spec_sin_milli(deg), p.span_y()) / 1000
}

/// The averaged trail intensity that sensor reports.
pub open spec fn spec_sensor_reading(f: Seq<u64>, p: Params, a: Agent, deg: int) -> int {
    spec_reading(f, p, spec_sensor_cx(p, a, deg), spec_sensor_cy(p, a, deg))
}

/// The heading an agent leaves the steering step with: the turn chosen by
/// [`spec_steer`] on the center, left and right sensor readings.
pub open spec fn spec_new_heading(f: Seq<u64>, p: Params, a: Agent, rand: u32) -> int {
    let c = spec_sensor_reading(f, p, a, a.heading as int);
    let l = spec_sensor_reading(f, p, a, (a.heading + 360 - p.sensor_angle) % 360);
    let r = spec_sensor_reading(f, p, a, (a.heading + p.sensor_angle) % 360);
    spec_turn(a.heading as int, p.turn_step as int,
        spec_steer(c, l, r, p.tie_tol as int, rand))
}

/// The agent after advancing `speed * delta / 1000` milli-cells along
/// heading `h`, wrapping toroidally. The heading is carried unchanged.
pub open spec fn spec_moved(p: Params, a: Agent, h: int, delta: int) -> Agent {
    let dist = (p.speed * delta) / 1000;
    Agent {
        x: spec_move_coord(a.x as int, dist, spec_cos_milli(h), p.span_x()) as u32,
        y: spec_move_coord(a.y as int, dist, spec_sin_milli(h), p.span_y()) as u32,
        heading: h as u32,
    }
}

/// One agent's full update: sense, steer, move.
pub open spec fn spec_step_agent(p: Params, f: Seq<u64>, a: Agent, delta: int, rand: u32) -> Agent {
    spec_moved(p, a, spec_new_heading(f, p, a, rand), delta)
}

/// Index of the cell the agent deposits into.
pub open spec fn spec_deposit_idx(p: Params, a: Agent) -> int {
    (a.y as int / 1000) * p.width + a.x as int / 1000
}

/// The field after the agent adds one deposit unit at its cell.
pub open spec fn spec_after_deposit(p: Params, f: Seq<u64>, a: Agent) -> Seq<u64> {
    let idx = spec_deposit_idx(p, a);
    f.update(idx, (f[idx] + p.deposit) as u64)
}

/// The first `n` agents updated in index order over a shared field.
pub open spec fn spec_agent_pass(
    p: Params, agents: Seq<Agent>, f: Seq<u64>, delta: int, rands: Seq<u32>, n: int,
) -> (Seq<Agent>, Seq<u64>)
    decreases n,
{
    if n <= 0 {
        (agents, f)
    } else {
        let prev = spec_agent_pass(p, agents, f, delta, rands, n - 1);
        let a2 = spec_step_agent(p, prev.1, prev.0[n - 1], delta, rands[n - 1]);
        (prev.0.update(n - 1, a2), spec_after_deposit(p, prev.1, a2))
    }
}

/// A displaced, wrapped coordinate.
pub fn move_coord(pos: u32, dist: u64, trig: i32, span: u32) -> (r: u32)
    requires
        1 <= span <= 4096000,
        pos < span,
        -1000 <= trig <= 1000,
        dist <= u32::MAX,
    ensures
        r == spec_move_coord(pos as int, dist as int, trig as int, span as int),
        r < span,
{
    let mag: u64 = if trig >= 0 { trig as u64 } else { (-trig) as u64 };
    proof {
        assert((dist as int) * (mag as int) <= (u32::MAX as int) * 1000)
            by (nonlinear_arith)
            requires dist <= u32::MAX && mag <= 1000;
    }
    let off64: u64 = ((dist * mag) / 1000) % (span as u64);
    let off: u32 = off64 as u32;
    if trig >= 0 {
        (pos + off) % span
    } else {
        (pos + span - off) % span
    }
}

/// The steering decision on three averaged readings.
pub fn steer(c: u64, l: u64, r: u64, tol: u64, rand: u32) -> (d: TurnDir)
    ensures
        d == spec_steer(c as int, l as int, r as int, tol as int, rand),
{
    if c >= l && c >= r {
        TurnDir::Straight
    } else if l > c && r > c && (if l >= r { l - r } else { r - l }) <= tol {
        if rand % 2 == 0 {
            TurnDir::Left
        } else {
            TurnDir::Right
        }
    } else if l >= r {
        TurnDir::Left
    } else {
        TurnDir::Right
    }
}

/// A heading turned by `step` degrees in direction `d`.
pub fn apply_turn(h: u32, step: u32, d: TurnDir) -> (r: u32)
    requires
        h < 360,
        step < 360,
    ensures
        r == spec_turn(h as int, step as int, d),
        r < 360,
{
    match d {
        TurnDir::Straight => h,
        TurnDir::Left => (h + 360 - step) % 360,
        TurnDir::Right => (h + step) % 360,
    }
}

/// Average trail intensity over the sampling window centered on cell
/// `(cx, cy)`.
pub fn area_reading(field: &TrailField, p: &Params, cx: u32, cy: u32) -> (r: u64)
    requires
        p.wf(),
        field.wf(),
        field.width == p.width,
        field.height == p.height,
        cx < p.width,
        cy < p.height,
    ensures
        r == spec_reading(field@, *p, cx as int, cy as int),
{
    let s: u32 = p.sensor_size;
    let w: u32 = p.width;
    let h: u32 = p.height;
    let n: u32 = 2 * s + 1;
    let x0: u32 = (cx + w - s) % w;
    let y0: u32 = (cy + h - s) % h;
    let ghost fs: Seq<u64> = field@;
    let sum: u128 = field.block_sum(x0, y0, n);
    proof {
        assert(1 <= (n as int) * (n as int) <= 8191 * 8191) by (nonlinear_arith)
            requires 1 <= n as int <= 8191;
    }
    let count: u64 = (n as u64) * (n as u64);
    proof {
        lemma_area_sum_bounds(fs, w as int, h as int, x0 as int, y0 as int, n as int, n as int);
        lemma_div_pos_is_pos(sum as int, count as int);
        lemma_div_is_ordered(sum as int, (count as int) * (u64::MAX as int), count as int);
        lemma_div_multiples_vanish(u64::MAX as int, count as int);
    }
    (sum / (count as u128)) as u64
}

/// The reading of the sensor placed ahead of agent `a` at absolute angle
/// `deg`.
pub fn sensor_reading(field: &TrailField, p: &Params, a: Agent, deg: u32) -> (r: u64)
    requires
        p.wf(),
        field.wf(),
        field.width == p.width,
        field.height == p.height,
        a.wf(*p),
        deg < 360,
    ensures
        r == spec_sensor_reading(field@, *p, a, deg as int),
{
    let c: i32 = cos_milli(deg);
    let sn: i32 = sin_milli(deg);
    let span_x: u32 = p.width * 1000;
    let span_y: u32 = p.height * 1000;
    let sx: u32 = move_coord(a.x, p.sensor_dist as u64, c, span_x);
    let sy: u32 = move_coord(a.y, p.sensor_dist as u64, sn, span_y);
    proof {
        lemma_multiply_divide_lt(sx as int, 1000, p.width as int);
        lemma_multiply_divide_lt(sy as int, 1000, p.height as int);
        lemma_div_pos_is_pos(sx as int, 1000);
        lemma_div_pos_is_pos(sy as int, 1000);
    }
    let cx: u32 = sx / 1000;
    let cy: u32 = sy / 1000;
    area_reading(field, p, cx, cy)
}

/// One agent's update against a field snapshot: sense at the three sensor
/// angles, steer, move along the new heading, wrap at the edges. The
/// heading after the call is the steered heading — wrapping at a field
/// edge never changes it.
pub fn step_agent(field: &TrailField, p: &Params, a: Agent, delta_ms: u32, rand: u32) -> (r: Agent)
    requires
        p.wf(),
        field.wf(),
        field.width == p.width,
        field.height == p.height,
        a.wf(*p),
        delta_ms <= MAX_DELTA_MS,
    ensures
        r == spec_step_agent(*p, field@, a, delta_ms as int, rand),
        r.heading == spec_new_heading(field@, *p, a, rand),
        r.wf(*p),
{
    let center = sensor_reading(field, p, a, a.heading);
    let left = sensor_reading(field, p, a, (a.heading + 360 - p.sensor_angle) % 360);
    let right = sensor_reading(field, p, a, (a.heading + p.sensor_angle) % 360);
    let dir = steer(center, left, right, p.tie_tol, rand);
    let h2: u32 = apply_turn(a.heading, p.turn_step, dir);
    proof {
        assert((p.speed as int) * (delta_ms as int)
            <= (1000000 as int) * (MAX_DELTA_MS as int)) by (nonlinear_arith)
            requires p.speed <= 1000000 && delta_ms <= MAX_DELTA_MS;
        lemma_div_is_ordered((p.speed as int) * (delta_ms as int),
            (1000000 as int) * (MAX_DELTA_MS as int), 1000);
        lemma_cos_bounds(h2 as int);
        lemma_sin_bounds(h2 as int);
    }
    let dist: u64 = (p.speed as u64) * (delta_ms as u64) / 1000;
    let mx: u32 = move_coord(a.x, dist, cos_milli(h2), p.width * 1000);
    let my: u32 = move_coord(a.y, dist, sin_milli(h2), p.height * 1000);
    Agent { x: mx, y: my, heading: h2 }
}

/// The agent update stage: every agent senses, steers, moves and deposits,
/// in index order. Guarantees of one pass:
/// - the result is exactly [`spec_agent_pass`] of the inputs (the pass is
///   a function of the prior state, the frame delta and the random words);
/// - every agent ends inside the field with a valid heading (the toroidal
///   boundary policy);
/// - the total intensity of the trail field grows by exactly
///   `population * deposit` — deposits accumulate, never overwrite.
pub fn agent_update_pass(
    p: &Params, agents: &mut Vec<Agent>, field: &mut TrailField, delta_ms: u32, rands: &Vec<u32>,
)
    requires
        p.wf(),
        old(field).wf(),
        old(field).width == p.width,
        old(field).height == p.height,
        old(agents).len() == p.population,
        forall|i: int| 0 <= i < old(agents).len() ==> old(agents)@[i].wf(*p),
        rands.len() == p.population,
        delta_ms <= MAX_DELTA_MS,
        total_of(old(field)@) + p.population * p.deposit <= u64::MAX,
    ensures
        final(agents)@ == spec_agent_pass(*p, old(agents)@, old(field)@, delta_ms as int,
            rands@, p.population as int).0,
        final(field)@ == spec_agent_pass(*p, old(agents)@, old(field)@, delta_ms as int,
            rands@, p.population as int).1,
        final(field).wf(),
        final(field).width == p.width,
        final(field).height == p.height,
        final(agents).len() == p.population,
        forall|i: int| 0 <= i < final(agents).len() ==> final(agents)@[i].wf(*p),
        total_of(final(field)@) == total_of(old(field)@) + p.population * p.deposit,
{
    let ghost agents0: Seq<Agent> = agents@;
    let ghost field0: Seq<u64> = field@;
    let ghost total0: int = total_of(field0);
    proof {
        lemma_total_nonneg(field0);
    }
    let pop: usize = p.population as usize;
    let mut k: usize = 0;
    while k < pop
        invariant
            p.wf(),
            pop == p.population,
            delta_ms <= MAX_DELTA_MS,
            rands.len() == p.population,
            field.wf(),
            field.width == p.width,
            field.height == p.height,
            agents.len() == p.population,
            forall|i: int| 0 <= i < agents.len() ==> agents@[i].wf(*p),
            k <= pop,
            agents@ == spec_agent_pass(*p, agents0, field0, delta_ms as int, rands@, k as int).0,
            field@ == spec_agent_pass(*p, agents0, field0, delta_ms as int, rands@, k as int).1,
            total_of(field@) == total0 + (k as int) * p.deposit,
            total0 + p.population * p.deposit <= u64::MAX,
            total0 >= 0,
        decreases pop - k,
    {
        let a: Agent = agents[k];
        let rnd: u32 = rands[k];
        let a2: Agent = step_agent(field, p, a, delta_ms, rnd);
        proof {
            lemma_multiply_divide_lt(a2.x as int, 1000, p.width as int);
            lemma_multiply_divide_lt(a2.y as int, 1000, p.height as int);
            lemma_div_pos_is_pos(a2.x as int, 1000);
            lemma_div_pos_is_pos(a2.y as int, 1000);
            lemma_index_bound(a2.x as int / 1000, a2.y as int / 1000,
                p.width as int, p.height as int);
            let idx = spec_deposit_idx(*p, a2);
            lemma_elem_le_total(field@, idx);
            assert((k + 1) as int * p.deposit <= p.population * p.deposit) by {
                lemma_mul_inequality((k + 1) as int, p.population as int, p.deposit as int);
            }
            assert((k as int) * p.deposit + p.deposit == (k + 1) as int * p.deposit)
                by (nonlinear_arith);
            lemma_total_update(field@, idx, (field@[idx] + p.deposit) as u64);
        }
        let cx: u32 = a2.x / 1000;
        let cy: u32 = a2.y / 1000;
        field.add_at(cx, cy, p.deposit);
        agents.set(k, a2);
        k = k + 1;
    }
}

/// With the center reading at least as strong as both flanking readings,
/// the agent keeps its heading exactly.
pub proof fn lemma_center_dominates(c: int, l: int, r: int, tol: int, rand: u32, h: int, step: int)
    requires
        c >= l,
        c >= r,
    ensures
        spec_steer(c, l, r, tol, rand) == TurnDir::Straight,
        spec_turn(h, step, spec_steer(c, l, r, tol, rand)) == h,
{
}

/// With a perfectly symmetric neighborhood — equal flanking readings, both
/// above the center — the turn direction is decided by the random word
/// alone, even to the left and odd to the right, and the turn magnitude is
/// the same bounded increment either way. A uniformly random word
/// therefore turns left exactly as often as right.
pub proof fn lemma_tie_break_symmetry(c: int, l: int, r: int, tol: int, rand: u32, h: int, step: int)
    requires
        l == r,
        l > c,
        tol >= 0,
        0 <= h < 360,
        0 <= step < 360,
    ensures
        spec_steer(c, l, r, tol, rand)
            == if rand % 2 == 0 { TurnDir::Left } else { TurnDir::Right },
        spec_turn(h, step, TurnDir::Left) == (h + 360 - step) % 360,
        spec_turn(h, step, TurnDir::Right) == (h + step) % 360,
{
}

/// The toroidal boundary policy: a move wraps the position back into the
/// field and carries the heading through unchanged.
pub proof fn lemma_move_wraps(p: Params, a: Agent, h: int, delta: int)
    requires
        p.wf(),
        0 <= h < 360,
    ensures
        spec_moved(p, a, h, delta).heading == h,
        0 <= spec_moved(p, a, h, delta).x < p.span_x(),
        0 <= spec_moved(p, a, h, delta).y < p.span_y(),
{
    let dist = (p.speed * delta) / 1000;
    let cm = spec_cos_milli(h);
    let sm = spec_sin_milli(h);
    let mx = spec_move_coord(a.x as int, dist, cm, p.span_x());
    let my = spec_move_coord(a.y as int, dist, sm, p.span_y());
    vstd::arithmetic::div_mod::lemma_mod_bound(
        if cm >= 0 { a.x + ((dist * cm) / 1000) % p.span_x() }
        else { a.x + p.span_x() - ((dist * -cm) / 1000) % p.span_x() },
        p.span_x());
    vstd::arithmetic::div_mod::lemma_mod_bound(
        if sm >= 0 { a.y + ((dist * sm) / 1000) % p.span_y() }
        else { a.y + p.span_y() - ((dist * -sm) / 1000) % p.span_y() },
        p.span_y());
    assert(0 <= mx < p.span_x());
    assert(0 <= my < p.span_y());
}

} // verus!
