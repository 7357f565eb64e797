//! The parameter block: immutable simulation constants fixed at startup.
//!
//! Every stage reads the same snapshot; nothing mutates a `Params` after
//! construction. `Params::new` is the only place configuration errors are
//! detected — a block that passes it satisfies [`Params::wf`], which every
//! stage requires.

use vstd::prelude::*;

verus! {

/// Hard capacity bounds. They keep every intermediate fixed-point product
/// inside machine integers and are part of [`Params::wf`].
pub const MAX_DIM: u32 = 4096;
pub const MAX_POPULATION: u32 = 1048576;
pub const MAX_SPEED: u32 = 1000000;
pub const MAX_SENSOR_DIST: u32 = 4096000;
pub const MAX_DECAY_DEN: u32 = 1000000;
pub const MAX_DEPOSIT: u64 = 4294967295;

/// Longest frame delta a pass accepts, in milliseconds (one hour).
pub const MAX_DELTA_MS: u32 = 3600000;

/// Why a configuration was rejected at startup.
#[derive(PartialEq, Eq, Structural, Clone, Copy, Debug)]
pub enum ConfigError {
    /// The population count is zero.
    ZeroPopulation,
    /// A field dimension is zero.
    ZeroDimension,
    /// The decay factor is not strictly between zero and one.
    InvalidDecay,
    /// A value exceeds a hard capacity bound, or the deposit is zero,
    /// or the sensor radius does not fit inside the field.
    OutOfRange,
}

/// Immutable simulation constants. Distances are in milli-cells, angles in
/// whole degrees, times in milliseconds; the decay factor is the rational
/// `decay_num / decay_den`.
#[derive(Clone, Copy, Debug)]
pub struct Params {
    /// Number of agents; fixed for the whole run.
    pub population: u32,
    /// Field width in cells.
    pub width: u32,
    /// Field height in cells.
    pub height: u32,
    /// Agent speed in milli-cells per second.
    pub speed: u32,
    /// Angle between the center sensor and each flanking sensor, degrees.
    pub sensor_angle: u32,
    /// Sampling radius around a sensor point, in cells.
    pub sensor_size: u32,
    /// Forward offset of the sensors, in milli-cells.
    pub sensor_dist: u32,
    /// Per-pass turning increment, degrees.
    pub turn_step: u32,
    /// Two flanking readings within this tolerance of each other tie.
    pub tie_tol: u64,
    /// Numerator of the decay factor.
    pub decay_num: u32,
    /// Denominator of the decay factor.
    pub decay_den: u32,
    /// Intensity added to a trail cell by one agent in one pass.
    pub deposit: u64,
}

impl Params {
    /// Well-formedness: positive population and dimensions, a decay factor
    /// strictly inside (0, 1), a positive deposit, a sensor radius smaller
    /// than either field dimension, and everything under the capacity caps.
    pub open spec fn wf(self) -> bool {
        &&& 1 <= self.population <= MAX_POPULATION
        &&& 1 <= self.width <= MAX_DIM
        &&& 1 <= self.height <= MAX_DIM
        &&& self.speed <= MAX_SPEED
        &&& self.sensor_angle < 360
        &&& self.sensor_size < self.width
        &&& self.sensor_size < self.height
        &&& self.sensor_dist <= MAX_SENSOR_DIST
        &&& self.turn_step < 360
        &&& 0 < self.decay_num < self.decay_den <= MAX_DECAY_DEN
        &&& 1 <= self.deposit <= MAX_DEPOSIT
    }

    /// Field width in milli-cell units: the span of an x coordinate.
    pub open spec fn span_x(self) -> int {
        self.width * 1000
    }

    /// Field height in milli-cell units: the span of a y coordinate.
    pub open spec fn span_y(self) -> int {
        self.height * 1000
    }

    /// Number of cells in the trail field.
    pub open spec fn cell_count(self) -> int {
        self.width * self.height
    }

    /// Validate a configuration. Returns the parameter block exactly when
    /// every [`Params::wf`] condition holds, and otherwise the error for
    /// the first violated condition, checked in declaration order:
    /// population, dimensions, decay, remaining range checks.
    pub fn new(
        population: u32,
        width: u32,
        height: u32,
        speed: u32,
        sensor_angle: u32,
        sensor_size: u32,
        sensor_dist: u32,
        turn_step: u32,
        tie_tol: u64,
        decay_num: u32,
        decay_den: u32,
        deposit: u64,
    ) -> (r: Result<Params, ConfigError>)
        ensures
            ({
                let p = Params {
                    population, width, height, speed, sensor_angle, sensor_size,
                    sensor_dist, turn_step, tie_tol, decay_num, decay_den, deposit,
                };
                match r {
                    Ok(q) => q == p && p.wf(),
                    Err(e) => {
                        &&& !p.wf()
                        &&& (e == ConfigError::ZeroPopulation <==> population == 0)
                        &&& (e == ConfigError::ZeroDimension <==>
                            population != 0 && (width == 0 || height == 0))
                        &&& (e == ConfigError::InvalidDecay <==>
                            population != 0 && width != 0 && height != 0
                            && !(0 < decay_num < decay_den))
                        &&& (e == ConfigError::OutOfRange <==>
                            population != 0 && width != 0 && height != 0
                            && 0 < decay_num < decay_den)
                    },
                }
            }),
    {
        if population == 0 {
            return Err(ConfigError::ZeroPopulation);
        }
        if width == 0 || height == 0 {
            return Err(ConfigError::ZeroDimension);
        }
        if !(0 < decay_num && decay_num < decay_den) {
            return Err(ConfigError::InvalidDecay);
        }
        let p = Params {
            population, width, height, speed, sensor_angle, sensor_size,
            sensor_dist, turn_step, tie_tol, decay_num, decay_den, deposit,
        };
        if population > MAX_POPULATION
            || width > MAX_DIM
            || height > MAX_DIM
            || speed > MAX_SPEED
            || sensor_angle >= 360
            || sensor_size >= width
            || sensor_size >= height
            || sensor_dist > MAX_SENSOR_DIST
            || turn_step >= 360
            || decay_den > MAX_DECAY_DEN
            || deposit == 0
            || deposit > MAX_DEPOSIT
        {
            return Err(ConfigError::OutOfRange);
        }
        Ok(p)
    }
}

} // verus!
