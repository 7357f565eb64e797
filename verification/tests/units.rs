use slime_sim::agent::{apply_turn, area_reading, move_coord, steer, Agent, TurnDir};
use slime_sim::driver::{FrameDriver, Phase, StagingRing};
use slime_sim::field::TrailField;
use slime_sim::params::{ConfigError, Params};
use slime_sim::trig::{cos_milli, sin_milli};

#[test]
fn sine_is_exact_at_reference_angles() {
    assert_eq!(sin_milli(0), 0);
    assert_eq!(sin_milli(30), 500);
    assert_eq!(sin_milli(90), 1000);
    assert_eq!(sin_milli(150), 500);
    assert_eq!(sin_milli(180), 0);
    assert_eq!(sin_milli(210), -500);
    assert_eq!(sin_milli(270), -1000);
    assert_eq!(sin_milli(330), -500);
}

#[test]
fn cosine_is_the_sine_a_quarter_turn_ahead() {
    assert_eq!(cos_milli(0), 1000);
    assert_eq!(cos_milli(60), 500);
    assert_eq!(cos_milli(90), 0);
    assert_eq!(cos_milli(180), -1000);
    assert_eq!(cos_milli(270), 0);
    for d in 0..360 {
        assert!((-1000..=1000).contains(&sin_milli(d)));
        assert_eq!(cos_milli(d), sin_milli((d + 90) % 360));
    }
}

#[test]
fn config_errors_come_in_declaration_order() {
    assert_eq!(
        Params::new(0, 4, 4, 100, 30, 1, 1000, 15, 0, 9, 10, 1).unwrap_err(),
        ConfigError::ZeroPopulation
    );
    assert_eq!(
        Params::new(4, 0, 4, 100, 30, 1, 1000, 15, 0, 9, 10, 1).unwrap_err(),
        ConfigError::ZeroDimension
    );
    assert_eq!(
        Params::new(4, 4, 0, 100, 30, 1, 1000, 15, 0, 9, 10, 1).unwrap_err(),
        ConfigError::ZeroDimension
    );
    assert_eq!(
        Params::new(4, 4, 4, 100, 30, 1, 1000, 15, 0, 10, 10, 1).unwrap_err(),
        ConfigError::InvalidDecay
    );
    assert_eq!(
        Params::new(4, 4, 4, 100, 30, 1, 1000, 15, 0, 0, 10, 1).unwrap_err(),
        ConfigError::InvalidDecay
    );
    // Sensor radius as large as a field dimension.
    assert_eq!(
        Params::new(4, 4, 4, 100, 30, 4, 1000, 15, 0, 9, 10, 1).unwrap_err(),
        ConfigError::OutOfRange
    );
    // Zero deposit.
    assert_eq!(
        Params::new(4, 4, 4, 100, 30, 1, 1000, 15, 0, 9, 10, 0).unwrap_err(),
        ConfigError::OutOfRange
    );
    let p = Params::new(4, 4, 4, 100, 30, 1, 1000, 15, 0, 9, 10, 1).unwrap();
    assert_eq!(p.population, 4);
    assert_eq!(p.decay_num, 9);
}

#[test]
fn steering_keeps_heading_when_center_dominates() {
    assert_eq!(steer(5, 5, 5, 0, 0), TurnDir::Straight);
    assert_eq!(steer(9, 5, 7, 0, 1), TurnDir::Straight);
    assert_eq!(apply_turn(123, 15, TurnDir::Straight), 123);
}

#[test]
fn steering_turns_toward_the_stronger_side() {
    assert_eq!(steer(1, 9, 5, 0, 0), TurnDir::Left);
    assert_eq!(steer(1, 5, 9, 0, 0), TurnDir::Right);
    // One side above center, the other below.
    assert_eq!(steer(4, 9, 2, 0, 1), TurnDir::Left);
    assert_eq!(steer(4, 2, 9, 0, 0), TurnDir::Right);
    // Both above center but apart by more than the tolerance.
    assert_eq!(steer(1, 9, 7, 1, 0), TurnDir::Left);
    assert_eq!(steer(1, 7, 9, 1, 0), TurnDir::Right);
}

#[test]
fn symmetric_tie_break_is_even_handed() {
    // A perfectly symmetric neighborhood: equal flanking readings above
    // the center. The random word alone picks the direction, so over many
    // uniform draws both directions appear about equally often.
    let mut left = 0u32;
    let mut right = 0u32;
    for _ in 0..1000 {
        match steer(0, 5, 5, 0, rand::random::<u32>()) {
            TurnDir::Left => left += 1,
            TurnDir::Right => right += 1,
            TurnDir::Straight => panic!("a tie above center must turn"),
        }
    }
    assert_eq!(left + right, 1000);
    assert!(left > 350, "left picked only {left} of 1000");
    assert!(right > 350, "right picked only {right} of 1000");
}

#[test]
fn turns_are_mirror_images_of_equal_magnitude() {
    assert_eq!(apply_turn(100, 15, TurnDir::Left), 85);
    assert_eq!(apply_turn(100, 15, TurnDir::Right), 115);
    assert_eq!(apply_turn(5, 15, TurnDir::Left), 350);
    assert_eq!(apply_turn(350, 15, TurnDir::Right), 5);
}

#[test]
fn displacement_wraps_both_ways() {
    // span 4000 milli-cells; 200 milli-cells of travel.
    assert_eq!(move_coord(3900, 200, 1000, 4000), 100);
    assert_eq!(move_coord(100, 200, -1000, 4000), 3900);
    assert_eq!(move_coord(100, 200, 0, 4000), 100);
    // Half-magnitude direction component scales the displacement.
    assert_eq!(move_coord(0, 200, 500, 4000), 100);
    // Displacement longer than the span wraps around.
    assert_eq!(move_coord(0, 9000, 1000, 4000), 1000);
}

#[test]
fn sensor_average_reads_the_neighborhood() {
    let p = Params::new(1, 5, 5, 100, 30, 1, 1000, 15, 0, 9, 10, 1).unwrap();
    let mut field = TrailField::new(5, 5);
    field.add_at(2, 2, 90);
    // 3x3 window centered on (2, 2): average 90 / 9 = 10.
    assert_eq!(area_reading(&field, &p, 2, 2), 10);
    // Window centered on (0, 0) wraps and misses the deposit.
    assert_eq!(area_reading(&field, &p, 0, 0), 0);
    let a = Agent { x: 2500, y: 2500, heading: 0 };
    assert!(a.x < 5000);
}

#[test]
fn frame_driver_cycles_the_stage_order() {
    let mut d = FrameDriver::new();
    assert_eq!(d.phase, Phase::Idle);
    assert_eq!(d.frame_index, 0);
    let order = [
        Phase::AgentPhase,
        Phase::PostProcessPhase,
        Phase::CopyPhase,
        Phase::RenderPhase,
        Phase::Submitted,
        Phase::Idle,
    ];
    for expected in order {
        d.advance();
        assert_eq!(d.phase, expected);
    }
    assert_eq!(d.frame_index, 1, "the index advances when a frame is submitted");
    let c = d.context(16);
    assert_eq!(c.frame_index, 1);
    assert_eq!(c.delta_ms, 16);
}

#[test]
fn random_words_come_in_the_requested_number() {
    assert_eq!(slime_sim::rng::random_words(0).len(), 0);
    assert_eq!(slime_sim::rng::random_words(5).len(), 5);
    assert_eq!(slime_sim::rng::random_words(3000).len(), 3000);
}

#[test]
fn staging_ring_hands_out_each_region_once() {
    let mut ring = StagingRing::new(2);
    assert_eq!(ring.acquire(), Some(0));
    assert_eq!(ring.acquire(), Some(1));
    assert_eq!(ring.acquire(), None, "an exhausted pool forces a wait");
    ring.release(0);
    assert_eq!(ring.acquire(), Some(0));
    assert_eq!(ring.acquire(), None);
}
