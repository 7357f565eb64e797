use slime_sim::agent::{agent_update_pass, Agent};
use slime_sim::driver::Simulation;
use slime_sim::field::TrailField;
use slime_sim::params::Params;
use slime_sim::post::{post_process_pass, ALPHA_OPAQUE};

fn small_params() -> Params {
    // population 4, field 4x4, decay 9/10, deposit 900.
    Params::new(4, 4, 4, 200, 30, 1, 1000, 15, 0, 9, 10, 900).unwrap()
}

#[test]
fn decay_pass_keeps_zero_field_at_zero() {
    let p = small_params();
    let field = TrailField::new(4, 4);
    let (out, img) = post_process_pass(&field, &p);
    for y in 0..4 {
        for x in 0..4 {
            assert_eq!(out.get(x, y), 0);
        }
    }
    assert_eq!(img.texels.len(), 16);
    for t in &img.texels {
        assert_eq!(t.r, 0);
        assert_eq!(t.g, 0);
        assert_eq!(t.b, 0);
        assert_eq!(t.a, ALPHA_OPAQUE);
    }
}

#[test]
fn decay_pass_spreads_and_shrinks_single_deposit() {
    let p = small_params();
    let mut field = TrailField::new(4, 4);
    // One unit of deposit (900 milli-intensity) at cell (2, 2).
    field.add_at(2, 2, 900);
    let (out, _img) = post_process_pass(&field, &p);
    // Every cell whose 3x3 neighborhood contains (2, 2) blurs to
    // 900 / 9 = 100 and decays to 100 * 9 / 10 = 90; every other cell
    // stays at zero.
    for y in 0..4u32 {
        for x in 0..4u32 {
            let touches = (1..=3).contains(&x) && (1..=3).contains(&y);
            let expected = if touches { 90 } else { 0 };
            assert_eq!(out.get(x, y), expected, "cell ({x}, {y})");
        }
    }
}

#[test]
fn deposition_conserves_population_times_unit() {
    let p = small_params();
    let words = slime_sim::rng::random_words(12);
    let mut sim = Simulation::new(p, &words);
    assert_eq!(sim.field.total_intensity(), 0);
    let rands = slime_sim::rng::random_words(4);
    agent_update_pass(&p, &mut sim.agents, &mut sim.field, 16, &rands);
    assert_eq!(sim.field.total_intensity(), 4 * 900);
    // A second pass adds the same amount again, wherever the agents moved.
    let rands2 = slime_sim::rng::random_words(4);
    agent_update_pass(&p, &mut sim.agents, &mut sim.field, 16, &rands2);
    assert_eq!(sim.field.total_intensity(), 8 * 900);
}

#[test]
fn repeated_decay_passes_drive_peak_to_zero() {
    let p = small_params();
    let mut field = TrailField::new(4, 4);
    field.add_at(2, 2, 900);
    field.add_at(0, 0, 555);
    field.add_at(3, 1, 123);
    let mut peak = field.max_intensity();
    let mut passes = 0;
    while peak > 0 {
        let (next, _) = post_process_pass(&field, &p);
        field = next;
        let next_peak = field.max_intensity();
        assert!(next_peak < peak, "peak must strictly decrease while positive");
        peak = next_peak;
        passes += 1;
        assert!(passes < 1000, "decay must converge");
    }
    // Once at zero, a further pass holds every cell at zero.
    let (next, _) = post_process_pass(&field, &p);
    assert_eq!(next.max_intensity(), 0);
}

#[test]
fn movement_wraps_at_edge_with_unchanged_heading() {
    // speed 200 milli-cells/s over a 1000 ms frame: 200 milli-cells east.
    let mut field = TrailField::new(4, 4);
    let mut agents = vec![Agent { x: 3900, y: 500, heading: 0 }];
    let one = Params::new(1, 4, 4, 200, 30, 1, 1000, 15, 0, 9, 10, 900).unwrap();
    let rands = vec![7u32];
    agent_update_pass(&one, &mut agents, &mut field, 1000, &rands);
    // The empty field gives three equal readings, so the heading is kept;
    // the move crosses the east edge and reappears at the west edge.
    assert_eq!(agents[0].heading, 0);
    assert_eq!(agents[0].x, 100);
    assert_eq!(agents[0].y, 500);
    // The deposit lands in the cell containing the new position.
    assert_eq!(field.get(0, 0), 900);
}

#[test]
fn agent_turns_toward_the_stronger_trail() {
    // Sensors 90 degrees apart, two cells ahead, one-cell sampling window,
    // zero speed so only the heading changes.
    let p = Params::new(1, 8, 8, 0, 90, 0, 2000, 30, 0, 9, 10, 10).unwrap();
    let mut field = TrailField::new(8, 8);
    // Agent in cell (4, 4) heading east: center sensor reads cell (6, 4),
    // left (heading - 90) reads (4, 2), right (heading + 90) reads (4, 6).
    field.add_at(4, 6, 100);
    let mut agents = vec![Agent { x: 4500, y: 4500, heading: 0 }];
    let rands = vec![0u32];
    agent_update_pass(&p, &mut agents, &mut field, 16, &rands);
    assert_eq!(agents[0].heading, 30, "turn right by one step toward the trail");
    assert_eq!(agents[0].x, 4500);
    assert_eq!(agents[0].y, 4500);
    assert_eq!(field.get(4, 4), 10, "deposit lands in the agent's cell");
    // The trail itself is only read, never overwritten, by the agent pass.
    assert_eq!(field.get(4, 6), 100);

    // Mirrored trail: the stronger signal on the left turns the agent left.
    let mut field2 = TrailField::new(8, 8);
    field2.add_at(4, 2, 100);
    let mut agents2 = vec![Agent { x: 4500, y: 4500, heading: 0 }];
    agent_update_pass(&p, &mut agents2, &mut field2, 16, &rands);
    assert_eq!(agents2[0].heading, 330, "turn left by one step toward the trail");
}

#[test]
fn positions_stay_in_bounds_over_many_frames() {
    let p = Params::new(16, 8, 8, 900, 30, 1, 1500, 20, 0, 9, 10, 50).unwrap();
    let words = slime_sim::rng::random_words(48);
    let mut sim = Simulation::new(p, &words);
    for _ in 0..40 {
        let rands = slime_sim::rng::random_words(16);
        sim.step_frame(33, &rands);
        for a in &sim.agents {
            assert!(a.x < 8000);
            assert!(a.y < 8000);
            assert!(a.heading < 360);
        }
    }
}

#[test]
fn fixed_words_reproduce_the_run_bit_for_bit() {
    let p = Params::new(10, 8, 8, 700, 30, 1, 1500, 20, 0, 9, 10, 100).unwrap();
    let words = slime_sim::rng::random_words(30);
    let mut sim1 = Simulation::new(p, &words);
    let mut sim2 = Simulation::new(p, &words);
    for frame in 0..5 {
        let rands = slime_sim::rng::random_words(10);
        let delta = 10 + frame;
        let img1 = sim1.step_frame(delta, &rands);
        let img2 = sim2.step_frame(delta, &rands);
        assert_eq!(sim1.agents, sim2.agents);
        assert_eq!(sim1.field.cells, sim2.field.cells);
        assert_eq!(img1.texels, img2.texels);
    }
}

#[test]
fn frame_image_mirrors_the_new_field() {
    let p = small_params();
    let words = slime_sim::rng::random_words(12);
    let mut sim = Simulation::new(p, &words);
    let rands = slime_sim::rng::random_words(4);
    let img = sim.step_frame(16, &rands);
    assert_eq!(img.width, 4);
    assert_eq!(img.height, 4);
    assert_eq!(img.texels.len(), 16);
    for (i, t) in img.texels.iter().enumerate() {
        let v = sim.field.cells[i];
        assert_eq!(t.r, v);
        assert_eq!(t.g, v);
        assert_eq!(t.b, v);
        assert_eq!(t.a, ALPHA_OPAQUE);
    }
}

#[test]
fn spawn_places_every_agent_inside_the_field() {
    let p = Params::new(100, 12, 6, 500, 30, 2, 2000, 20, 0, 9, 10, 100).unwrap();
    let sim = Simulation::new_random(p);
    assert_eq!(sim.agents.len(), 100);
    for a in &sim.agents {
        assert!(a.x < 12000);
        assert!(a.y < 6000);
        assert!(a.heading < 360);
    }
    assert_eq!(sim.field.total_intensity(), 0);
}
