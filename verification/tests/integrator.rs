use three_body::body::{
    preset_bodies, Body, StepError, LENGTH_UNIT, MASS_LIMIT, MASS_UNIT, MOMENTUM_LIMIT,
    MOMENTUM_UNIT, POSITION_LIMIT,
};
use three_body::integrator::{
    GravityIntegrator, CANONICAL_GRAVITY, FORCE_LIMIT, GRAVITY_LIMIT, TIMESTEP_LIMIT,
};
use three_body::vector::Vec2;

fn body(px: i128, py: i128, qx: i128, qy: i128, mass: i128) -> Body {
    Body { position: Vec2 { x: px, y: py }, momentum: Vec2 { x: qx, y: qy }, mass }
}

fn total_momentum(bodies: &[Body]) -> (i128, i128) {
    let mut x = 0i128;
    let mut y = 0i128;
    for b in bodies {
        x += b.momentum.x;
        y += b.momentum.y;
    }
    (x, y)
}

fn skewed() -> Vec<Body> {
    vec![
        body(3_000_000, 4_000_000, 0, 0, 2000),
        body(0, 0, 0, 0, 5000),
        body(-7_000_000, 1_000_000, 0, 0, 1000),
    ]
}

#[test]
fn new_accepts_exactly_the_supported_constants() {
    assert!(GravityIntegrator::new(1, 1, 1).is_some());
    assert!(GravityIntegrator::new(GRAVITY_LIMIT, TIMESTEP_LIMIT, TIMESTEP_LIMIT).is_some());
    assert!(GravityIntegrator::new(0, 1, 10).is_none());
    assert!(GravityIntegrator::new(-1, 1, 10).is_none());
    assert!(GravityIntegrator::new(GRAVITY_LIMIT + 1, 1, 10).is_none());
    assert!(GravityIntegrator::new(10, 0, 10).is_none());
    assert!(GravityIntegrator::new(10, 1, 0).is_none());
    assert!(GravityIntegrator::new(10, TIMESTEP_LIMIT + 1, 1).is_none());
    assert!(GravityIntegrator::new(10, 1, TIMESTEP_LIMIT + 1).is_none());
    let c = GravityIntegrator::new(77, 3, 8).unwrap();
    assert_eq!(c.g(), 77);
    assert_eq!(c.timestep(), (3, 8));
}

#[test]
fn canonical_constants() {
    let c = GravityIntegrator::canonical();
    assert_eq!(c.g(), 10_000_000_000_000_000_000);
    assert_eq!(c.g(), CANONICAL_GRAVITY);
    assert_eq!(c.g(), 10_000 * LENGTH_UNIT * LENGTH_UNIT * LENGTH_UNIT / MASS_UNIT);
    assert_eq!(c.timestep(), (1, 10));
}

#[test]
fn force_of_the_preset_pairs() {
    let c = GravityIntegrator::canonical();
    let s = preset_bodies();
    assert_eq!(c.force(&s[0], &s[1]), Ok(Vec2 { x: 2_500_000_000, y: 0 }));
    assert_eq!(c.force(&s[0], &s[2]), Ok(Vec2 { x: 62_500_000, y: 0 }));
    assert_eq!(c.force(&s[1], &s[2]), Ok(Vec2 { x: 2_500_000_000, y: 0 }));
}

#[test]
fn force_off_axis_rounds_each_component_toward_zero() {
    let c = GravityIntegrator::canonical();
    let s = skewed();
    assert_eq!(c.force(&s[0], &s[1]), Ok(Vec2 { x: 2_400_000_000_000, y: 3_200_000_000_000 }));
    assert_eq!(c.force(&s[0], &s[2]), Ok(Vec2 { x: 175_747_950_809, y: 52_724_385_242 }));
    assert_eq!(c.force(&s[1], &s[2]), Ok(Vec2 { x: 989_949_607_322, y: -141_421_372_474 }));
}

#[test]
fn force_is_antisymmetric() {
    let c = GravityIntegrator::canonical();
    let mut all = skewed();
    all.extend(preset_bodies());
    for a in &all {
        for b in &all {
            if a.position != b.position {
                let ab = c.force(a, b).unwrap();
                let ba = c.force(b, a).unwrap();
                assert_eq!(ba, Vec2 { x: -ab.x, y: -ab.y });
            }
        }
    }
}

#[test]
fn force_scales_with_mass_at_the_slider_bounds() {
    let c = GravityIntegrator::canonical();
    let light = body(0, 0, 0, 0, MASS_UNIT);
    let heavy = body(0, 0, 0, 0, 100 * MASS_UNIT);
    let other_light = body(100 * LENGTH_UNIT, 0, 0, 0, MASS_UNIT);
    let other_heavy = body(100 * LENGTH_UNIT, 0, 0, 0, 100 * MASS_UNIT);
    assert_eq!(c.force(&light, &other_light), Ok(Vec2 { x: -1_000_000_000, y: 0 }));
    assert_eq!(c.force(&light, &other_heavy), Ok(Vec2 { x: -100_000_000_000, y: 0 }));
    assert_eq!(c.force(&heavy, &other_heavy), Ok(Vec2 { x: -10_000_000_000_000, y: 0 }));
}

#[test]
fn force_errors() {
    let c = GravityIntegrator::canonical();
    let ok = body(10, 0, 0, 0, 5);
    assert_eq!(c.force(&ok, &body(0, 0, 0, 0, 0)), Err(StepError::InvalidMass));
    assert_eq!(c.force(&body(0, 0, 0, 0, -2), &ok), Err(StepError::InvalidMass));
    assert_eq!(c.force(&ok, &body(POSITION_LIMIT + 1, 0, 0, 0, 1)), Err(StepError::OutOfRange));
    assert_eq!(c.force(&ok, &body(10, 0, 9, 9, 8)), Err(StepError::Singularity));
}

#[test]
fn force_stays_within_its_limit_at_the_extremes() {
    let c = GravityIntegrator::new(GRAVITY_LIMIT, 1, 1).unwrap();
    let a = body(0, 0, 0, 0, MASS_LIMIT);
    let b = body(1, 0, 0, 0, MASS_LIMIT);
    let f = c.force(&a, &b).unwrap();
    assert_eq!(f, Vec2 { x: -GRAVITY_LIMIT * MASS_LIMIT * MASS_LIMIT, y: 0 });
    assert!(f.within(FORCE_LIMIT));
    let far_a = body(-POSITION_LIMIT, -POSITION_LIMIT, 0, 0, 1);
    let far_b = body(POSITION_LIMIT, POSITION_LIMIT, 0, 0, 1);
    assert_eq!(c.force(&far_a, &far_b), Ok(Vec2 { x: 0, y: 0 }));
}

#[test]
fn step_canonical_preset() {
    let c = GravityIntegrator::canonical();
    let mut s = preset_bodies();
    assert_eq!(c.step(&mut s), Ok(()));
    assert_eq!(
        s,
        vec![
            body(199_974_375, 2_000_000, -256_250_000, 20_000_000_000, 1_000),
            body(50_000, 0, 5_000_000_000, 0, 10_000),
            body(-199_974_375, -2_000_000, 256_250_000, -20_000_000_000, 1_000),
        ]
    );
}

#[test]
fn step_canonical_preset_agrees_with_floating_point() {
    let c = GravityIntegrator::canonical();
    let mut s = preset_bodies();
    c.step(&mut s).unwrap();
    let g = 10000.0f64;
    let dt = 0.1f64;
    let f12 = -g * 1.0 * 10.0 / (200.0f64 * 200.0) * -1.0;
    let f13 = -g * 1.0 * 1.0 / (400.0f64 * 400.0) * -1.0;
    let f21 = -f12;
    let momentum_x = 0.0 + (f21 - f13) * dt;
    let position_x = 200.0 + momentum_x * dt / 1.0;
    let position_y = 0.0 + 20.0 * dt / 1.0;
    assert!((s[0].momentum.x as f64 / MOMENTUM_UNIT as f64 - momentum_x).abs() < 1e-8);
    assert!((s[0].momentum.y as f64 / MOMENTUM_UNIT as f64 - 20.0).abs() < 1e-8);
    assert!((s[0].position.x as f64 / LENGTH_UNIT as f64 - position_x).abs() < 1e-6);
    assert!((s[0].position.y as f64 / LENGTH_UNIT as f64 - position_y).abs() < 1e-6);
    assert!((s[0].position.x as f64 / LENGTH_UNIT as f64 - 199.974375).abs() < 1e-6);
    assert!((s[1].position.x as f64 / LENGTH_UNIT as f64 - 0.05).abs() < 1e-6);
    assert!((s[2].position.x as f64 / LENGTH_UNIT as f64 + 199.974375).abs() < 1e-6);
    assert!((s[2].position.y as f64 / LENGTH_UNIT as f64 + 2.0).abs() < 1e-6);
}

#[test]
fn step_uses_the_new_momentum_for_the_position() {
    let c = GravityIntegrator::canonical();
    let mut s = skewed();
    assert_eq!(c.step(&mut s), Ok(()));
    assert_eq!(
        s,
        vec![
            body(-9_878_739, -12_263_621, -257_574_795_080, -325_272_438_524, 2_000),
            body(2_820_100, 6_682_842, 141_005_039_267, 334_142_137_247, 5_000),
            body(4_656_975, 113_031, 116_569_755_813, -8_869_698_723, 1_000),
        ]
    );
}

#[test]
fn step_wrong_arity_is_reported_and_changes_nothing() {
    let c = GravityIntegrator::canonical();
    let three = preset_bodies();
    let mut two: Vec<Body> = three[..2].to_vec();
    let before_two = two.clone();
    assert_eq!(c.step(&mut two), Err(StepError::InvalidBodyCount));
    assert_eq!(two, before_two);
    let mut four: Vec<Body> = three.clone();
    four.push(body(5, 5, 0, 0, 1));
    let before_four = four.clone();
    assert_eq!(c.step(&mut four), Err(StepError::InvalidBodyCount));
    assert_eq!(four, before_four);
    let mut none: Vec<Body> = Vec::new();
    assert_eq!(c.step(&mut none), Err(StepError::InvalidBodyCount));
    assert!(none.is_empty());
}

#[test]
fn step_rejects_bad_mass() {
    let c = GravityIntegrator::canonical();
    for bad in [0i128, -1, -1000] {
        for i in 0..3 {
            let mut s = preset_bodies();
            s[i].mass = bad;
            let before = s.clone();
            assert_eq!(c.step(&mut s), Err(StepError::InvalidMass));
            assert_eq!(s, before);
        }
    }
}

#[test]
fn step_signals_coinciding_bodies() {
    let c = GravityIntegrator::canonical();
    for (i, j) in [(0usize, 1usize), (0, 2), (1, 2)] {
        let mut s = preset_bodies();
        s[j].position = s[i].position;
        let before = s.clone();
        assert_eq!(c.step(&mut s), Err(StepError::Singularity));
        assert_eq!(s, before);
    }
}

#[test]
fn step_rejects_values_beyond_the_limits() {
    let c = GravityIntegrator::canonical();
    let mut s = preset_bodies();
    s[1].position.x = POSITION_LIMIT + 1;
    let before = s.clone();
    assert_eq!(c.step(&mut s), Err(StepError::OutOfRange));
    assert_eq!(s, before);
    let mut s = preset_bodies();
    s[2].momentum.y = -MOMENTUM_LIMIT - 1;
    assert_eq!(c.step(&mut s), Err(StepError::OutOfRange));
    let mut s = preset_bodies();
    s[0].mass = MASS_LIMIT + 1;
    assert_eq!(c.step(&mut s), Err(StepError::OutOfRange));
}

#[test]
fn step_refuses_a_result_beyond_the_limits() {
    let c = GravityIntegrator::new(GRAVITY_LIMIT, 1, 1).unwrap();
    let mut s = vec![
        body(0, 0, 0, 0, MASS_LIMIT),
        body(1, 0, 0, 0, MASS_LIMIT),
        body(POSITION_LIMIT, POSITION_LIMIT, 0, 0, 1),
    ];
    let before = s.clone();
    assert_eq!(c.step(&mut s), Err(StepError::OutOfRange));
    assert_eq!(s, before);
    let mut s = vec![
        body(POSITION_LIMIT, 0, MOMENTUM_UNIT, 0, 1),
        body(0, 0, 0, 0, 1),
        body(0, POSITION_LIMIT, 0, 0, 1),
    ];
    let before = s.clone();
    assert_eq!(c.step(&mut s), Err(StepError::OutOfRange));
    assert_eq!(s, before);
}

#[test]
fn step_error_order() {
    let c = GravityIntegrator::canonical();
    let mut s = vec![
        body(POSITION_LIMIT + 1, 0, 0, 0, 0),
        body(POSITION_LIMIT + 1, 0, 0, 0, 1),
        body(0, 0, 0, 0, 1),
    ];
    assert_eq!(c.step(&mut s), Err(StepError::InvalidMass));
    s[0].mass = 1;
    assert_eq!(c.step(&mut s), Err(StepError::OutOfRange));
    s[0].position.x = 7;
    s[1].position.x = 7;
    assert_eq!(c.step(&mut s), Err(StepError::Singularity));
    s.pop();
    assert_eq!(c.step(&mut s), Err(StepError::InvalidBodyCount));
}

#[test]
fn total_momentum_drifts_by_at_most_two_units_a_tick() {
    let c = GravityIntegrator::canonical();
    for start in [preset_bodies(), skewed()] {
        let mut s = start;
        for _ in 0..200 {
            let before = total_momentum(&s);
            if c.step(&mut s).is_err() {
                break;
            }
            let after = total_momentum(&s);
            assert!((after.0 - before.0).abs() <= 2);
            assert!((after.1 - before.1).abs() <= 2);
        }
    }
}

#[test]
fn total_momentum_is_exact_with_a_whole_timestep() {
    let c = GravityIntegrator::new(CANONICAL_GRAVITY, 1, 1).unwrap();
    let mut s = skewed();
    let before = total_momentum(&s);
    for _ in 0..50 {
        if c.step(&mut s).is_err() {
            break;
        }
        assert_eq!(total_momentum(&s), before);
    }
}

#[test]
fn run_of_a_hundred_ticks() {
    let c = GravityIntegrator::canonical();
    let mut s = preset_bodies();
    assert_eq!(c.run(&mut s, 100), Ok(()));
    assert_eq!(
        s,
        vec![
            body(74_639_503, 152_495_040, -23_371_463_124, 5_171_023_488, 1_000),
            body(5_320_043, 341_374, 5_702_158_310, 1_383_860_243, 10_000),
            body(-77_840_462, -155_909_275, 22_669_304_771, -6_554_883_781, 1_000),
        ]
    );
    assert_eq!(total_momentum(&s), (4_999_999_957, -50));
}

#[test]
fn run_equals_repeated_steps_and_repeats_itself() {
    let c = GravityIntegrator::canonical();
    let mut by_run = preset_bodies();
    let mut again = preset_bodies();
    let mut by_step = preset_bodies();
    c.run(&mut by_run, 37).unwrap();
    c.run(&mut again, 37).unwrap();
    for _ in 0..37 {
        c.step(&mut by_step).unwrap();
    }
    assert_eq!(by_run, by_step);
    assert_eq!(by_run, again);
    let mut split = preset_bodies();
    c.run(&mut split, 30).unwrap();
    c.run(&mut split, 7).unwrap();
    assert_eq!(split, by_run);
}

#[test]
fn run_of_no_ticks_changes_nothing() {
    let c = GravityIntegrator::canonical();
    let mut s = preset_bodies();
    assert_eq!(c.run(&mut s, 0), Ok(()));
    assert_eq!(s, preset_bodies());
    let mut two: Vec<Body> = preset_bodies()[..2].to_vec();
    assert_eq!(c.run(&mut two, 0), Ok(()));
    assert_eq!(c.run(&mut two, 1), Err(StepError::InvalidBodyCount));
    assert_eq!(two, preset_bodies()[..2].to_vec());
}

#[test]
fn run_that_fails_restores_the_start() {
    let c = GravityIntegrator::canonical();
    let start = vec![
        body(POSITION_LIMIT - 2_500_000, 0, 10_000_000_000, 0, 1_000),
        body(0, 0, 0, 0, 1_000),
        body(0, 500_000_000, 0, 0, 1_000),
    ];
    let mut s = start.clone();
    let mut probe = start.clone();
    let mut ticks_done = 0u64;
    let failure = loop {
        match c.step(&mut probe) {
            Ok(()) => ticks_done += 1,
            Err(e) => break e,
        }
        assert!(ticks_done < 1_000);
    };
    assert_eq!(ticks_done, 2);
    assert_eq!(failure, StepError::OutOfRange);
    assert_eq!(c.run(&mut s, ticks_done + 1), Err(failure));
    assert_eq!(s, start);
    assert_eq!(c.run(&mut s, ticks_done), Ok(()));
    assert_eq!(s, probe);
}

#[test]
fn a_slow_body_still_moves() {
    let c = GravityIntegrator::canonical();
    let mut s = vec![
        body(0, 0, 5_000_000, 0, 1_000),
        body(900_000_000_000, 900_000_000_000, 0, 0, 1_000),
        body(-900_000_000_000, 900_000_000_000, 0, 0, 1_000),
    ];
    assert_eq!(c.step(&mut s), Ok(()));
    assert_eq!(s[0].momentum.x, 5_000_000);
    assert_eq!(s[0].position.x, 500);
    assert_eq!(c.run(&mut s, 9), Ok(()));
    assert_eq!(s[0].position.x, 5_000);
}
