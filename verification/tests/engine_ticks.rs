use orbit_engine::config::EngineConfig;
use orbit_engine::elements::OrbitalElements;
use orbit_engine::errors::PropagationError;
use orbit_engine::integrate::step_free_body;
use orbit_engine::propagate::accepted_position;
use orbit_engine::propagate::elapsed_ms_since_epoch;
use orbit_engine::propagate::StateVector;
use orbit_engine::registry::Body;
use orbit_engine::registry::BodyKind;
use orbit_engine::registry::BodyRegistry;
use orbit_engine::clock::SimulationClock;
use orbit_engine::sampler::assemble_samples;
use orbit_engine::sampler::sample_times;
use orbit_engine::tle::parse_tle;
use orbit_engine::vec3::Vec3;

const LINE1: &str = "1 00033U 60003  C 60280.33271408  .00001932 +00000-0 +00000-0 0  9994";
const LINE2: &str = "2 00033 051.2879 136.0668 0242757 196.7800 163.6100 15.38343354027003";

fn norm_sq(p: &Vec3) -> i128 {
    let (x, y, z) = (p.x as i128, p.y as i128, p.z as i128);
    x * x + y * y + z * z
}

fn test_elements() -> OrbitalElements {
    parse_tle(LINE1.as_bytes(), LINE2.as_bytes()).unwrap()
}

fn element_body(registered_at_ms: u64) -> Body {
    Body {
        kind: BodyKind::ElementDriven {
            elements: test_elements(),
            registered_at_ms,
            divergence_reported: false,
        },
        position: Vec3 { x: 0, y: 0, z: 0 },
    }
}

fn free_body(position: Vec3) -> Body {
    Body {
        kind: BodyKind::Integrated {
            velocity: Vec3 { x: 0, y: 0, z: 0 },
            acceleration: Vec3 { x: 0, y: 0, z: 0 },
            mass_kg: 120,
        },
        position,
    }
}

// From rest at radius r, one integration step gives a velocity of
// magnitude GM / r^2 (in micrometers per second squared) times the step
// in seconds, directed opposite the radial unit vector.
#[test]
fn one_step_from_rest_pulls_inward() {
    let gm = EngineConfig::default().gm_m3_s2;
    let position = Vec3 { x: 0, y: 7_000_000, z: 0 };
    let at_rest = Vec3 { x: 0, y: 0, z: 0 };
    let (new_pos, new_vel, accel) = step_free_body(&position, &at_rest, gm, 1000);
    // GM * 1e6 / r^2 = 398601900000000 * 1e6 / 7000000^2, rounded down
    assert_eq!(accel, Vec3 { x: 0, y: -8_134_732, z: 0 });
    assert_eq!(new_vel, Vec3 { x: 0, y: -8_134_732, z: 0 });
    assert_eq!(new_pos, Vec3 { x: 0, y: 6_999_992, z: 0 });
}

#[test]
fn gravity_is_zero_at_the_origin() {
    let gm = EngineConfig::default().gm_m3_s2;
    let origin = Vec3 { x: 0, y: 0, z: 0 };
    let at_rest = Vec3 { x: 0, y: 0, z: 0 };
    let (new_pos, new_vel, accel) = step_free_body(&origin, &at_rest, gm, 1000);
    assert_eq!(accel, Vec3 { x: 0, y: 0, z: 0 });
    assert_eq!(new_vel, Vec3 { x: 0, y: 0, z: 0 });
    assert_eq!(new_pos, Vec3 { x: 0, y: 0, z: 0 });
}

#[test]
fn registry_register_get_remove() {
    let mut registry = BodyRegistry::new();
    let a = registry.register(free_body(Vec3 { x: 7_000_000, y: 0, z: 0 }));
    let b = registry.register(element_body(0));
    assert_ne!(a, b);
    assert_eq!(registry.len(), 2);
    assert!(registry.get(a).is_some());
    assert!(registry.get(b).is_some());
    assert!(registry.remove(a));
    assert!(!registry.remove(a));
    assert!(registry.get(a).is_none());
    assert_eq!(registry.len(), 1);
    // identities are not reused
    let c = registry.register(free_body(Vec3 { x: 8_000_000, y: 0, z: 0 }));
    assert_ne!(c, a);
    assert_ne!(c, b);
}

#[test]
fn propagation_outcome_moves_or_freezes() {
    let mut registry = BodyRegistry::new();
    let id = registry.register(element_body(0));
    let target = Vec3 { x: 1_000_000, y: 7_000_000, z: -2_000_000 };
    // success moves the body and reports nothing
    assert!(!registry.apply_propagated(id, Some(target)));
    assert_eq!(registry.get(id).unwrap().position, target);
    // divergence freezes the body in place and reports once
    assert!(registry.apply_propagated(id, None));
    assert_eq!(registry.get(id).unwrap().position, target);
    // a repeated divergence is debounced
    assert!(!registry.apply_propagated(id, None));
    // a success clears the debounce; the next divergence reports again
    assert!(!registry.apply_propagated(id, Some(target)));
    assert!(registry.apply_propagated(id, None));
    // an unknown identity changes nothing and reports nothing
    assert!(!registry.apply_propagated(9999, Some(target)));
}

#[test]
fn unrepresentable_position_freezes_like_divergence() {
    let mut registry = BodyRegistry::new();
    let id = registry.register(element_body(0));
    let target = Vec3 { x: 0, y: 7_000_000, z: 0 };
    assert!(!registry.apply_propagated(id, Some(target)));
    // a position beyond the engine's coordinate range counts as divergence
    let unrepresentable = Vec3 { x: i64::MAX, y: 0, z: 0 };
    assert!(registry.apply_propagated(id, Some(unrepresentable)));
    assert_eq!(registry.get(id).unwrap().position, target);
}

#[test]
fn finish_tick_steps_then_sweeps() {
    let config = EngineConfig::default();
    let threshold = config.central_radius_m + config.burn_altitude_m;
    let mut registry = BodyRegistry::new();
    let falling = registry.register(free_body(Vec3 { x: 0, y: 7_000_000, z: 0 }));
    let burned = registry.register(free_body(Vec3 { x: 0, y: 6_456_100, z: 0 }));
    // the body just above the threshold is pulled through it by the step
    let removed = registry.finish_tick(config.gm_m3_s2, 10_000, threshold);
    assert_eq!(removed, 1);
    assert!(registry.get(burned).is_none());
    let survivor = registry.get(falling).unwrap();
    assert!(survivor.position.y < 7_000_000);
    assert_eq!(registry.len(), 1);
}

#[test]
fn accepted_position_passes_success_only() {
    let sv = StateVector {
        position: Vec3 { x: 1, y: 2, z: 3 },
        velocity_um_s: Vec3 { x: 4, y: 5, z: 6 },
    };
    assert_eq!(accepted_position(&Ok(sv)), Some(Vec3 { x: 1, y: 2, z: 3 }));
    assert_eq!(
        accepted_position(&Err(PropagationError::Divergence)),
        None
    );
}

// Once a body's position is at or inside the burn threshold, it does not
// appear in any later walk of the registry.
#[test]
fn decayed_body_is_gone_next_tick() {
    let config = EngineConfig::default();
    let threshold = config.central_radius_m + config.burn_altitude_m;
    let mut registry = BodyRegistry::new();
    let live = registry.register(free_body(Vec3 { x: 0, y: 7_000_000, z: 0 }));
    let burned = registry.register(free_body(Vec3 { x: 0, y: 6_456_000, z: 0 }));
    registry.sweep_decayed(threshold);
    assert!(registry.get(burned).is_none());
    assert!(registry.get(live).is_some());
    // the following tick's walk of the registry no longer yields it
    for i in 0..registry.len() {
        let (id, _) = registry.entry_at(i);
        assert_ne!(id, burned);
    }
}

// A free body dropped from rest falls monotonically until it crosses the
// burn threshold and is removed.
#[test]
fn falling_body_decays_and_is_removed() {
    let config = EngineConfig::default();
    let threshold = config.central_radius_m + config.burn_altitude_m;
    let start = Vec3 { x: 0, y: 7_645_200, z: 0 }; // 1.2 central-body radii
    let mut registry = BodyRegistry::new();
    let id = registry.register(free_body(start));
    let dt_ms = 5000;
    let mut last_norm_sq = norm_sq(&start);
    let mut removed_after = None;
    for tick in 1..=200 {
        registry.integrate_all(config.gm_m3_s2, dt_ms);
        if let Some(body) = registry.get(id) {
            let n = norm_sq(&body.position);
            assert!(n < last_norm_sq, "radius did not decrease at tick {tick}");
            last_norm_sq = n;
        }
        registry.sweep_decayed(threshold);
        if registry.get(id).is_none() {
            removed_after = Some(tick);
            break;
        }
    }
    let removed_after = removed_after.expect("the body never decayed");
    assert!(removed_after > 50, "decayed implausibly fast");
    assert!((last_norm_sq as f64).sqrt() <= threshold as f64);
}

// Sampling the same element set twice with the same count yields
// identical sequences.
#[test]
fn sampler_is_deterministic() {
    let elements = test_elements();
    let first = sample_times(&elements, 256);
    let second = sample_times(&elements, 256);
    assert_eq!(first, second);
    assert_eq!(first.len(), 256);
    let outcomes = vec![
        Some(Vec3 { x: 1, y: 2, z: 3 }),
        None,
        Some(Vec3 { x: 4, y: 5, z: 6 }),
    ];
    let once = assemble_samples(&outcomes);
    let twice = assemble_samples(&outcomes);
    assert_eq!(once, twice);
}

#[test]
fn sampler_divides_one_period_evenly() {
    let elements = test_elements();
    // 1440 minutes per day over 15.38343354 revolutions per day
    assert_eq!(elements.period_ms(), 5_616_431);
    let times = sample_times(&elements, 4);
    assert_eq!(times, vec![0, 1_404_107, 2_808_215, 4_212_323]);
}

#[test]
fn sampler_omits_failed_samples() {
    let outcomes = vec![
        Some(Vec3 { x: 1, y: 2, z: 3 }),
        None,
        Some(Vec3 { x: 4, y: 5, z: 6 }),
        None,
    ];
    let polyline = assemble_samples(&outcomes);
    assert_eq!(
        polyline,
        vec![Vec3 { x: 1, y: 2, z: 3 }, Vec3 { x: 4, y: 5, z: 6 }]
    );
    assert_eq!(assemble_samples(&Vec::new()), Vec::<Vec3>::new());
}

// Two bodies with identical element sets registered at different times
// are propagated at the same epoch-relative offsets, shifted by their
// registration gap.
#[test]
fn offset_registration_shifts_the_schedule() {
    let mut clock = SimulationClock::new(100).unwrap();
    let reg_early = 1000;
    let reg_late = 61_000;
    let offset = reg_late - reg_early;
    let mut early_schedule = Vec::new();
    let mut late_schedule = Vec::new();
    for _ in 0..50 {
        clock.advance(16);
        let now = clock.simulated_time_since_start_ms();
        early_schedule.push(elapsed_ms_since_epoch(&clock, reg_early));
        late_schedule.push(elapsed_ms_since_epoch(&clock, reg_late));
        // the late body at a shifted clock sees the early body's offset
        let shifted = SimulationClock {
            scale: clock.scale,
            real_elapsed_ms: clock.real_elapsed_ms,
            sim_elapsed_ms: now + offset,
        };
        assert_eq!(
            elapsed_ms_since_epoch(&shifted, reg_late),
            elapsed_ms_since_epoch(&clock, reg_early)
        );
    }
    // the two schedules differ by the registration gap alone
    for (early, late) in early_schedule.iter().zip(late_schedule.iter()) {
        if *late > 0 {
            assert_eq!(early - late, offset);
        }
    }
}

// Identical epoch-relative offsets give identical propagated positions,
// so the shifted schedules trace the same orbit shape.
#[test]
fn shifted_bodies_trace_the_same_orbit() {
    let elements = sgp4::Elements::from_tle(
        Some("TEST OBJECT".to_string()),
        LINE1.as_bytes(),
        LINE2.as_bytes(),
    )
    .unwrap();
    let constants = sgp4::Constants::from_elements(&elements).unwrap();
    for k in 0..20 {
        let offset_min = k as f64 * 1.5;
        let a = constants
            .propagate(sgp4::MinutesSinceEpoch(offset_min))
            .unwrap();
        let b = constants
            .propagate(sgp4::MinutesSinceEpoch(offset_min))
            .unwrap();
        assert_eq!(a.position, b.position);
    }
}
