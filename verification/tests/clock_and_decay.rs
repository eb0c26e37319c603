use orbit_engine::clock::SimulationClock;
use orbit_engine::config::EngineConfig;
use orbit_engine::config::DEFAULT_BURN_ALTITUDE_M;
use orbit_engine::config::DEFAULT_CENTRAL_RADIUS_M;
use orbit_engine::config::DEFAULT_GM_M3_S2;
use orbit_engine::config::DEFAULT_TIME_SCALE;
use orbit_engine::decay::DecayDetector;
use orbit_engine::errors::ConfigError;
use orbit_engine::vec3::Vec3;

#[test]
fn clock_rejects_zero_scale() {
    assert_eq!(
        SimulationClock::new(0),
        Err(ConfigError::InvalidConfiguration)
    );
}

#[test]
fn clock_scales_simulated_time() {
    let mut clock = SimulationClock::new(100).unwrap();
    assert_eq!(clock.simulated_time_since_start_ms(), 0);
    clock.advance(50);
    assert_eq!(clock.real_elapsed_ms, 50);
    assert_eq!(clock.simulated_time_since_start_ms(), 5000);
    clock.advance(16);
    assert_eq!(clock.real_elapsed_ms, 66);
    assert_eq!(clock.simulated_time_since_start_ms(), 6600);
}

#[test]
fn clock_counters_never_decrease() {
    let mut clock = SimulationClock::new(300).unwrap();
    let mut last_real = 0;
    let mut last_sim = 0;
    for delta in [0u64, 16, 17, 1000, 0, 3] {
        clock.advance(delta);
        assert!(clock.real_elapsed_ms >= last_real);
        assert!(clock.sim_elapsed_ms >= last_sim);
        last_real = clock.real_elapsed_ms;
        last_sim = clock.sim_elapsed_ms;
    }
}

#[test]
fn default_config_is_valid_and_earth_like() {
    let config = EngineConfig::default();
    assert_eq!(config.time_scale, DEFAULT_TIME_SCALE);
    assert_eq!(config.gm_m3_s2, DEFAULT_GM_M3_S2);
    assert_eq!(config.central_radius_m, DEFAULT_CENTRAL_RADIUS_M);
    assert_eq!(config.burn_altitude_m, DEFAULT_BURN_ALTITUDE_M);
    assert_eq!(config.gm_m3_s2, 398_601_900_000_000);
    assert_eq!(config.central_radius_m, 6_371_000);
    assert!(config.validate().is_ok());
}

#[test]
fn config_rejects_zero_scale_and_bad_gm() {
    let mut config = EngineConfig::default();
    config.time_scale = 0;
    assert_eq!(config.validate(), Err(ConfigError::InvalidConfiguration));
    let mut config = EngineConfig::default();
    config.gm_m3_s2 = 0;
    assert_eq!(config.validate(), Err(ConfigError::InvalidConfiguration));
}

// A body exactly at the burn threshold radius is decayed: the comparison
// is inclusive.
#[test]
fn decay_boundary_is_inclusive() {
    let threshold = DEFAULT_CENTRAL_RADIUS_M + DEFAULT_BURN_ALTITUDE_M;
    assert_eq!(threshold, 6_456_000);
    let detector = DecayDetector::new(DEFAULT_CENTRAL_RADIUS_M, DEFAULT_BURN_ALTITUDE_M);
    let exactly_at = Vec3 { x: 0, y: 6_456_000, z: 0 };
    let just_above = Vec3 { x: 0, y: 6_456_001, z: 0 };
    let below = Vec3 { x: 0, y: 6_000_000, z: 0 };
    assert!(detector.check(&exactly_at));
    assert!(!detector.check(&just_above));
    assert!(detector.check(&below));
}

#[test]
fn decay_uses_full_radial_distance() {
    let detector = DecayDetector::new(DEFAULT_CENTRAL_RADIUS_M, DEFAULT_BURN_ALTITUDE_M);
    // each component is below the threshold, but the radial distance is not
    let p = Vec3 { x: 5_000_000, y: 5_000_000, z: 5_000_000 };
    assert!(!detector.check(&p));
    let q = Vec3 { x: 3_000_000, y: 3_000_000, z: 3_000_000 };
    assert!(detector.check(&q));
}
