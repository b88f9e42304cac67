use ssbu_online_deluxe::config::{
    broadcasts_extended_info, lurk_mode_enabled, offline_mode_enabled, overclock_loaded,
    overclock_outcome, overclocker_wanted, stealth_mode_enabled, suppresses_manager_beacon,
    OverclockOutcome, RenderConfig,
};

#[test]
fn defaults() {
    let c = RenderConfig::default();
    assert!(c.overclocker);
    assert!(!stealth_mode_enabled(&c));
    assert!(!lurk_mode_enabled(&c));
    assert!(!offline_mode_enabled(&c));
    assert!(broadcasts_extended_info(&c));
    assert!(!suppresses_manager_beacon(&c));
}

#[test]
fn stealth_and_lurk_keep_quiet() {
    let stealth = RenderConfig { stealth_mode: true, ..RenderConfig::default() };
    let lurk = RenderConfig { lurk_mode: true, ..RenderConfig::default() };
    assert!(!broadcasts_extended_info(&stealth));
    assert!(!broadcasts_extended_info(&lurk));
    assert!(suppresses_manager_beacon(&stealth));
    assert!(!suppresses_manager_beacon(&lurk));
    assert!(offline_mode_enabled(&RenderConfig { offline_mode: true, ..RenderConfig::default() }));
}

#[test]
fn overclocker_decisions() {
    let c = RenderConfig::default();
    assert!(overclocker_wanted(&c, false));
    assert!(!overclocker_wanted(&c, true));
    assert!(!overclocker_wanted(&RenderConfig { overclocker: false, ..c }, false));
    assert_eq!(overclock_outcome(true, true), OverclockOutcome::Loaded);
    assert_eq!(overclock_outcome(true, false), OverclockOutcome::ConfigureFailed);
    assert_eq!(overclock_outcome(false, true), OverclockOutcome::Skipped);
    assert!(overclock_loaded(OverclockOutcome::Loaded));
    assert!(!overclock_loaded(OverclockOutcome::ConfigureFailed));
    assert!(!overclock_loaded(OverclockOutcome::Skipped));
}
