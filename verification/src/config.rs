//! The plugin's render configuration (the switches read from `config.toml`)
//! and the decisions that follow from it.
use vstd::prelude::*;

verus! {

/// The switches of `config.toml`; a key that is absent keeps its default.
#[derive(Debug, Clone, Copy, PartialEq, Eq, Structural)]
pub struct RenderConfig {
    /// Use the bundled overclock service.
    pub overclocker: bool,
    /// Never broadcast extended info, and suppress the manager's mod beacon.
    pub stealth_mode: bool,
    /// Never broadcast extended info, but keep the manager's beacon.
    pub lurk_mode: bool,
    /// Run the render profile system outside online play too.
    pub offline_mode: bool,
}

impl RenderConfig {
    /// The defaults: overclocker on, every mode off.
    pub open spec fn spec_default() -> RenderConfig {
        RenderConfig { overclocker: true, stealth_mode: false, lurk_mode: false, offline_mode: false }
    }
}

impl Default for RenderConfig {
    fn default() -> (r: Self)
        ensures
            r == RenderConfig::spec_default(),
    {
        RenderConfig { overclocker: true, stealth_mode: false, lurk_mode: false, offline_mode: false }
    }
}

/// Whether stealth mode ("Ghost") is on.
pub fn stealth_mode_enabled(config: &RenderConfig) -> (r: bool)
    ensures
        r == config.stealth_mode,
{
    config.stealth_mode
}

/// Whether lurk mode is on.
pub fn lurk_mode_enabled(config: &RenderConfig) -> (r: bool)
    ensures
        r == config.lurk_mode,
{
    config.lurk_mode
}

/// Whether offline mode is on.
pub fn offline_mode_enabled(config: &RenderConfig) -> (r: bool)
    ensures
        r == config.offline_mode,
{
    config.offline_mode
}

/// Whether this console broadcasts its latency and render profile to modded
/// opponents: neither stealth nor lurk mode may be on.
pub fn broadcasts_extended_info(config: &RenderConfig) -> (r: bool)
    ensures
        r == (!config.stealth_mode && !config.lurk_mode),
{
    !config.stealth_mode && !config.lurk_mode
}

/// Whether the manager's beacon is to be patched out: stealth mode only.
pub fn suppresses_manager_beacon(config: &RenderConfig) -> (r: bool)
    ensures
        r == config.stealth_mode,
{
    config.stealth_mode
}

/// Whether the overclock service is to be configured: asked for, and not on an emulator.
pub fn overclocker_wanted(config: &RenderConfig, is_emulator: bool) -> (r: bool)
    ensures
        r == (config.overclocker && !is_emulator),
{
    config.overclocker && !is_emulator
}

/// How loading the overclock service ended.
#[derive(Debug, Clone, Copy, PartialEq, Eq, Structural)]
pub enum OverclockOutcome {
    /// The service was configured.
    Loaded,
    /// It was wanted but its plugin could not be found: the user is shown an error.
    ConfigureFailed,
    /// Not wanted (turned off, or on an emulator).
    Skipped,
}

/// The outcome, from whether the service was wanted and, if so, whether the
/// configure entry point was found and called.
pub fn overclock_outcome(wanted: bool, configured: bool) -> (r: OverclockOutcome)
    ensures
        r == if !wanted {
            OverclockOutcome::Skipped
        } else if configured {
            OverclockOutcome::Loaded
        } else {
            OverclockOutcome::ConfigureFailed
        },
{
    if !wanted {
        OverclockOutcome::Skipped
    } else if configured {
        OverclockOutcome::Loaded
    } else {
        OverclockOutcome::ConfigureFailed
    }
}

/// Whether the service counts as loaded.
pub fn overclock_loaded(outcome: OverclockOutcome) -> (r: bool)
    ensures
        r == (outcome == OverclockOutcome::Loaded),
{
    match outcome {
        OverclockOutcome::Loaded => true,
        _ => false,
    }
}

} // verus!
