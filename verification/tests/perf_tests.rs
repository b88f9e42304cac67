use ssbu_online_deluxe::crit_hit::{
    is_valid_fighter_entry_id, CriticalHitTracker, CutInOutcome, FrameOutcome,
};
use ssbu_online_deluxe::drs::{dynamic_res_target, DrsDeferral, ResolutionLevel};

#[test]
fn target_is_one_step_down() {
    assert_eq!(dynamic_res_target(ResolutionLevel::Res1920x1080), ResolutionLevel::Res1280x720);
    assert_eq!(dynamic_res_target(ResolutionLevel::Res1280x720), ResolutionLevel::Res1024x576);
    assert_eq!(dynamic_res_target(ResolutionLevel::Res1024x576), ResolutionLevel::Res854x480);
    assert_eq!(dynamic_res_target(ResolutionLevel::Res854x480), ResolutionLevel::Res854x480);
}

#[test]
fn gated_pops_are_deferred_then_drained() {
    let mut g = DrsDeferral::new();
    assert!(!g.pop_dynamic_res_report_gated(true));
    assert!(!g.pop_dynamic_res_report_gated(true));
    assert_eq!(g.process_deferred_drs_pop(true), 0);
    assert_eq!(g.pending, 2);
    assert!(g.pop_dynamic_res_report_gated(false));
    assert_eq!(g.process_deferred_drs_pop(false), 2);
    assert_eq!(g.pending, 0);
    assert!(!g.pop_dynamic_res_report_gated(true));
    g.match_cleanup();
    assert_eq!(g.process_deferred_drs_pop(false), 0);
}

#[test]
fn pending_counter_wraps_like_the_atomic() {
    let mut g = DrsDeferral { pending: 255 };
    g.pop_dynamic_res_report_gated(true);
    assert_eq!(g.pending, 0);
}

#[test]
fn entry_ids() {
    assert!(is_valid_fighter_entry_id(0));
    assert!(is_valid_fighter_entry_id(7));
    assert!(!is_valid_fighter_entry_id(8));
    assert!(!is_valid_fighter_entry_id(-1));
}

#[test]
fn critical_hit_lifecycle() {
    let mut t = CriticalHitTracker::new();
    assert!(!t.is_tracking(2));
    assert_eq!(t.fighter_frame(2, false), FrameOutcome::Ignored);
    assert_eq!(t.fighter_cut_in_start(2), CutInOutcome::ReportPushed);
    assert!(t.is_tracking(2));
    assert_eq!(t.fighter_cut_in_start(2), CutInOutcome::AlreadyActive);
    assert_eq!(t.fighter_frame(2, true), FrameOutcome::SlowMotion);
    for left in (1..7).rev() {
        assert_eq!(t.fighter_frame(2, false), FrameOutcome::CoolingDown(left));
    }
    assert_eq!(t.fighter_frame(2, false), FrameOutcome::Finished);
    assert!(!t.is_tracking(2));
    assert_eq!(t.fighter_frame(2, false), FrameOutcome::Ignored);
    assert_eq!(t.fighter_cut_in_start(9), CutInOutcome::InvalidEntry);
    assert_eq!(t.fighter_frame(-3, false), FrameOutcome::Ignored);
}

#[test]
fn slow_motion_restarts_the_cooldown() {
    let mut t = CriticalHitTracker::new();
    t.fighter_cut_in_start(0);
    for _ in 0..3 {
        t.fighter_frame(0, false);
    }
    assert_eq!(t.fighter_frame(0, true), FrameOutcome::SlowMotion);
    assert_eq!(t.fighter_frame(0, false), FrameOutcome::CoolingDown(6));
    t.init();
    assert!(!t.is_tracking(0));
}

#[test]
fn entries_are_independent() {
    let mut t = CriticalHitTracker::new();
    t.fighter_cut_in_start(1);
    t.fighter_cut_in_start(4);
    for _ in 0..7 {
        t.fighter_frame(1, false);
    }
    assert!(!t.is_tracking(1));
    assert!(t.is_tracking(4));
}

#[test]
fn a_critical_hit_is_withdrawn_exactly_once() {
    let mut t = CriticalHitTracker::new();
    t.fighter_cut_in_start(5);
    let mut finished = 0;
    for _ in 0..20 {
        if t.fighter_frame(5, false) == FrameOutcome::Finished {
            finished += 1;
        }
    }
    assert_eq!(finished, 1);
}

#[test]
fn pushes_minus_pops_is_active_count() {
    let mut t = CriticalHitTracker::new();
    let mut pushes = 0i32;
    let mut pops = 0i32;
    let calls: [(i32, bool, bool); 13] = [
        (0, true, false), (1, true, false), (0, false, false), (0, true, false),
        (1, false, true), (2, true, false), (1, false, false), (1, false, false),
        (1, false, false), (1, false, false), (1, false, false), (1, false, false),
        (1, false, false),
    ];
    for (e, cut_in, slow) in calls {
        if cut_in {
            if t.fighter_cut_in_start(e) == CutInOutcome::ReportPushed {
                pushes += 1;
            }
        } else if t.fighter_frame(e, slow) == FrameOutcome::Finished {
            pops += 1;
        }
    }
    let active = (0..8).filter(|&e| t.is_tracking(e)).count() as i32;
    assert_eq!(pushes - pops, active);
    assert_eq!(active, 2);
}

#[test]
fn many_deferred_pops_drain_once() {
    let mut g = DrsDeferral::new();
    for _ in 0..200 {
        g.pop_dynamic_res_report_gated(true);
    }
    assert_eq!(g.process_deferred_drs_pop(false), 200);
    assert_eq!(g.process_deferred_drs_pop(false), 0);
}
