//! The critical-hit tracker. A fighter's cut-in (a zoomed finishing move)
//! pushes a dynamic-resolution report; once the slow motion has been over for
//! a few frames the report is withdrawn again. Each of the eight fighter
//! entries is tracked on its own.
use vstd::prelude::*;

verus! {

/// Number of fighter entries.
pub const FIGHTER_ENTRY_COUNT: usize = 8;

/// Frames without slow motion after which a critical hit counts as finished.
pub const CRITICAL_HIT_FINISH_COOLDOWN_FRAMES: i8 = 7;

/// Whether an entry id names one of the tracked fighter entries.
pub open spec fn spec_valid_entry(entry_id: i32) -> bool {
    0 <= entry_id < FIGHTER_ENTRY_COUNT
}

/// Whether an entry id names one of the tracked fighter entries.
pub fn is_valid_fighter_entry_id(entry_id: i32) -> (r: bool)
    ensures
        r == spec_valid_entry(entry_id),
{
    0 <= entry_id && entry_id < 8
}

/// The tracker's state: for each entry, whether a critical hit is under way
/// and the frames left before it counts as finished.
pub struct TrackerModel {
    pub active: Seq<bool>,
    pub cooldown: Seq<i8>,
}

/// Eight entries; a cooldown never exceeds its start value, never goes below
/// zero, and is at least one while a critical hit is under way.
pub open spec fn model_wf(m: TrackerModel) -> bool {
    &&& m.active.len() == FIGHTER_ENTRY_COUNT
    &&& m.cooldown.len() == FIGHTER_ENTRY_COUNT
    &&& forall|e: int|
        0 <= e < FIGHTER_ENTRY_COUNT ==> 0 <= #[trigger] m.cooldown[e]
            <= CRITICAL_HIT_FINISH_COOLDOWN_FRAMES
    &&& forall|e: int| 0 <= e < FIGHTER_ENTRY_COUNT && #[trigger] m.active[e] ==> m.cooldown[e] >= 1
}

/// The state right after (re)initialisation.
pub open spec fn initial_model() -> TrackerModel {
    TrackerModel {
        active: Seq::new(FIGHTER_ENTRY_COUNT as nat, |e: int| false),
        cooldown: Seq::new(
            FIGHTER_ENTRY_COUNT as nat,
            |e: int| CRITICAL_HIT_FINISH_COOLDOWN_FRAMES,
        ),
    }
}

/// What a cut-in did.
#[derive(Debug, Clone, Copy, PartialEq, Eq, Structural)]
pub enum CutInOutcome {
    /// The entry id is not a tracked fighter entry.
    InvalidEntry,
    /// A critical hit started: push a report.
    ReportPushed,
    /// A critical hit was already under way: its cooldown restarts.
    AlreadyActive,
}

/// What a fighter frame did.
#[derive(Debug, Clone, Copy, PartialEq, Eq, Structural)]
pub enum FrameOutcome {
    /// Invalid entry, or no critical hit under way.
    Ignored,
    /// Still in slow motion: the cooldown restarts.
    SlowMotion,
    /// One frame closer; the frames left.
    CoolingDown(i8),
    /// The critical hit is over: withdraw the report.
    Finished,
}

/// The state and outcome of a cut-in of entry `entry_id`.
pub open spec fn spec_cut_in(m: TrackerModel, entry_id: i32) -> (TrackerModel, CutInOutcome) {
    if !spec_valid_entry(entry_id) {
        (m, CutInOutcome::InvalidEntry)
    } else {
        let e = entry_id as int;
        let m2 = TrackerModel {
            active: m.active.update(e, true),
            cooldown: m.cooldown.update(e, CRITICAL_HIT_FINISH_COOLDOWN_FRAMES),
        };
        (
            m2,
            if m.active[e] {
                CutInOutcome::AlreadyActive
            } else {
                CutInOutcome::ReportPushed
            },
        )
    }
}

/// The state and outcome of a frame of entry `entry_id`.
pub open spec fn spec_frame(m: TrackerModel, entry_id: i32, is_slow: bool) -> (
    TrackerModel,
    FrameOutcome,
) {
    if !spec_valid_entry(entry_id) || !m.active[entry_id as int] {
        (m, FrameOutcome::Ignored)
    } else {
        let e = entry_id as int;
        if is_slow {
            (
                TrackerModel {
                    active: m.active,
                    cooldown: m.cooldown.update(e, CRITICAL_HIT_FINISH_COOLDOWN_FRAMES),
                },
                FrameOutcome::SlowMotion,
            )
        } else {
            let left = (m.cooldown[e] - 1) as i8;
            if left <= 0 {
                (
                    TrackerModel {
                        active: m.active.update(e, false),
                        cooldown: m.cooldown.update(e, left),
                    },
                    FrameOutcome::Finished,
                )
            } else {
                (
                    TrackerModel { active: m.active, cooldown: m.cooldown.update(e, left) },
                    FrameOutcome::CoolingDown(left),
                )
            }
        }
    }
}

/// The per-entry critical-hit state.
pub struct CriticalHitTracker {
    active: Vec<bool>,
    cooldown: Vec<i8>,
}

impl CriticalHitTracker {
    /// The tracker's state.
    pub closed spec fn model(&self) -> TrackerModel {
        TrackerModel { active: self.active@, cooldown: self.cooldown@ }
    }

    /// The tracker's consistency.
    pub open spec fn wf(&self) -> bool {
        model_wf(self.model())
    }

    /// No critical hit under way anywhere.
    pub fn new() -> (r: Self)
        ensures
            r.wf(),
            r.model() == initial_model(),
    {
        let mut active: Vec<bool> = Vec::new();
        let mut cooldown: Vec<i8> = Vec::new();
        let mut i: usize = 0;
        while i < FIGHTER_ENTRY_COUNT
            invariant
                i <= FIGHTER_ENTRY_COUNT,
                active@ == Seq::new(i as nat, |e: int| false),
                cooldown@ == Seq::new(i as nat, |e: int| CRITICAL_HIT_FINISH_COOLDOWN_FRAMES),
            decreases FIGHTER_ENTRY_COUNT - i,
        {
            active.push(false);
            cooldown.push(CRITICAL_HIT_FINISH_COOLDOWN_FRAMES);
            i = i + 1;
            assert(active@ =~= Seq::new(i as nat, |e: int| false));
            assert(cooldown@ =~= Seq::new(
                i as nat,
                |e: int| CRITICAL_HIT_FINISH_COOLDOWN_FRAMES,
            ));
        }
        let r = CriticalHitTracker { active, cooldown };
        assert(r.model() =~= initial_model());
        r
    }

    /// Resets every entry at match start.
    pub fn init(&mut self)
        ensures
            final(self).wf(),
            final(self).model() == initial_model(),
    {
        *self = CriticalHitTracker::new();
    }

    /// Whether entry `entry_id` has a critical hit under way (only then does a
    /// frame need to ask whether the game is in slow motion).
    pub fn is_tracking(&self, entry_id: i32) -> (r: bool)
        requires
            self.wf(),
        ensures
            r == (spec_valid_entry(entry_id) && self.model().active[entry_id as int]),
    {
        is_valid_fighter_entry_id(entry_id) && self.active[entry_id as usize]
    }

    /// A fighter's cut-in started.
    pub fn fighter_cut_in_start(&mut self, entry_id: i32) -> (r: CutInOutcome)
        requires
            old(self).wf(),
        ensures
            final(self).wf(),
            (final(self).model(), r) == spec_cut_in(old(self).model(), entry_id),
    {
        if !is_valid_fighter_entry_id(entry_id) {
            return CutInOutcome::InvalidEntry;
        }
        let e = entry_id as usize;
        self.cooldown.set(e, CRITICAL_HIT_FINISH_COOLDOWN_FRAMES);
        let was_active = self.active[e];
        self.active.set(e, true);
        let r = if was_active {
            CutInOutcome::AlreadyActive
        } else {
            CutInOutcome::ReportPushed
        };
        proof {
            let (m2, r2) = spec_cut_in(old(self).model(), entry_id);
            assert(self.model().active =~= m2.active);
            assert(self.model().cooldown =~= m2.cooldown);
        }
        r
    }

    /// One frame of fighter `entry_id`, knowing whether the game is in slow motion.
    pub fn fighter_frame(&mut self, entry_id: i32, is_slow: bool) -> (r: FrameOutcome)
        requires
            old(self).wf(),
        ensures
            final(self).wf(),
            (final(self).model(), r) == spec_frame(old(self).model(), entry_id, is_slow),
    {
        if !is_valid_fighter_entry_id(entry_id) {
            return FrameOutcome::Ignored;
        }
        let e = entry_id as usize;
        if !self.active[e] {
            return FrameOutcome::Ignored;
        }
        let ghost m0 = self.model();
        let r = if is_slow {
            self.cooldown.set(e, CRITICAL_HIT_FINISH_COOLDOWN_FRAMES);
            FrameOutcome::SlowMotion
        } else {
            let left = self.cooldown[e] - 1;
            self.cooldown.set(e, left);
            if left <= 0 {
                self.active.set(e, false);
                FrameOutcome::Finished
            } else {
                FrameOutcome::CoolingDown(left)
            }
        };
        proof {
            let (m2, r2) = spec_frame(m0, entry_id, is_slow);
            assert(self.model().active =~= m2.active);
            assert(self.model().cooldown =~= m2.cooldown);
        }
        r
    }
}

/// The tracker stays consistent under cut-ins and frames: while a critical
/// hit is under way its cooldown is between 1 and 7, so counting it down
/// never overflows.
pub proof fn lemma_tracker_stays_consistent(m: TrackerModel, entry_id: i32, is_slow: bool)
    requires
        model_wf(m),
    ensures
        model_wf(spec_cut_in(m, entry_id).0),
        model_wf(spec_frame(m, entry_id, is_slow).0),
{
}

/// Reports are balanced: a cut-in pushes a report exactly when it starts a
/// critical hit on an idle entry, and a frame withdraws one exactly when it
/// ends a critical hit under way.
pub proof fn lemma_reports_balanced(m: TrackerModel, entry_id: i32, is_slow: bool)
    requires
        model_wf(m),
        spec_valid_entry(entry_id),
    ensures
        (spec_cut_in(m, entry_id).1 == CutInOutcome::ReportPushed) <==> (!m.active[entry_id as int]
            && spec_cut_in(m, entry_id).0.active[entry_id as int]),
        (spec_frame(m, entry_id, is_slow).1 == FrameOutcome::Finished) <==> (
        m.active[entry_id as int] && !spec_frame(m, entry_id, is_slow).0.active[entry_id as int]),
{
}

/// The state after `n` frames of entry `e` without slow motion.
pub open spec fn spec_run_frames(m: TrackerModel, entry_id: i32, n: nat) -> TrackerModel
    decreases n,
{
    if n == 0 {
        m
    } else {
        spec_frame(spec_run_frames(m, entry_id, (n - 1) as nat), entry_id, false).0
    }
}

/// Reports withdrawn over `n` frames of entry `e` without slow motion.
pub open spec fn spec_frames_pops(m: TrackerModel, entry_id: i32, n: nat) -> nat
    decreases n,
{
    if n == 0 {
        0
    } else {
        spec_frames_pops(m, entry_id, (n - 1) as nat) + if spec_frame(
            spec_run_frames(m, entry_id, (n - 1) as nat),
            entry_id,
            false,
        ).1 == FrameOutcome::Finished {
            1nat
        } else {
            0nat
        }
    }
}

/// A critical hit under way ends after exactly as many frames without slow
/// motion as its cooldown says: over any number `n` of such frames its
/// report is withdrawn once if `n` reaches the cooldown (on that very frame)
/// and never otherwise, and the entry stays under way exactly until then.
pub proof fn lemma_finishes_after_cooldown(m: TrackerModel, entry_id: i32, n: nat)
    requires
        model_wf(m),
        spec_valid_entry(entry_id),
        m.active[entry_id as int],
    ensures
        spec_run_frames(m, entry_id, n).active[entry_id as int] == (n < m.cooldown[entry_id as int]),
        n < m.cooldown[entry_id as int] ==> spec_run_frames(m, entry_id, n).cooldown[entry_id as int]
            == m.cooldown[entry_id as int] - n,
        spec_frames_pops(m, entry_id, n) == if n >= m.cooldown[entry_id as int] {
            1nat
        } else {
            0nat
        },
        spec_run_frames(m, entry_id, n).active.len() == FIGHTER_ENTRY_COUNT,
        spec_run_frames(m, entry_id, n).cooldown.len() == FIGHTER_ENTRY_COUNT,
    decreases n,
{
    if n > 0 {
        lemma_finishes_after_cooldown(m, entry_id, (n - 1) as nat);
    }
}

/// One call of the hooks.
pub enum TrackerCall {
    CutIn(i32),
    Frame(i32, bool),
}

/// The state after a call, and the reports it pushed and withdrew.
pub open spec fn spec_call(m: TrackerModel, c: TrackerCall) -> (TrackerModel, nat, nat) {
    match c {
        TrackerCall::CutIn(e) => {
            let (m2, o) = spec_cut_in(m, e);
            (m2, if o == CutInOutcome::ReportPushed { 1nat } else { 0nat }, 0nat)
        },
        TrackerCall::Frame(e, slow) => {
            let (m2, o) = spec_frame(m, e, slow);
            (m2, 0nat, if o == FrameOutcome::Finished { 1nat } else { 0nat })
        },
    }
}

/// The state after a sequence of calls, with the reports pushed and withdrawn.
pub open spec fn spec_run(m: TrackerModel, calls: Seq<TrackerCall>) -> (TrackerModel, nat, nat)
    decreases calls.len(),
{
    if calls.len() == 0 {
        (m, 0nat, 0nat)
    } else {
        let (m1, pushes, pops) = spec_run(m, calls.drop_last());
        let (m2, pu, po) = spec_call(m1, calls.last());
        (m2, pushes + pu, pops + po)
    }
}

/// Number of entries with a critical hit under way.
pub open spec fn active_count(a: Seq<bool>) -> int
    decreases a.len(),
{
    if a.len() == 0 {
        0
    } else {
        active_count(a.drop_last()) + if a.last() {
            1int
        } else {
            0int
        }
    }
}

proof fn lemma_active_count_update(a: Seq<bool>, e: int, v: bool)
    requires
        0 <= e < a.len(),
    ensures
        active_count(a.update(e, v)) == active_count(a) - (if a[e] {
            1int
        } else {
            0int
        }) + (if v {
            1int
        } else {
            0int
        }),
    decreases a.len(),
{
    let b = a.update(e, v);
    if e == a.len() - 1 {
        assert(b.drop_last() =~= a.drop_last());
    } else {
        assert(b.drop_last() =~= a.drop_last().update(e, v));
        lemma_active_count_update(a.drop_last(), e, v);
    }
}

proof fn lemma_active_count_initial(n: nat)
    ensures
        active_count(Seq::new(n, |e: int| false)) == 0,
    decreases n,
{
    if n > 0 {
        assert(Seq::new(n, |e: int| false).drop_last() =~= Seq::new((n - 1) as nat, |e: int| false));
        lemma_active_count_initial((n - 1) as nat);
    }
}

proof fn lemma_call_count(m: TrackerModel, c: TrackerCall)
    requires
        model_wf(m),
    ensures
        model_wf(spec_call(m, c).0),
        spec_call(m, c).1 - spec_call(m, c).2 == active_count(spec_call(m, c).0.active)
            - active_count(m.active),
{
    lemma_tracker_stays_consistent(m, match c {
        TrackerCall::CutIn(e) => e,
        TrackerCall::Frame(e, _) => e,
    }, match c {
        TrackerCall::CutIn(_) => false,
        TrackerCall::Frame(_, slow) => slow,
    });
    match c {
        TrackerCall::CutIn(e) => {
            if spec_valid_entry(e) {
                lemma_active_count_update(m.active, e as int, true);
            }
        },
        TrackerCall::Frame(e, slow) => {
            if spec_valid_entry(e) && m.active[e as int] && !slow {
                let left = (m.cooldown[e as int] - 1) as i8;
                if left <= 0 {
                    lemma_active_count_update(m.active, e as int, false);
                }
            }
        },
    }
}

/// Pushes and withdrawals of reports stay balanced over any sequence of
/// cut-ins and frames: reports pushed minus reports withdrawn is the change
/// in the number of entries with a critical hit under way.
pub proof fn lemma_reports_count(m: TrackerModel, calls: Seq<TrackerCall>)
    requires
        model_wf(m),
    ensures
        model_wf(spec_run(m, calls).0),
        spec_run(m, calls).1 - spec_run(m, calls).2 == active_count(spec_run(m, calls).0.active)
            - active_count(m.active),
    decreases calls.len(),
{
    if calls.len() > 0 {
        lemma_reports_count(m, calls.drop_last());
        lemma_call_count(spec_run(m, calls.drop_last()).0, calls.last());
    }
}

/// From a freshly initialised tracker, reports pushed minus reports withdrawn
/// is the number of entries with a critical hit under way; so withdrawals
/// never outnumber pushes.
pub proof fn lemma_reports_count_from_init(calls: Seq<TrackerCall>)
    ensures
        spec_run(initial_model(), calls).1 - spec_run(initial_model(), calls).2 == active_count(
            spec_run(initial_model(), calls).0.active,
        ),
        spec_run(initial_model(), calls).2 <= spec_run(initial_model(), calls).1,
{
    let m = initial_model();
    lemma_active_count_initial(FIGHTER_ENTRY_COUNT as nat);
    lemma_reports_count(m, calls);
    lemma_active_count_nonneg(spec_run(m, calls).0.active);
}

proof fn lemma_active_count_nonneg(a: Seq<bool>)
    ensures
        0 <= active_count(a) <= a.len(),
    decreases a.len(),
{
    if a.len() > 0 {
        lemma_active_count_nonneg(a.drop_last());
    }
}

/// A cut-in of a valid entry always (re)starts its critical hit with a full
/// cooldown, whether or not one was under way, and touches no other entry;
/// so after any cut-in it takes exactly seven frames without slow motion to
/// withdraw the report, withdrawn on the seventh and never again.
pub proof fn lemma_cut_in_restarts_cooldown(m: TrackerModel, entry_id: i32, n: nat)
    requires
        model_wf(m),
        spec_valid_entry(entry_id),
    ensures
        ({
            let m2 = spec_cut_in(m, entry_id).0;
            &&& m2.active[entry_id as int]
            &&& m2.cooldown[entry_id as int] == 7
            &&& m2.active.len() == FIGHTER_ENTRY_COUNT
            &&& m2.cooldown.len() == FIGHTER_ENTRY_COUNT
            &&& forall|e: int|
                0 <= e < FIGHTER_ENTRY_COUNT && e != entry_id ==> #[trigger] m2.active[e]
                    == m.active[e] && m2.cooldown[e] == m.cooldown[e]
            &&& spec_frames_pops(m2, entry_id, n) == if n >= 7 {
                1nat
            } else {
                0nat
            }
            &&& spec_run_frames(m2, entry_id, n).active[entry_id as int] == (n < 7)
        }),
{
    let m2 = spec_cut_in(m, entry_id).0;
    lemma_tracker_stays_consistent(m, entry_id, false);
    lemma_finishes_after_cooldown(m2, entry_id, n);
}

/// What a frame does to an entry with a critical hit under way: in slow
/// motion it stays under way with a full cooldown; otherwise its cooldown
/// drops by one and it ends (withdrawing its report) exactly when the
/// cooldown was 1. A frame of an invalid or idle entry changes nothing. No
/// other entry is touched.
pub proof fn lemma_frame_effect(m: TrackerModel, entry_id: i32, is_slow: bool)
    requires
        model_wf(m),
    ensures
        ({
            let (m2, o) = spec_frame(m, entry_id, is_slow);
            let e = entry_id as int;
            &&& m2.active.len() == FIGHTER_ENTRY_COUNT
            &&& m2.cooldown.len() == FIGHTER_ENTRY_COUNT
            &&& forall|k: int|
                0 <= k < FIGHTER_ENTRY_COUNT && k != e ==> #[trigger] m2.active[k] == m.active[k]
                    && m2.cooldown[k] == m.cooldown[k]
            &&& (!spec_valid_entry(entry_id) || !m.active[e]) ==> m2 == m && o
                == FrameOutcome::Ignored
            &&& (spec_valid_entry(entry_id) && m.active[e] && is_slow) ==> m2.active[e]
                && m2.cooldown[e] == 7 && o == FrameOutcome::SlowMotion
            &&& (spec_valid_entry(entry_id) && m.active[e] && !is_slow) ==> {
                &&& m2.cooldown[e] == m.cooldown[e] - 1
                &&& m2.active[e] == (m.cooldown[e] > 1)
                &&& o == if m.cooldown[e] == 1 {
                    FrameOutcome::Finished
                } else {
                    FrameOutcome::CoolingDown((m.cooldown[e] - 1) as i8)
                }
            }
        }),
{
}

} // verus!
