//! Dynamic resolution reports: which resolution a report asks for, and the
//! gate that defers a report's withdrawal while a scene transition is under
//! way, so that pushes and pops stay balanced.
use vstd::prelude::*;

verus! {

/// Render resolutions, from the sharpest down. The order is the one the
/// report targets rely on: a base at or below 1024x576 drops to 854x480, a
/// base at 1280x720 to 1024x576, a sharper one to 1280x720. (The console's
/// own enum of levels, whose order this stands for, is not part of this
/// library.)
#[derive(Debug, Clone, Copy, PartialEq, Eq, Structural)]
pub enum ResolutionLevel {
    Res1920x1080,
    Res1280x720,
    Res1024x576,
    Res854x480,
}

/// Position of a level from the sharpest (0) down.
pub open spec fn level_rank(l: ResolutionLevel) -> int {
    match l {
        ResolutionLevel::Res1920x1080 => 0,
        ResolutionLevel::Res1280x720 => 1,
        ResolutionLevel::Res1024x576 => 2,
        ResolutionLevel::Res854x480 => 3,
    }
}

fn rank(l: ResolutionLevel) -> (r: u8)
    ensures
        r == level_rank(l),
{
    match l {
        ResolutionLevel::Res1920x1080 => 0,
        ResolutionLevel::Res1280x720 => 1,
        ResolutionLevel::Res1024x576 => 2,
        ResolutionLevel::Res854x480 => 3,
    }
}

/// The resolution a report asks for, one step below the match's base
/// resolution, and never below 854x480.
pub open spec fn spec_dynamic_res_target(base: ResolutionLevel) -> ResolutionLevel {
    if level_rank(base) >= level_rank(ResolutionLevel::Res1024x576) {
        ResolutionLevel::Res854x480
    } else if level_rank(base) >= level_rank(ResolutionLevel::Res1280x720) {
        ResolutionLevel::Res1024x576
    } else {
        ResolutionLevel::Res1280x720
    }
}

/// The resolution that a dynamic-resolution report (push or pop) names.
pub fn dynamic_res_target(base: ResolutionLevel) -> (r: ResolutionLevel)
    ensures
        r == spec_dynamic_res_target(base),
{
    if rank(base) >= 2 {
        ResolutionLevel::Res854x480
    } else if rank(base) >= 1 {
        ResolutionLevel::Res1024x576
    } else {
        ResolutionLevel::Res1280x720
    }
}

/// The target never asks for a sharper picture than the base, and lowers it
/// whenever the base is above the lowest level.
pub proof fn lemma_target_not_sharper(base: ResolutionLevel)
    ensures
        level_rank(spec_dynamic_res_target(base)) >= level_rank(base),
        level_rank(base) < 3 ==> level_rank(spec_dynamic_res_target(base)) == level_rank(base) + 1,
{
}

/// Pending withdrawals after a gated pop: during a transition it is deferred.
pub open spec fn spec_gate_pending(pending: u8, transition_active: bool) -> u8 {
    if transition_active {
        vstd::wrapping::u8_specs::wrapping_add(pending, 1)
    } else {
        pending
    }
}

/// Pops to issue now and withdrawals left pending after a drain: nothing
/// during a transition, everything pending otherwise.
pub open spec fn spec_drain(pending: u8, transition_active: bool) -> (u8, u8) {
    if transition_active {
        (0, pending)
    } else {
        (pending, 0)
    }
}

/// Deferred pops of the critical-hit path.
pub struct DrsDeferral {
    pub pending: u8,
}

impl DrsDeferral {
    /// Nothing deferred.
    pub fn new() -> (r: Self)
        ensures
            r.pending == 0,
    {
        DrsDeferral { pending: 0 }
    }

    /// A pop of the critical-hit path: during a scene transition it is
    /// deferred (and `false` returned), otherwise it is to be issued now.
    pub fn pop_dynamic_res_report_gated(&mut self, transition_active: bool) -> (pop_now: bool)
        ensures
            pop_now == !transition_active,
            final(self).pending == spec_gate_pending(old(self).pending, transition_active),
    {
        if transition_active {
            self.pending = self.pending.wrapping_add(1);
            false
        } else {
            true
        }
    }

    /// Drains the deferred pops once no transition is under way; gives back
    /// how many pops to issue now.
    pub fn process_deferred_drs_pop(&mut self, transition_active: bool) -> (pops: u8)
        ensures
            (pops, final(self).pending) == spec_drain(old(self).pending, transition_active),
            transition_active ==> pops == 0 && final(self).pending == old(self).pending,
            !transition_active ==> pops == old(self).pending && final(self).pending == 0,
    {
        if transition_active {
            return 0;
        }
        let mut pops: u8 = 0;
        while self.pending > 0
            invariant
                pops + self.pending == old(self).pending,
            decreases self.pending,
        {
            self.pending = self.pending - 1;
            pops = pops + 1;
        }
        pops
    }

    /// At match end the report stack is cleared, so deferred pops are dropped.
    pub fn match_cleanup(&mut self)
        ensures
            final(self).pending == 0,
    {
        self.pending = 0;
    }
}

/// Pending withdrawals after `n` gated pops during a transition.
pub open spec fn spec_gated_during_transition(pending: u8, n: nat) -> u8
    decreases n,
{
    if n == 0 {
        pending
    } else {
        spec_gate_pending(spec_gated_during_transition(pending, (n - 1) as nat), true)
    }
}

/// Pushes and pops stay balanced: `k` pops gated during a transition (with
/// `pending` deferred before, and fewer than 256 in all) are all issued by
/// the first drain after it, which leaves nothing pending, so a second drain
/// issues none.
pub proof fn lemma_deferred_pops_balance(pending: u8, k: nat)
    requires
        pending + k < 256,
    ensures
        spec_gated_during_transition(pending, k) == pending + k,
        spec_drain(spec_gated_during_transition(pending, k), false) == ((pending + k) as u8, 0u8),
        spec_drain(spec_drain(spec_gated_during_transition(pending, k), false).1, false) == (
            0u8,
            0u8,
        ),
    decreases k,
{
    if k > 0 {
        lemma_deferred_pops_balance(pending, (k - 1) as nat);
    }
}

/// A gated pop is issued at once outside a transition and deferred (one
/// more pending) during one; a drain during a transition issues nothing and
/// keeps every deferred pop, and outside one issues them all.
pub proof fn lemma_gate_and_drain(pending: u8, transition_active: bool)
    requires
        pending < 255,
    ensures
        spec_gate_pending(pending, transition_active) == if transition_active {
            pending + 1
        } else {
            pending as int
        },
        transition_active ==> spec_drain(pending, transition_active) == (0u8, pending),
        !transition_active ==> spec_drain(pending, transition_active) == (pending, 0u8),
{
}

} // verus!
