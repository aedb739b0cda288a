//! Running the scheduler until a mage has to decide, and why that run ends.
//!
//! Every step either moves the clock forward, or opens the decision gate, or
//! uses up one of the events that are due at this very tick; and an event
//! handled at a tick leaves fewer events due at that tick than there were.

use vstd::prelude::*;
use rand_chacha::ChaCha8Rng;
use crate::constants::Constants;
use crate::laws::{
    lemma_clock_never_rewinds, lemma_ledger_never_shrinks, lemma_nothing_is_scheduled_in_the_past,
    lemma_step_keeps_the_setup,
};
use crate::mechanics::{Event, Rolls};
use crate::schedule::lemma_soonest_finite;
use crate::state::{MageLane, State, StateView};
use crate::units::Timer;

verus! {

/// One if the countdown is due at this very tick, else zero.
pub open spec fn is_due(t: Timer) -> nat {
    if t == Timer::In(0) {
        1
    } else {
        0
    }
}

impl MageLane {
    /// Events of this mage that are due at this very tick.  The end of a
    /// cast counts twice, as it may put one spell in flight that lands at
    /// once.
    pub open spec fn due_now(self) -> nat {
        2 * is_due(self.cast_timer) + is_due(self.spell_timer[0]) + is_due(self.spell_timer[1])
            + is_due(self.spell_timer[2]) + is_due(self.spell_timer[3]) + is_due(self.pyro_timer)
    }
}

/// Events of the first `n` mages that are due at this very tick.
pub open spec fn lanes_due_now(lanes: Seq<MageLane>, n: int) -> nat
    decreases n,
{
    if n <= 0 {
        0
    } else {
        lanes_due_now(lanes, n - 1) + lanes[n - 1].due_now()
    }
}

/// Proc checks among the first `n` that are due at this very tick.
pub open spec fn procs_due_now(timers: Seq<Timer>, n: int) -> nat
    decreases n,
{
    if n <= 0 {
        0
    } else {
        procs_due_now(timers, n - 1) + is_due(timers[n - 1])
    }
}

proof fn lemma_lanes_due_now_update(lanes: Seq<MageLane>, n: int, i: int, l: MageLane)
    requires
        0 <= n <= lanes.len(),
        0 <= i < lanes.len(),
    ensures
        i < n ==> lanes_due_now(lanes.update(i, l), n) + lanes[i].due_now() == lanes_due_now(lanes, n)
            + l.due_now(),
        i >= n ==> lanes_due_now(lanes.update(i, l), n) == lanes_due_now(lanes, n),
    decreases n,
{
    if n > 0 {
        lemma_lanes_due_now_update(lanes, n - 1, i, l);
    }
}

proof fn lemma_procs_due_now_update(timers: Seq<Timer>, n: int, i: int, t: Timer)
    requires
        0 <= n <= timers.len(),
        0 <= i < timers.len(),
    ensures
        i < n ==> procs_due_now(timers.update(i, t), n) + is_due(timers[i]) == procs_due_now(timers, n)
            + is_due(t),
        i >= n ==> procs_due_now(timers.update(i, t), n) == procs_due_now(timers, n),
    decreases n,
{
    if n > 0 {
        lemma_procs_due_now_update(timers, n - 1, i, t);
    }
}

impl StateView {
    /// Events that are due at this very tick.
    pub open spec fn due_now(self) -> nat {
        lanes_due_now(self.lanes, self.lanes.len() as int) + is_due(self.boss.tick_timer)
            + procs_due_now(self.boss.nightfall, self.boss.nightfall.len() as int)
    }

    /// Ticks until the end of the trial.
    pub open spec fn time_left(self) -> int {
        self.global.duration - self.global.running_time
    }

    /// No time passing changes nothing.
    pub proof fn lemma_elapsed_nothing(self)
        ensures
            self.elapsed(0) == self,
    {
        let e = self.elapsed(0);
        assert forall|i: int| 0 <= i < self.lanes.len() implies e.lanes[i] == self.lanes[i] by {
            let l = self.lanes[i];
            let a = l.after(0, self.meta.no_debuff_limit);
            assert(a.spell_timer =~= l.spell_timer);
            assert(a.buff_timer =~= l.buff_timer);
            assert(a.buff_cooldown =~= l.buff_cooldown);
            assert(a.pi_timer =~= l.pi_timer);
            assert(a.pi_cooldown =~= l.pi_cooldown);
        }
        assert(e.lanes =~= self.lanes);
        assert(e.boss.nightfall =~= self.boss.nightfall);
    }

    /// The scheduler gets somewhere with every step, where every proc source
    /// has a period: the clock moves forward, or the decision gate opens, or
    /// fewer events are due at this very tick than before.
    pub proof fn lemma_step_gets_somewhere(self, k: Constants, rolls: Rolls)
        requires
            self.wf(),
            self.every_source_has_a_period(),
            k.wf(),
            self.in_progress(),
            !self.global.decision_gate,
            self.next_event() is Some,
        ensures
            self.stepped(k, rolls).time_left() < self.time_left() || self.stepped(
                k,
                rolls,
            ).global.decision_gate || (self.stepped(k, rolls).time_left() == self.time_left()
                && self.stepped(k, rolls).due_now() < self.due_now()),
    {
        lemma_clock_never_rewinds(self, k, rolls);
        self.lemma_next_event_fires();
        if self.next_due()->In_0 == 0 {
            match self.next_event()->Some_0 {
                Event::CastEnd => {
                    self.lemma_cast_end_now(k);
                },
                Event::Landing => {
                    self.lemma_landing_now(k, rolls);
                },
                Event::IgniteTick => {
                    self.lemma_ignite_tick_now(rolls.resist);
                },
                Event::Proc => {
                    self.lemma_proc_now(rolls.nightfall);
                },
                Event::PyroTick => {
                    self.lemma_pyro_tick_now();
                },
            }
        }
    }

    proof fn lemma_cast_end_now(self, k: Constants)
        requires
            self.wf(),
            self.fires(Event::CastEnd),
            self.next_due() == Timer::In(0),
        ensures
            self.cast_finished(k).global.decision_gate || self.cast_finished(k).due_now()
                < self.due_now(),
    {
        self.lemma_elapsed_nothing();
        let n = self.lanes.len() as int;
        lemma_soonest_finite(self.cast_timers(), n);
        let lane = self.next_cast_lane();
        let l = self.lanes[lane];
        let freed = l.completed(l.cast_type, k).released();
        self.lemma_cast_end_uses_up(lane, k);
        lemma_lanes_due_now_update(self.lanes, n, lane, freed);
        let after = self.cast_finished(k);
        assert(after.lanes == self.lanes.update(lane, freed));
        assert(after.boss == self.boss);
    }

    proof fn lemma_landing_now(self, k: Constants, rolls: Rolls)
        requires
            self.wf(),
            self.in_progress(),
            self.fires(Event::Landing),
            self.next_due() == Timer::In(0),
        ensures
            self.landed(k, rolls).due_now() < self.due_now(),
    {
        self.lemma_elapsed_nothing();
        let n = self.lanes.len() as int;
        lemma_soonest_finite(self.landing_timers(), n);
        let lane = self.next_spell_lane();
        lemma_soonest_finite(self.lanes[lane].slots(), 4);
        let slot = self.lanes[lane].spec_next_slot();
        let l = self.lanes[lane];
        assert(l.spell_timer[slot] == Timer::In(0));
        let after = self.landed(k, rolls);
        assert(after == self.resolved(k, lane, slot, rolls));
        if crate::units::spec_roll_below(rolls.hit, l.hit_chance) {
            self.lemma_struck_uses_up(k, lane, slot, rolls);
        } else {
            let freed = self.missed(lane, slot).lanes[lane];
            assert(self.missed(lane, slot).lanes == self.lanes.update(lane, freed));
            lemma_lanes_due_now_update(self.lanes, n, lane, freed);
            assert(self.missed(lane, slot).boss == self.boss);
        }
    }

    proof fn lemma_struck_uses_up(self, k: Constants, lane: int, slot: int, rolls: Rolls)
        requires
            0 <= lane < self.lanes.len(),
            0 <= slot < 4,
            self.lanes[lane].spell_timer[slot] == Timer::In(0),
        ensures
            self.struck(k, lane, slot, rolls).due_now() < self.due_now(),
    {
        let n = self.lanes.len() as int;
        let imp = self.impact(k, lane, slot, rolls);
        let l = self.lanes[lane];
        let freed = l.struck(slot, imp);
        let after = self.struck(k, lane, slot, rolls);
        assert(after.lanes == self.lanes.update(lane, freed));
        lemma_lanes_due_now_update(self.lanes, n, lane, freed);
        assert(freed.due_now() < l.due_now());
        let boss = self.boss.struck(self.global.running_time, imp);
        assert(after.boss == boss);
        assert(boss.nightfall == self.boss.nightfall);
        assert(is_due(boss.tick_timer) <= is_due(self.boss.tick_timer));
    }

    proof fn lemma_ignite_tick_now(self, roll: u64)
        requires
            self.wf(),
            self.in_progress(),
            self.fires(Event::IgniteTick),
            self.next_due() == Timer::In(0),
        ensures
            self.ignite_ticked(roll).due_now() < self.due_now(),
    {
        self.lemma_elapsed_nothing();
        let after = self.ignite_ticked(roll);
        assert(self.boss.tick_timer == Timer::In(0));
        assert(after.lanes == self.lanes);
        assert(after.boss.nightfall == self.boss.nightfall);
        assert(is_due(after.boss.tick_timer) == 0);
    }

    proof fn lemma_proc_now(self, roll: u64)
        requires
            self.wf(),
            self.every_source_has_a_period(),
            self.fires(Event::Proc),
            self.next_due() == Timer::In(0),
        ensures
            self.proc_checked(roll).due_now() < self.due_now(),
    {
        self.lemma_elapsed_nothing();
        let m = self.boss.nightfall.len() as int;
        lemma_soonest_finite(self.proc_timers(), m);
        let source = self.next_proc_source();
        assert(self.boss.nightfall[source] == Timer::In(0));
        assert(0 < self.meta.nightfall_period[source]);
        lemma_procs_due_now_update(
            self.boss.nightfall,
            m,
            source,
            Timer::In(self.meta.nightfall_period[source]),
        );
        let after = self.proc_checked(roll);
        assert(after.lanes == self.lanes);
        assert(after.boss.tick_timer == self.boss.tick_timer);
    }

    proof fn lemma_pyro_tick_now(self)
        requires
            self.wf(),
            self.in_progress(),
            self.fires(Event::PyroTick),
            self.next_due() == Timer::In(0),
        ensures
            self.pyro_ticked().due_now() < self.due_now(),
    {
        self.lemma_elapsed_nothing();
        let n = self.lanes.len() as int;
        lemma_soonest_finite(self.pyro_timers(), n);
        let lane = self.next_pyro_lane();
        let l = self.lanes[lane];
        assert(l.pyro_timer == Timer::In(0));
        let after = self.pyro_ticked();
        let freed = after.lanes[lane];
        assert(after.lanes == self.lanes.update(lane, freed));
        lemma_lanes_due_now_update(self.lanes, n, lane, freed);
        assert(after.boss == self.boss);
    }

    /// The end of a cast that is due now either opens the decision gate or
    /// leaves the mage with fewer events due now.
    proof fn lemma_cast_end_uses_up(self, lane: int, k: Constants)
        requires
            0 <= lane < self.lanes.len(),
            self.lanes[lane].cast_timer == Timer::In(0),
        ensures
            ({
                let l = self.lanes[lane];
                let done = l.completed(l.cast_type, k);
                !done.gcd_timer.spec_is_active() || done.released().due_now() < l.due_now()
            }),
    {
    }
}

/// A run of the scheduler: from each state but the last, with the decision
/// gate closed and the trial in progress, one step leads to the next.
#[verifier::opaque]
pub open spec fn is_run(run: Seq<StateView>, k: Constants) -> bool {
    forall|i: int|
        0 <= i < run.len() - 1 ==> {
            &&& !(#[trigger] run[i]).global.decision_gate
            &&& run[i].in_progress()
            &&& run[i].next_event() is Some
            &&& exists|rolls: Rolls| run[i + 1] == run[i].stepped(k, rolls)
        }
}

/// A run goes on by one step.
pub proof fn lemma_run_goes_on(run: Seq<StateView>, k: Constants, rolls: Rolls)
    requires
        run.len() > 0,
        is_run(run, k),
        !run.last().global.decision_gate,
        run.last().in_progress(),
        run.last().next_event() is Some,
    ensures
        is_run(run.push(run.last().stepped(k, rolls)), k),
        run.push(run.last().stepped(k, rolls)).len() > 0,
        run.push(run.last().stepped(k, rolls))[0] == run[0],
        run.push(run.last().stepped(k, rolls)).last() == run.last().stepped(k, rolls),
{
    reveal(is_run);
    let next = run.push(run.last().stepped(k, rolls));
    assert forall|i: int| 0 <= i < next.len() - 1 implies {
        &&& !(#[trigger] next[i]).global.decision_gate
        &&& next[i].in_progress()
        &&& next[i].next_event() is Some
        &&& exists|rolls: Rolls| next[i + 1] == next[i].stepped(k, rolls)
    } by {
        if i < run.len() - 1 {
            assert(next[i] == run[i]);
            assert(next[i + 1] == run[i + 1]);
        } else {
            assert(next[i] == run.last());
            assert(next[i + 1] == run.last().stepped(k, rolls));
        }
    }
}

/// Every run is orderly.  Each of its states is well formed; the clock of
/// each is no earlier, and no total and no mage's damage is lower, than
/// in the state the run began with; and every state but the last lies
/// within the trial.
pub proof fn lemma_run_is_orderly(run: Seq<StateView>, k: Constants, i: int)
    requires
        is_run(run, k),
        run.len() > 0,
        run[0].wf(),
        k.wf(),
        0 <= i < run.len(),
    ensures
        run[i].wf(),
        run[i].clock() >= run[0].clock(),
        i < run.len() - 1 ==> run[i].clock() < run[i].global.duration,
        run[i].totals.total_damage >= run[0].totals.total_damage,
        run[i].totals.player_damage >= run[0].totals.player_damage,
        run[i].totals.ignite_damage >= run[0].totals.ignite_damage,
        run[i].lanes.len() == run[0].lanes.len(),
        forall|lane: int|
            0 <= lane < run[0].lanes.len() ==> (#[trigger] run[i].lanes[lane]).damage
                >= run[0].lanes[lane].damage,
    decreases i,
{
    reveal(is_run);
    if i > 0 {
        lemma_run_is_orderly(run, k, i - 1);
        let before = run[i - 1];
        let rolls = choose|rolls: Rolls| run[i - 1 + 1] == before.stepped(k, rolls);
        assert(run[i] == before.stepped(k, rolls));
        lemma_nothing_is_scheduled_in_the_past(before, k, rolls);
        lemma_clock_never_rewinds(before, k, rolls);
        lemma_ledger_never_shrinks(before, k, rolls);
        assert forall|lane: int| 0 <= lane < run[0].lanes.len() implies (
        #[trigger] run[i].lanes[lane]).damage >= run[0].lanes[lane].damage by {
            assert(before.lanes[lane].damage >= run[0].lanes[lane].damage);
            assert(before.stepped(k, rolls).lanes[lane].damage >= before.lanes[lane].damage);
        }
    }
}

impl State {
    /// One step of a run: the run grows by the state reached, and the
    /// scheduler has got somewhere.
    fn step_in_run(&mut self, k: &Constants, rng: &mut ChaCha8Rng, Ghost(run): Ghost<Seq<StateView>>) -> (next:
        Ghost<Seq<StateView>>)
        requires
            old(self).wf(),
            old(self)@.every_source_has_a_period(),
            k.wf(),
            !old(self)@.global.decision_gate,
            old(self)@.in_progress(),
            old(self)@.next_event() is Some,
            run.len() > 0,
            run.last() == old(self)@,
            is_run(run, *k),
        ensures
            final(self).wf(),
            final(self)@.every_source_has_a_period(),
            next@.len() > 0,
            next@[0] == run[0],
            next@.last() == final(self)@,
            is_run(next@, *k),
            final(self)@.time_left() < old(self)@.time_left() || final(self)@.global.decision_gate || (
            final(self)@.time_left() == old(self)@.time_left()
                && final(self)@.due_now() < old(self)@.due_now()),
    {
        let ghost pre = self@;
        self.step_one(k, rng);
        proof {
            let rolls = choose|rolls: Rolls| self@ == pre.stepped(*k, rolls);
            pre.lemma_step_gets_somewhere(*k, rolls);
            lemma_step_keeps_the_setup(pre, *k, rolls);
            lemma_run_goes_on(run, *k, rolls);
        }
        Ghost(run.push(self@))
    }

    /// Runs the scheduler until a mage has to decide, the trial is over, or
    /// nothing is scheduled any more.  Every proc source has to have a
    /// period: a check that is not armed again would be due for ever.
    pub fn advance(&mut self, k: &Constants, rng: &mut ChaCha8Rng)
        requires
            old(self).wf(),
            old(self)@.every_source_has_a_period(),
            k.wf(),
        ensures
            final(self).wf(),
            final(self)@.global.decision_gate || !final(self)@.in_progress()
                || final(self)@.next_event() is None,
            exists|run: Seq<StateView>|
                run.len() > 0 && run[0] == old(self)@ && #[trigger] run.last() == final(self)@
                    && is_run(run, *k),
    {
        let ghost mut run: Seq<StateView> = seq![self@];
        proof {
            reveal(is_run);
            assert(is_run(run, *k));
        }
        while !self.decision_gate() && self.in_progress()
            invariant
                self.wf(),
                self@.every_source_has_a_period(),
                k.wf(),
                run.len() > 0,
                run[0] == old(self)@,
                run.last() == self@,
                is_run(run, *k),
            ensures
                self.wf(),
                run.len() > 0,
                run[0] == old(self)@,
                run.last() == self@,
                is_run(run, *k),
                self@.global.decision_gate || !self@.in_progress() || self@.next_event() is None,
            decreases self@.time_left(), self@.due_now(),
        {
            if self.next_event().is_none() {
                break ;
            }
            let next = self.step_in_run(k, rng, Ghost(run));
            proof {
                run = next@;
            }
            if self.decision_gate() || !self.in_progress() {
                break ;
            }
        }
    }
}

} // verus!
