//! What holds of every trial, proved from the rules in [`crate::mechanics`].

use vstd::prelude::*;
use crate::apl::AplItem;
use crate::constants::{
    Action, Buff, Constants, Spell, BUFF_DURATION, COMBUSTION_COOLDOWN, IGNITE_STACK, RES_AMOUNT,
    RES_THRESH, RES_THRESH_UL, SCORCH_STACK,
};
use crate::decisions::{action_ready, condition_holds, first_match, first_ready, lemma_first_ready};
use crate::mechanics::{resist_tier, spec_retained, Event, Impact, Rolls};
use crate::schedule::{lemma_first_soonest, lemma_soonest_finite};
use crate::state::{BossView, MageLane, StateView, Totals};
use crate::units::{
    accrued, lemma_scaled_by_one, scaled, scaled_fine, spec_roll_spread, unit_of, Timer, HORIZON,
    ROLL_SPAN,
};

verus! {

/// The scheduler's order of handling.  The event handled next is scheduled,
/// nothing is due before it, and every kind that would be handled ahead of
/// it on a tie is due strictly later.
pub proof fn lemma_dispatch_order(s: StateView, e: Event, other: Event)
    requires
        s.next_event() == Some(e),
    ensures
        s.due(e) is In,
        s.due(e).spec_at_most(s.due(other)),
        other.rank() < e.rank() ==> !s.due(other).spec_at_most(s.due(e)),
{
}

/// Of two kinds of event due at the same tick, the one later in the order
/// of handling is not handled first.
pub proof fn lemma_tie_break(s: StateView, first: Event, second: Event)
    requires
        s.due(first) == s.due(second),
        first.rank() < second.rank(),
    ensures
        s.next_event() != Some(second),
{
}

/// The clock never runs backwards: a step moves it forward by exactly the
/// time to the next event, and leaves it alone when nothing is scheduled.
pub proof fn lemma_clock_never_rewinds(s: StateView, k: Constants, rolls: Rolls)
    requires
        s.wf(),
        s.in_progress(),
    ensures
        s.stepped(k, rolls).clock() >= s.clock(),
        s.next_event() is None ==> s.stepped(k, rolls) == s,
        s.next_event() is Some ==> s.next_due() is In && s.stepped(k, rolls).clock() == s.clock()
            + s.next_due()->In_0,
{
    s.lemma_next_event_fires();
    s.lemma_next_due_is_lower_bound();
    let n = s.lanes.len() as int;
    match s.next_event() {
        None => {},
        Some(Event::CastEnd) => {
            lemma_soonest_finite(s.cast_timers(), n);
            let lane = s.next_cast_lane();
            assert(s.lanes[lane].wf(s.clock()));
        },
        Some(Event::Landing) => {
            lemma_soonest_finite(s.landing_timers(), n);
            let lane = s.next_spell_lane();
            lemma_soonest_finite(s.lanes[lane].slots(), 4);
            let slot = s.lanes[lane].spec_next_slot();
            assert(s.lanes[lane].wf(s.clock()));
            assert(s.lanes[lane].spell_timer[slot].within(s.clock()));
            assert(s.lanes[lane].spell_timer[slot].pending());
        },
        Some(Event::IgniteTick) => {},
        Some(Event::Proc) => {
            lemma_soonest_finite(s.proc_timers(), s.boss.nightfall.len() as int);
            let source = s.next_proc_source();
            assert(s.boss.nightfall[source].within(s.clock()));
            assert(s.boss.nightfall[source].pending());
        },
        Some(Event::PyroTick) => {
            lemma_soonest_finite(s.pyro_timers(), n);
            let lane = s.next_pyro_lane();
            assert(s.lanes[lane].wf(s.clock()));
        },
    }
}

/// Damage is dealt within the trial only: a step that takes the clock to
/// the end of the trial or past it changes no total and no mage's damage.
pub proof fn lemma_no_damage_after_the_end(s: StateView, k: Constants, rolls: Rolls)
    requires
        s.wf(),
        s.in_progress(),
        !s.stepped(k, rolls).in_progress(),
    ensures
        s.stepped(k, rolls).totals == s.totals,
        s.stepped(k, rolls).lanes.len() == s.lanes.len(),
        forall|i: int|
            0 <= i < s.lanes.len() ==> (#[trigger] s.stepped(k, rolls).lanes[i]).damage
                == s.lanes[i].damage,
{
    s.lemma_next_event_fires();
    let n = s.lanes.len() as int;
    match s.next_event() {
        None => {},
        Some(Event::CastEnd) => {
            lemma_soonest_finite(s.cast_timers(), n);
        },
        Some(Event::Landing) => {
            lemma_soonest_finite(s.landing_timers(), n);
        },
        Some(Event::IgniteTick) => {},
        Some(Event::Proc) => {},
        Some(Event::PyroTick) => {
            lemma_soonest_finite(s.pyro_timers(), n);
        },
    }
}

/// Whether no total and no mage's damage is lower in `after` than in
/// `before`.
pub open spec fn no_less(after: StateView, before: StateView) -> bool {
    &&& after.totals.total_damage >= before.totals.total_damage
    &&& after.totals.player_damage >= before.totals.player_damage
    &&& after.totals.ignite_damage >= before.totals.ignite_damage
    &&& after.lanes.len() == before.lanes.len()
    &&& forall|i: int|
        0 <= i < before.lanes.len() ==> (#[trigger] after.lanes[i]).damage >= before.lanes[i].damage
}

proof fn lemma_cast_end_takes_nothing_back(s: StateView, k: Constants)
    requires
        s.lanes.len() > 0,
    ensures
        no_less(s.cast_finished(k), s),
{
    lemma_first_soonest(s.cast_timers(), s.lanes.len() as int);
}

proof fn lemma_landing_takes_nothing_back(s: StateView, k: Constants, rolls: Rolls)
    requires
        s.lanes.len() > 0,
    ensures
        no_less(s.landed(k, rolls), s),
{
    lemma_first_soonest(s.landing_timers(), s.lanes.len() as int);
    let lane = s.next_spell_lane();
    lemma_first_soonest(s.lanes[lane].slots(), 4);
    let slot = s.lanes[lane].spec_next_slot();
    let mid = s.elapsed(s.lanes[lane].spell_timer[slot]->In_0 as int);
    assert(no_less(mid, s));
    if mid.in_progress() {
        if crate::units::spec_roll_below(rolls.hit, mid.lanes[lane].hit_chance) {
            assert(no_less(mid.struck(k, lane, slot, rolls), mid));
        } else {
            assert(no_less(mid.missed(lane, slot), mid));
        }
    }
}

proof fn lemma_ticks_take_nothing_back(s: StateView, roll: u64)
    ensures
        no_less(s.ignite_ticked(roll), s),
        no_less(s.proc_checked(roll), s),
{
}

proof fn lemma_burn_takes_nothing_back(s: StateView)
    requires
        s.lanes.len() > 0,
    ensures
        no_less(s.pyro_ticked(), s),
{
    lemma_first_soonest(s.pyro_timers(), s.lanes.len() as int);
}

/// No damage is ever taken back: a step lowers no total and no mage's
/// damage.
pub proof fn lemma_ledger_never_shrinks(s: StateView, k: Constants, rolls: Rolls)
    requires
        s.wf(),
        s.in_progress(),
    ensures
        s.stepped(k, rolls).totals.total_damage >= s.totals.total_damage,
        s.stepped(k, rolls).totals.player_damage >= s.totals.player_damage,
        s.stepped(k, rolls).totals.ignite_damage >= s.totals.ignite_damage,
        s.stepped(k, rolls).lanes.len() == s.lanes.len(),
        forall|i: int|
            0 <= i < s.lanes.len() ==> (#[trigger] s.stepped(k, rolls).lanes[i]).damage
                >= s.lanes[i].damage,
{
    s.lemma_next_event_fires();
    let n = s.lanes.len() as int;
    match s.next_event() {
        None => {},
        Some(Event::CastEnd) => {
            lemma_soonest_finite(s.cast_timers(), n);
            lemma_cast_end_takes_nothing_back(s, k);
        },
        Some(Event::Landing) => {
            lemma_soonest_finite(s.landing_timers(), n);
            lemma_landing_takes_nothing_back(s, k, rolls);
        },
        Some(Event::IgniteTick) => {
            lemma_ticks_take_nothing_back(s, rolls.resist);
        },
        Some(Event::Proc) => {
            lemma_ticks_take_nothing_back(s, rolls.nightfall);
        },
        Some(Event::PyroTick) => {
            lemma_soonest_finite(s.pyro_timers(), n);
            lemma_burn_takes_nothing_back(s);
        },
    }
}

/// A fire crit is entered in the ledgers once and at its full worth: the
/// total and the mage's own damage both grow by the crit, not by the hit
/// and the crit.  The same holds of a hit that does not crit.
pub proof fn lemma_hit_entered_once(totals: Totals, lane: MageLane, slot: int, imp: Impact)
    requires
        imp.fire || !imp.crit,
    ensures
        totals.struck(imp).total_damage == accrued(totals.total_damage, imp.landed),
        lane.struck(slot, imp).damage == accrued(lane.damage, imp.landed),
        totals.struck(imp).player_damage == totals.player_damage,
        totals.struck(imp).ignite_damage == totals.ignite_damage,
{
}

/// The partial-resist tiers divide the rolls among them.  Every roll falls
/// in exactly one tier; a tier holds the rolls whose fraction lies from its
/// lower end up to, but not including, its upper end; the ends do not
/// decrease from tier to tier, start at nothing and end at certainty.
pub proof fn lemma_resist_tiers_partition(roll: u64)
    ensures
        0 <= resist_tier(roll) <= 3,
        RES_THRESH[resist_tier(roll)] * ROLL_SPAN <= unit_of(roll) * 1_000_000
            < RES_THRESH_UL[resist_tier(roll)] * ROLL_SPAN,
        spec_retained(roll) == RES_AMOUNT[resist_tier(roll)],
        forall|i: int| 0 <= i < 4 ==> #[trigger] RES_THRESH[i] <= RES_THRESH_UL[i],
        forall|i: int| 0 <= i < 3 ==> #[trigger] RES_THRESH_UL[i] == RES_THRESH[i + 1],
        RES_THRESH[0] == 0,
        RES_THRESH_UL[3] == 1_000_000,
{
    assert(0 <= unit_of(roll) < ROLL_SPAN);
}

/// `first_match` names the first rule that applies: its condition holds and
/// its action can be used, and no rule before it has both.
pub proof fn lemma_first_match(items: Seq<AplItem>, from: int, st: StateView, lane: int, reaction: i64)
    requires
        0 <= from,
    ensures
        first_match(items, from, st, lane, reaction) <= items.len(),
        first_match(items, from, st, lane, reaction) < items.len() ==> {
            let m = first_match(items, from, st, lane, reaction);
            &&& from <= m
            &&& condition_holds(&items[m].condition, st, lane, reaction)
            &&& action_ready(st, lane, items[m].action.key)
        },
        forall|i: int|
            from <= i < first_match(items, from, st, lane, reaction) && i < items.len() ==> !(
            condition_holds(&(#[trigger] items[i]).condition, st, lane, reaction) && action_ready(
                st,
                lane,
                items[i].action.key,
            )),
    decreases items.len() - from,
{
    if from < items.len() && !(condition_holds(&items[from].condition, st, lane, reaction)
        && action_ready(st, lane, items[from].action.key)) {
        lemma_first_match(items, from + 1, st, lane, reaction);
    }
}

/// The first rule that applies wins whatever follows it: two lists of rules
/// that agree up to and including that rule pick the same rule.
pub proof fn lemma_first_rule_wins(
    items: Seq<AplItem>,
    others: Seq<AplItem>,
    from: int,
    st: StateView,
    lane: int,
    reaction: i64,
)
    requires
        0 <= from,
        first_match(items, from, st, lane, reaction) < items.len(),
        first_match(items, from, st, lane, reaction) < others.len(),
        forall|i: int| 0 <= i <= first_match(items, from, st, lane, reaction) ==> items[i] == others[i],
    ensures
        first_match(others, from, st, lane, reaction) == first_match(items, from, st, lane, reaction),
    decreases items.len() - from,
{
    let m = first_match(items, from, st, lane, reaction);
    lemma_first_match(items, from, st, lane, reaction);
    if from < m {
        assert(items[from] == others[from]);
        lemma_first_rule_wins(items, others, from + 1, st, lane, reaction);
    } else {
        assert(items[m] == others[m]);
    }
}

/// An opener only moves forward.  The entry picked lies at or after the
/// stage the opener stood at, every entry passed over on the way could not
/// be used, and a later decision starts after the entry picked: an entry
/// that was passed over is never tried again.
pub proof fn lemma_opener_moves_forward(opener: Seq<Action>, stage: int, st: StateView, lane: int)
    requires
        0 <= stage <= opener.len(),
    ensures
        stage <= first_ready(opener, stage, st, lane) <= opener.len(),
        forall|i: int|
            stage <= i < first_ready(opener, stage, st, lane) ==> !action_ready(
                st,
                lane,
                #[trigger] opener[i],
            ),
        first_ready(opener, stage, st, lane) < opener.len() ==> action_ready(
            st,
            lane,
            opener[first_ready(opener, stage, st, lane)],
        ),
        forall|later: StateView, at: int|
            first_ready(opener, stage, st, lane) < at <= opener.len() ==> first_ready(
                opener,
                stage,
                st,
                lane,
            ) < #[trigger] first_ready(opener, at, later, lane) || first_ready(opener, at, later, lane)
                == opener.len(),
{
    lemma_first_ready(opener, stage, st, lane);
    assert forall|later: StateView, at: int|
        first_ready(opener, stage, st, lane) < at <= opener.len() implies first_ready(
        opener,
        stage,
        st,
        lane,
    ) < #[trigger] first_ready(opener, at, later, lane) || first_ready(opener, at, later, lane)
        == opener.len() by {
        lemma_first_ready(opener, at, later, lane);
    }
}

/// Nothing is ever scheduled in the past: after a step no event is due
/// before the clock, and every countdown is as well formed as before.
pub proof fn lemma_nothing_is_scheduled_in_the_past(s: StateView, k: Constants, rolls: Rolls)
    requires
        s.wf(),
        k.wf(),
        s.in_progress(),
    ensures
        s.stepped(k, rolls).wf(),
{
    s.lemma_next_event_fires();
    match s.next_event() {
        None => {},
        Some(Event::CastEnd) => {
            lemma_cast_end_keeps_wf(s, k);
        },
        Some(Event::Landing) => {
            lemma_landing_keeps_wf(s, k, rolls);
        },
        Some(Event::IgniteTick) => {
            lemma_ignite_tick_keeps_wf(s, rolls.resist);
        },
        Some(Event::Proc) => {
            lemma_proc_keeps_wf(s, rolls.nightfall);
        },
        Some(Event::PyroTick) => {
            lemma_pyro_tick_keeps_wf(s);
        },
    }
}

/// What handling an event has to start from: the event is due, nothing is
/// due before it, and the clock has room for it.
pub open spec fn ready_for(s: StateView, e: Event) -> bool {
    s.wf() && s.in_progress() && s.fires(e)
}

proof fn lemma_due_is_in_range(s: StateView, e: Event)
    requires
        ready_for(s, e),
    ensures
        0 <= s.due(e)->In_0 <= 2 * HORIZON,
        s.clock() + s.due(e)->In_0 <= 3 * HORIZON,
        Timer::In(s.due(e)->In_0).spec_at_most(s.next_due()),
        s.elapsed(s.due(e)->In_0 as int).wf(),
{
    let n = s.lanes.len() as int;
    match e {
        Event::CastEnd => {
            lemma_soonest_finite(s.cast_timers(), n);
            assert(s.lanes[s.next_cast_lane()].wf(s.clock()));
        },
        Event::Landing => {
            lemma_soonest_finite(s.landing_timers(), n);
            let lane = s.next_spell_lane();
            lemma_soonest_finite(s.lanes[lane].slots(), 4);
            let slot = s.lanes[lane].spec_next_slot();
            assert(s.lanes[lane].wf(s.clock()));
            assert(s.lanes[lane].spell_timer[slot].within(s.clock()));
            assert(s.lanes[lane].spell_timer[slot].pending());
        },
        Event::IgniteTick => {},
        Event::Proc => {
            lemma_soonest_finite(s.proc_timers(), s.boss.nightfall.len() as int);
            let source = s.next_proc_source();
            assert(s.boss.nightfall[source].within(s.clock()));
            assert(s.boss.nightfall[source].pending());
        },
        Event::PyroTick => {
            lemma_soonest_finite(s.pyro_timers(), n);
            assert(s.lanes[s.next_pyro_lane()].wf(s.clock()));
        },
    }
    s.lemma_elapsed_keeps_wf(s.due(e)->In_0 as int);
}

proof fn lemma_lane_swap_keeps_wf(s: StateView, lane: int, l: MageLane)
    requires
        s.wf(),
        0 <= lane < s.lanes.len(),
        l.wf(s.clock()),
    ensures
        s.with_lane(lane, l).wf(),
{
    let after = s.with_lane(lane, l);
    assert forall|i: int| 0 <= i < after.lanes.len() implies (#[trigger] after.lanes[i]).wf(after.clock()) by {
        if i != lane {
            assert(s.lanes[i].wf(s.clock()));
        }
    }
}

proof fn lemma_cast_end_keeps_wf(s: StateView, k: Constants)
    requires
        ready_for(s, Event::CastEnd),
        k.wf(),
    ensures
        s.cast_finished(k).wf(),
{
    lemma_due_is_in_range(s, Event::CastEnd);
    lemma_soonest_finite(s.cast_timers(), s.lanes.len() as int);
    let lane = s.next_cast_lane();
    let mid = s.elapsed(s.lanes[lane].cast_timer->In_0 as int);
    let l = mid.lanes[lane];
    assert(l.wf(mid.clock()));
    l.lemma_completed_wf(l.cast_type, k, mid.clock());
    lemma_lane_swap_keeps_wf(mid, lane, l.completed(l.cast_type, k).released());
}

proof fn lemma_landing_keeps_wf(s: StateView, k: Constants, rolls: Rolls)
    requires
        ready_for(s, Event::Landing),
        k.wf(),
    ensures
        s.landed(k, rolls).wf(),
{
    lemma_due_is_in_range(s, Event::Landing);
    lemma_soonest_finite(s.landing_timers(), s.lanes.len() as int);
    let lane = s.next_spell_lane();
    lemma_soonest_finite(s.lanes[lane].slots(), 4);
    let slot = s.lanes[lane].spec_next_slot();
    let mid = s.elapsed(s.lanes[lane].spell_timer[slot]->In_0 as int);
    if mid.in_progress() {
        let l = mid.lanes[lane];
        assert(l.wf(mid.clock()));
        assert(forall|j: int| 0 <= j < 4 ==> (#[trigger] l.spell_timer[j]).within(mid.clock()));
        assert(forall|j: int| 0 <= j < 4 ==> (#[trigger] l.spell_timer[j]).pending());
        if crate::units::spec_roll_below(rolls.hit, l.hit_chance) {
            let imp = mid.impact(k, lane, slot, rolls);
            l.lemma_struck_wf(slot, imp, mid.clock());
            mid.boss.lemma_struck_wf(mid.global.running_time, imp);
            lemma_lane_swap_keeps_wf(mid, lane, l.struck(slot, imp));
        } else {
            let freed = mid.missed(lane, slot).lanes[lane];
            assert(forall|j: int| 0 <= j < 4 ==> (#[trigger] freed.spell_timer[j]).within(mid.clock()));
            assert(forall|j: int| 0 <= j < 4 ==> (#[trigger] freed.spell_timer[j]).pending());
            lemma_lane_swap_keeps_wf(mid, lane, freed);
        }
    }
}

proof fn lemma_ignite_tick_keeps_wf(s: StateView, roll: u64)
    requires
        ready_for(s, Event::IgniteTick),
    ensures
        s.ignite_ticked(roll).wf(),
{
    lemma_due_is_in_range(s, Event::IgniteTick);
}

proof fn lemma_proc_keeps_wf(s: StateView, roll: u64)
    requires
        ready_for(s, Event::Proc),
    ensures
        s.proc_checked(roll).wf(),
{
    lemma_due_is_in_range(s, Event::Proc);
    lemma_soonest_finite(s.proc_timers(), s.boss.nightfall.len() as int);
    let source = s.next_proc_source();
    let mid = s.elapsed(s.boss.nightfall[source]->In_0 as int);
    let after = s.proc_checked(roll);
    if source < s.meta.nightfall_period.len() {
        assert(0 < s.meta.nightfall_period[source] <= HORIZON);
    }
    assert forall|i: int| 0 <= i < after.boss.nightfall.len() implies (
    #[trigger] after.boss.nightfall[i]).within(after.clock()) && after.boss.nightfall[i].pending() by {
        if i != source {
            assert(mid.boss.nightfall[i].within(mid.clock()));
        }
    }
    assert forall|i: int| 0 <= i < after.lanes.len() implies (#[trigger] after.lanes[i]).wf(after.clock()) by {
        assert(mid.lanes[i].wf(mid.clock()));
    }
}

proof fn lemma_pyro_tick_keeps_wf(s: StateView)
    requires
        ready_for(s, Event::PyroTick),
    ensures
        s.pyro_ticked().wf(),
{
    lemma_due_is_in_range(s, Event::PyroTick);
    lemma_soonest_finite(s.pyro_timers(), s.lanes.len() as int);
    let lane = s.next_pyro_lane();
    let mid = s.elapsed(s.lanes[lane].pyro_timer->In_0 as int);
    if mid.in_progress() {
        let l = mid.lanes[lane];
        assert(l.wf(mid.clock()));
        let freed = s.pyro_ticked().lanes[lane];
        lemma_lane_swap_keeps_wf(mid, lane, freed);
    }
}

/// A hit that nothing scales is worth the spell's base damage, its part of
/// the damage range, and its share of the spell power that counts: outside
/// the fire school, with curse, talents and encounter at a multiplier of
/// one, and without Power Infusion, Nightfall, damage auras or set bonus.
pub proof fn lemma_plain_hit(s: StateView, k: Constants, lane: int, spell: Spell, rolls: Rolls)
    requires
        0 <= lane < s.lanes.len(),
        !k.is_fire[spell.ordinal()],
        s.meta.coe == 1_000_000,
        k.damage_multiplier[spell.ordinal()] == 1_000_000,
        s.meta.vulnerability == 1_000_000,
        !s.lanes[lane].spec_has_power_infusion(),
        !s.boss.spell_vulnerability.spec_is_active(),
        !s.is_dmf(lane) && !s.is_sr(lane) && !s.is_ts(lane) && !s.is_cleaner(lane),
    ensures
        s.hit_amount(k, lane, spell, rolls) == accrued(
            accrued(
                k.spell_base[spell.ordinal()],
                spec_roll_spread(rolls.base, k.spell_range[spell.ordinal()]),
            ),
            scaled_fine(s.effective_power(lane), k.sp_multiplier[spell.ordinal()]),
        ),
{
    let sp = spell.ordinal();
    let x = accrued(
        accrued(k.spell_base[sp], spec_roll_spread(rolls.base, k.spell_range[sp])),
        scaled_fine(s.effective_power(lane), k.sp_multiplier[sp]),
    );
    lemma_scaled_by_one(1_000_000);
    lemma_scaled_by_one(x);
    assert(scaled(s.meta.coe, k.damage_multiplier[sp]) == 1_000_000);
}

/// Whether `after` has the setup of `before`: the same mages, proc sources
/// and fixed values, and the same length.
pub open spec fn same_setup(after: StateView, before: StateView) -> bool {
    &&& after.meta == before.meta
    &&& after.lanes.len() == before.lanes.len()
    &&& after.boss.nightfall.len() == before.boss.nightfall.len()
    &&& after.global.duration == before.global.duration
    &&& after.log_enabled == before.log_enabled
}

proof fn lemma_cast_end_keeps_the_setup(s: StateView, k: Constants)
    ensures
        same_setup(s.cast_finished(k), s),
{
    if s.lanes.len() > 0 {
        lemma_first_soonest(s.cast_timers(), s.lanes.len() as int);
    }
}

proof fn lemma_landing_keeps_the_setup(s: StateView, k: Constants, rolls: Rolls)
    ensures
        same_setup(s.landed(k, rolls), s),
{
    if s.lanes.len() > 0 {
        lemma_first_soonest(s.landing_timers(), s.lanes.len() as int);
        let lane = s.next_spell_lane();
        lemma_first_soonest(s.lanes[lane].slots(), 4);
        let slot = s.lanes[lane].spec_next_slot();
        let mid = s.elapsed(s.lanes[lane].spell_timer[slot]->In_0 as int);
        assert(same_setup(mid, s));
        if mid.in_progress() {
            if crate::units::spec_roll_below(rolls.hit, mid.lanes[lane].hit_chance) {
                assert(same_setup(mid.struck(k, lane, slot, rolls), mid));
            } else {
                assert(same_setup(mid.missed(lane, slot), mid));
            }
        }
    }
}

proof fn lemma_ticks_keep_the_setup(s: StateView, roll: u64)
    requires
        s.proc_due() is In ==> s.boss.nightfall.len() > 0,
    ensures
        same_setup(s.ignite_ticked(roll), s),
        same_setup(s.proc_checked(roll), s),
{
    if s.boss.nightfall.len() > 0 {
        lemma_first_soonest(s.proc_timers(), s.boss.nightfall.len() as int);
    }
}

proof fn lemma_burn_keeps_the_setup(s: StateView)
    ensures
        same_setup(s.pyro_ticked(), s),
{
    if s.lanes.len() > 0 {
        lemma_first_soonest(s.pyro_timers(), s.lanes.len() as int);
    }
}

/// A step changes nothing of the setup of a trial.
pub proof fn lemma_step_keeps_the_setup(s: StateView, k: Constants, rolls: Rolls)
    ensures
        same_setup(s.stepped(k, rolls), s),
{
    match s.next_event() {
        None => {},
        Some(Event::CastEnd) => {
            lemma_cast_end_keeps_the_setup(s, k);
        },
        Some(Event::Landing) => {
            lemma_landing_keeps_the_setup(s, k, rolls);
        },
        Some(Event::IgniteTick) => {
            if s.proc_due() is In {
                lemma_soonest_finite(s.proc_timers(), s.boss.nightfall.len() as int);
            }
            lemma_ticks_keep_the_setup(s, rolls.resist);
        },
        Some(Event::Proc) => {
            lemma_soonest_finite(s.proc_timers(), s.boss.nightfall.len() as int);
            lemma_ticks_keep_the_setup(s, rolls.nightfall);
        },
        Some(Event::PyroTick) => {
            lemma_burn_keeps_the_setup(s);
        },
    }
}

/// The chance of a crit is a chance: never more than certain, whatever
/// Combustion and talents add.
pub proof fn lemma_crit_chance_is_a_chance(l: MageLane, k: Constants, spell: Spell)
    ensures
        l.crit_chance_for(k, spell) <= 1_000_000,
{
}

/// Debuffs stay within their stacks: Ignite and Scorch's debuff never hold
/// more than five, once they hold no more than five.
pub proof fn lemma_stacks_stay_capped(b: BossView, clock: i64, imp: Impact)
    requires
        b.ignite_count <= IGNITE_STACK,
        b.scorch_count <= SCORCH_STACK,
    ensures
        b.struck(clock, imp).ignite_count <= IGNITE_STACK,
        b.struck(clock, imp).scorch_count <= SCORCH_STACK,
{
}

/// A trinket that is used keeps every other trinket off for as long as it
/// runs: none of them comes off cooldown before it has run out.
pub proof fn lemma_trinket_locks_the_others(l: MageLane, b: Buff, other: int)
    requires
        0 <= other < 4,
        other != b.ordinal(),
    ensures
        Timer::In(BUFF_DURATION[b.ordinal()]).spec_at_most(l.trinket_used(b).buff_cooldown[other]),
        l.trinket_used(b).buff_timer[other] == l.buff_timer[other],
{
}

/// Combustion goes on cooldown only when a fire crit spends its last
/// charge, and only a fire crit spends a charge.
pub proof fn lemma_combustion_cools_down_after_its_last_charge(l: MageLane, slot: int, imp: Impact)
    ensures
        l.struck(slot, imp).comb_cooldown != l.comb_cooldown ==> imp.fire && imp.crit && l.comb_left
            == 1,
        l.struck(slot, imp).comb_left != l.comb_left ==> imp.fire && imp.crit && l.struck(
            slot,
            imp,
        ).comb_left + 1 == l.comb_left,
        imp.fire && imp.crit && l.comb_left == 1 ==> l.struck(slot, imp).comb_cooldown == Timer::In(
            COMBUSTION_COOLDOWN,
        ),
{
}

/// A spell cast while four are in flight is lost, and nothing else about
/// the mage changes.
pub proof fn lemma_a_full_queue_drops_the_spell(l: MageLane, spell: Spell, travel: i64)
    requires
        forall|j: int| 0 <= j < 4 ==> #[trigger] l.spell_timer[j] is In,
    ensures
        l.queued(spell, travel) == l,
{
}

} // verus!
