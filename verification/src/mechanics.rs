//! The rules of the simulation.
//!
//! Each rule is a function on [`StateView`] that says what the state becomes;
//! the method of [`State`] of the same purpose carries it out and is proved
//! to arrive at exactly that state.

use vstd::prelude::*;
use rand::RngCore;
use rand_chacha::ChaCha8Rng;
use crate::constants::{
    Action, Buff, Constants, Spell, BERSERK_COOLDOWN, BERSERK_DURATION, BUFF_COOLDOWN, BUFF_DAMAGE,
    BUFF_DURATION, BUFF_PER_TICK, COE_MULTIPLIER, COMBUSTIONS, COMBUSTION_COOLDOWN, DECISION_POINT,
    DMF_BUFF, NIGHTFALL_DURATION, NIGHTFALL_PROC_PROB,
    DRAGONLING_BUFF, FIRE_BLAST_COOLDOWN, GLOBAL_COOLDOWN, IGNITE_STACK, IGNITE_TICK, IGNITE_TIME,
    MAX_DEBUFF_HISTORY, MQG_HASTE, NIGHTFALL_VULN, PER_COMBUSTION, PI_COOLDOWN, PI_DURATION,
    POWER_INFUSION, PYRO_COUNT, PYRO_TIMER, RES_AMOUNT, RES_THRESH, SCORCH_MULTIPLIER, SCORCH_STACK,
    SCORCH_TIME, SR_BUFF, TS_BUFF, UDC_MOD,
};
use crate::orchestration::{DamageAccumulator, LogEntry, LogType, SpellResult};
use crate::schedule::{first_soonest, lemma_first_soonest, lemma_soonest_finite};
use crate::state::{lists_lane, Boss, BossView, Global, MageLane, State, StateView, Totals};
use crate::units::{
    accrue, accrued, clamp_amount, lemma_scaled_grows, roll_below, roll_spread, scale, scale_fine,
    scale_if, scaled, scaled_fine, scaled_if, spec_roll_below, spec_roll_spread, Timer, HORIZON,
};

verus! {

/// `row` with the countdown at `j` replaced.
pub open spec fn timers_with(row: [Timer; 4], j: int, t: Timer) -> [Timer; 4] {
    [
        if j == 0 { t } else { row[0] },
        if j == 1 { t } else { row[1] },
        if j == 2 { t } else { row[2] },
        if j == 3 { t } else { row[3] },
    ]
}

/// `row` with the spell at `j` replaced.
pub open spec fn spells_with(row: [Spell; 4], j: int, s: Spell) -> [Spell; 4] {
    [
        if j == 0 { s } else { row[0] },
        if j == 1 { s } else { row[1] },
        if j == 2 { s } else { row[2] },
        if j == 3 { s } else { row[3] },
    ]
}

/// `row` with every countdown but the one at `j` raised to at least `floor`.
pub open spec fn timers_locked(row: [Timer; 4], j: int, floor: Timer) -> [Timer; 4] {
    [
        if j == 0 { row[0] } else { row[0].spec_later(floor) },
        if j == 1 { row[1] } else { row[1].spec_later(floor) },
        if j == 2 { row[2] } else { row[2].spec_later(floor) },
        if j == 3 { row[3] } else { row[3].spec_later(floor) },
    ]
}

/// Cast speed of a mage, in parts per million of the unhasted speed.
pub open spec fn haste_of(mqg: bool, berserking: bool, berserk: u64) -> u64 {
    let gem: u64 = if mqg { (1_000_000 + MQG_HASTE) as u64 } else { 1_000_000 };
    if berserking {
        scaled(gem, accrued(1_000_000, berserk))
    } else {
        gem
    }
}

/// A cast time shortened by haste; a cast time of zero or less stays zero.
pub open spec fn hasted(base: i64, haste: u64) -> int {
    if base <= 0 || haste == 0 {
        0
    } else {
        base as int * 1_000_000 / haste as int
    }
}

/// Haste never slows a mage down.
pub proof fn lemma_haste_of_bounds(mqg: bool, berserking: bool, berserk: u64)
    ensures
        haste_of(mqg, berserking, berserk) >= 1_000_000,
{
    let gem: u64 = if mqg { (1_000_000 + MQG_HASTE) as u64 } else { 1_000_000 };
    if berserking {
        lemma_scaled_grows(gem, accrued(1_000_000, berserk));
    }
}

/// A hasted cast time is not negative and no longer than the cast time.
pub proof fn lemma_hasted_bounds(base: i64, haste: u64)
    requires
        haste >= 1_000_000,
    ensures
        0 <= hasted(base, haste),
        base > 0 ==> hasted(base, haste) <= base,
{
    if base > 0 {
        let b = base as int;
        let h = haste as int;
        let p = b * 1_000_000;
        assert(p <= b * h) by (nonlinear_arith)
            requires
                b >= 0,
                h >= 1_000_000,
                p == b * 1_000_000,
        ;
        assert(0 <= p) by (nonlinear_arith)
            requires
                b >= 0,
                p == b * 1_000_000,
        ;
        vstd::arithmetic::div_mod::lemma_div_is_ordered(p, b * h, h);
        vstd::arithmetic::div_mod::lemma_div_by_multiple(b, h);
        vstd::arithmetic::div_mod::lemma_div_pos_is_pos(p, h);
    }
}

impl MageLane {
    /// Whether Berserking shortens the cast of `action`: it is running, and
    /// the action is a spell other than Scorch.
    pub open spec fn spec_berserks(self, action: Action) -> bool {
        action.spec_triggers_gcd() && action != Action::Scorch && self.berserk_timer.spec_is_active()
    }

    /// Whether Berserking shortens the cast of `action`.
    #[verifier::when_used_as_spec(spec_berserks)]
    pub fn berserks(self, action: Action) -> (r: bool)
        ensures
            r == self.spec_berserks(action),
    {
        action.triggers_gcd() && action != Action::Scorch && self.berserk_timer.is_active()
    }

    /// Time the mage spends casting `action`, reaction delay not counted.
    /// Haste shortens every spell but Scorch, and none below the global
    /// cooldown.
    pub open spec fn cast_span(self, action: Action, k: Constants, berserk: u64) -> int {
        let base = k.cast_time[action.spec_spell().ordinal()];
        if action == Action::Scorch {
            base as int
        } else {
            let quick = hasted(
                base,
                haste_of(
                    self.buff_timer[Buff::Mqg.ordinal()].spec_is_active(),
                    self.berserk_timer.spec_is_active(),
                    berserk,
                ),
            );
            if quick >= GLOBAL_COOLDOWN {
                quick
            } else {
                GLOBAL_COOLDOWN as int
            }
        }
    }

    /// The lane once the mage starts on `action` after `delay` ticks of
    /// reaction time.
    pub open spec fn starting(self, action: Action, delay: int, k: Constants, berserk: u64) -> MageLane {
        if action == Action::Gcd {
            MageLane { cast_type: action, cast_timer: Timer::In(GLOBAL_COOLDOWN), ..self }
        } else if action.spec_triggers_gcd() {
            let cast = self.cast_span(action, k, berserk);
            MageLane {
                cast_type: action,
                cast_timer: Timer::In((delay + cast) as i64),
                gcd_timer: Timer::In(
                    if GLOBAL_COOLDOWN - cast > 0 {
                        (GLOBAL_COOLDOWN - cast) as i64
                    } else {
                        0
                    },
                ),
                ..self
            }
        } else {
            MageLane { cast_type: action, cast_timer: Timer::In(delay as i64), gcd_timer: Timer::In(0), ..self }
        }
    }

    /// The lane with `spell` put in flight, if a slot is free; the spell is
    /// lost if none is.
    pub open spec fn queued(self, spell: Spell, travel: i64) -> MageLane {
        match self.spec_free_slot() {
            Some(slot) => MageLane {
                spell_type: spells_with(self.spell_type, slot, spell),
                spell_timer: timers_with(self.spell_timer, slot, Timer::In(travel)),
                ..self
            },
            None => self,
        }
    }

    /// The lane once the trinket `b` has been used: it runs, goes on
    /// cooldown, and keeps every other trinket locked for as long as it runs.
    pub open spec fn trinket_used(self, b: Buff) -> MageLane {
        let i = b.ordinal();
        MageLane {
            buff_timer: timers_with(self.buff_timer, i, Timer::In(BUFF_DURATION[i])),
            buff_cooldown: timers_locked(
                timers_with(self.buff_cooldown, i, Timer::In(BUFF_COOLDOWN[i])),
                i,
                Timer::In(BUFF_DURATION[i]),
            ),
            buff_ticks: [
                if i == 0 { 0 } else { self.buff_ticks[0] },
                if i == 1 { 0 } else { self.buff_ticks[1] },
                if i == 2 { 0 } else { self.buff_ticks[2] },
            ],
            ..self
        }
    }

    /// The lane once the cast of `action` has ended, before the mage is
    /// given anything new to do.
    pub open spec fn completed(self, action: Action, k: Constants) -> MageLane {
        match action {
            Action::Combustion => MageLane {
                comb_left: COMBUSTIONS,
                comb_stack: 1,
                comb_cooldown: Timer::Never,
                ..self
            },
            Action::Sapp => self.trinket_used(Buff::Sapp),
            Action::Toep => self.trinket_used(Buff::Toep),
            Action::Zhc => self.trinket_used(Buff::Zhc),
            Action::Mqg => self.trinket_used(Buff::Mqg),
            Action::PowerInfusion => {
                let slot = first_soonest(self.pi_cooldowns(), 4);
                MageLane {
                    pi_timer: timers_with(self.pi_timer, slot, Timer::In(PI_DURATION)),
                    pi_cooldown: timers_with(self.pi_cooldown, slot, Timer::In(PI_COOLDOWN)),
                    ..self
                }
            },
            Action::Berserking => MageLane {
                berserk_timer: Timer::In(BERSERK_DURATION),
                berserk_cooldown: Timer::In(BERSERK_COOLDOWN),
                ..self
            },
            Action::Gcd => self,
            Action::FireBlast => MageLane {
                fb_cooldown: Timer::In(FIRE_BLAST_COOLDOWN),
                ..self.queued(Spell::FireBlast, k.spell_travel[Spell::FireBlast.ordinal()])
            },
            _ => self.queued(action.spec_spell(), k.spell_travel[action.spec_spell().ordinal()]),
        }
    }

    /// The lane once its cast is over: it either waits out what is left of
    /// the global cooldown, or counts the cast and is free.
    pub open spec fn released(self) -> MageLane {
        if self.gcd_timer.spec_is_active() {
            MageLane {
                cast_type: Action::Gcd,
                cast_timer: self.gcd_timer,
                gcd_timer: Timer::In(0),
                ..self
            }
        } else {
            MageLane {
                cast_number: if self.cast_number < i32::MAX {
                    (self.cast_number + 1) as i32
                } else {
                    self.cast_number
                },
                ..self
            }
        }
    }

    fn cast_span_of(&self, action: Action, k: &Constants, berserk: u64) -> (r: i64)
        requires
            k.wf(),
        ensures
            r == self.cast_span(action, *k, berserk),
            action.spec_triggers_gcd() ==> 0 <= r <= HORIZON,
    {
        let base = k.cast_time[action.spell().index()];
        if action == Action::Scorch {
            base
        } else {
            let mqg = self.buff_timer[Buff::Mqg.index()].is_active();
            let berserking = self.berserk_timer.is_active();
            let gem: u64 = if mqg { 1_000_000 + MQG_HASTE } else { 1_000_000 };
            let haste = if berserking { scale(gem, accrue(1_000_000, berserk)) } else { gem };
            proof {
                lemma_haste_of_bounds(mqg, berserking, berserk);
                lemma_hasted_bounds(base, haste);
            }
            let quick: i64 = if base <= 0 || haste == 0 {
                0
            } else {
                ((base as i128) * 1_000_000 / (haste as i128)) as i64
            };
            if quick >= GLOBAL_COOLDOWN {
                quick
            } else {
                GLOBAL_COOLDOWN
            }
        }
    }

    fn queue(&mut self, spell: Spell, travel: i64)
        ensures
            *final(self) == old(self).queued(spell, travel),
    {
        let mut slot: usize = 4;
        if self.spell_timer[0].is_never() {
            slot = 0;
        } else if self.spell_timer[1].is_never() {
            slot = 1;
        } else if self.spell_timer[2].is_never() {
            slot = 2;
        } else if self.spell_timer[3].is_never() {
            slot = 3;
        }
        if slot < 4 {
            self.spell_type[slot] = spell;
            self.spell_timer[slot] = Timer::In(travel);
            assert(self.spell_type =~= spells_with(old(self).spell_type, slot as int, spell));
            assert(self.spell_timer =~= timers_with(
                old(self).spell_timer,
                slot as int,
                Timer::In(travel),
            ));
        }
    }

    fn use_trinket(&mut self, b: Buff)
        ensures
            *final(self) == old(self).trinket_used(b),
    {
        let i = b.index();
        let floor = Timer::In(BUFF_DURATION[i]);
        self.buff_timer[i] = floor;
        self.buff_cooldown[i] = Timer::In(BUFF_COOLDOWN[i]);
        if i < 3 {
            self.buff_ticks[i] = 0;
        }
        let mut j: usize = 0;
        let ghost start = *self;
        while j < 4
            invariant
                j <= 4,
                i < 4,
                floor == Timer::In(BUFF_DURATION[i as int]),
                *self == (MageLane { buff_cooldown: self.buff_cooldown, ..start }),
                forall|x: int|
                    0 <= x < j ==> self.buff_cooldown[x] == (if x == i {
                        start.buff_cooldown[x]
                    } else {
                        start.buff_cooldown[x].spec_later(floor)
                    }),
                forall|x: int| j <= x < 4 ==> self.buff_cooldown[x] == start.buff_cooldown[x],
            decreases 4 - j,
        {
            if j != i {
                self.buff_cooldown[j] = self.buff_cooldown[j].later(floor);
            }
            j += 1;
        }
        proof {
            let want = old(self).trinket_used(b);
            assert(self.buff_timer =~= want.buff_timer);
            assert(self.buff_cooldown =~= want.buff_cooldown);
            assert(self.buff_ticks =~= want.buff_ticks);
        }
    }

    fn complete(&mut self, action: Action, k: &Constants)
        ensures
            *final(self) == old(self).completed(action, *k),
    {
        match action {
            Action::Combustion => {
                self.comb_left = COMBUSTIONS;
                self.comb_stack = 1;
                self.comb_cooldown = Timer::Never;
            },
            Action::Sapp => {
                self.use_trinket(Buff::Sapp);
            },
            Action::Toep => {
                self.use_trinket(Buff::Toep);
            },
            Action::Zhc => {
                self.use_trinket(Buff::Zhc);
            },
            Action::Mqg => {
                self.use_trinket(Buff::Mqg);
            },
            Action::PowerInfusion => {
                let slot = MageLane::earliest_of(&self.pi_cooldown).0;
                self.pi_timer[slot] = Timer::In(PI_DURATION);
                self.pi_cooldown[slot] = Timer::In(PI_COOLDOWN);
                proof {
                    let want = old(self).completed(action, *k);
                    assert(self.pi_timer =~= want.pi_timer);
                    assert(self.pi_cooldown =~= want.pi_cooldown);
                }
            },
            Action::Berserking => {
                self.berserk_timer = Timer::In(BERSERK_DURATION);
                self.berserk_cooldown = Timer::In(BERSERK_COOLDOWN);
            },
            Action::Gcd => {},
            Action::FireBlast => {
                self.queue(Spell::FireBlast, k.spell_travel[Spell::FireBlast.index()]);
                self.fb_cooldown = Timer::In(FIRE_BLAST_COOLDOWN);
            },
            _ => {
                let spell = action.spell();
                self.queue(spell, k.spell_travel[spell.index()]);
            },
        }
    }

    fn release(&mut self)
        ensures
            *final(self) == old(self).released(),
    {
        if self.gcd_timer.is_active() {
            self.cast_type = Action::Gcd;
            self.cast_timer = self.gcd_timer;
            self.gcd_timer = Timer::In(0);
        } else if self.cast_number < i32::MAX {
            self.cast_number = self.cast_number + 1;
        }
    }
}

/// The five kinds of event, in the order in which simultaneous events are
/// handled.
#[derive(Debug, Clone, Copy, PartialEq, Eq, Structural)]
pub enum Event {
    /// A mage's cast ends.
    CastEnd,
    /// A spell in flight reaches the target.
    Landing,
    /// Ignite ticks.
    IgniteTick,
    /// A Nightfall wielder's proc is checked.
    Proc,
    /// A Pyroblast burn ticks.
    PyroTick,
}

impl Event {
    /// Place in the order of handling; lower comes first.
    pub open spec fn rank(self) -> int {
        match self {
            Event::CastEnd => 0,
            Event::Landing => 1,
            Event::IgniteTick => 2,
            Event::Proc => 3,
            Event::PyroTick => 4,
        }
    }
}

impl MageLane {
    /// Ending a cast keeps a lane well formed.
    pub proof fn lemma_completed_wf(self, action: Action, k: Constants, clock: int)
        requires
            self.wf(clock),
            k.wf(),
            0 <= clock <= 3 * HORIZON,
        ensures
            self.completed(action, k).wf(clock),
            self.completed(action, k).released().wf(clock),
            self.completed(action, k).pyro_timer == self.pyro_timer,
            self.completed(action, k).cast_timer == self.cast_timer,
    {
        let c = self.completed(action, k);
        assert(forall|j: int| 0 <= j < 4 ==> (#[trigger] self.spell_timer[j]).within(clock));
        assert(forall|j: int| 0 <= j < 4 ==> (#[trigger] self.buff_timer[j]).within(clock));
        assert(forall|j: int| 0 <= j < 4 ==> (#[trigger] self.buff_cooldown[j]).within(clock));
        assert(forall|j: int| 0 <= j < 4 ==> (#[trigger] self.pi_timer[j]).within(clock));
        assert(forall|j: int| 0 <= j < 4 ==> (#[trigger] self.pi_cooldown[j]).within(clock));
        assert(forall|i: int| 0 <= i < 6 ==> 0 <= #[trigger] k.spell_travel[i] <= HORIZON);
        assert(0 <= k.spell_travel[action.spec_spell().ordinal()] <= HORIZON);
        assert(0 <= k.spell_travel[Spell::FireBlast.ordinal()] <= HORIZON);
        if action == Action::PowerInfusion {
            lemma_first_soonest(self.pi_cooldowns(), 4);
        }
        assert(c.wf(clock));
    }
}

impl StateView {
    /// Time to the next event of kind `e`.
    pub open spec fn due(self, e: Event) -> Timer {
        match e {
            Event::CastEnd => self.cast_due(),
            Event::Landing => self.landing_due(),
            Event::IgniteTick => self.tick_due(),
            Event::Proc => self.proc_due(),
            Event::PyroTick => self.pyro_due(),
        }
    }

    /// An event of kind `e` is scheduled and nothing is due before it.
    pub open spec fn fires(self, e: Event) -> bool {
        self.due(e) is In && self.due(e).spec_at_most(self.next_due())
    }

    /// The kind of event handled next: the earliest one, and among several
    /// due at the same tick the one that comes first in the order of
    /// [`Event::rank`].  None when nothing is scheduled.
    pub open spec fn next_event(self) -> Option<Event> {
        let c = self.cast_due();
        let s = self.landing_due();
        let t = self.tick_due();
        let p = self.proc_due();
        let y = self.pyro_due();
        if c is Never && s is Never && t is Never && p is Never && y is Never {
            None
        } else if c.spec_at_most(s) && c.spec_at_most(t) && c.spec_at_most(p) && c.spec_at_most(y) {
            Some(Event::CastEnd)
        } else if s.spec_at_most(t) && s.spec_at_most(p) && s.spec_at_most(y) {
            Some(Event::Landing)
        } else if t.spec_at_most(p) && t.spec_at_most(y) {
            Some(Event::IgniteTick)
        } else if p.spec_at_most(y) {
            Some(Event::Proc)
        } else {
            Some(Event::PyroTick)
        }
    }

    pub open spec fn logged(self, entry: LogEntry) -> StateView {
        if self.log_enabled {
            self.with_log(entry)
        } else {
            self
        }
    }

    /// The state once mage `lane` has been told to do `action` after `delay`
    /// ticks of reaction time.  The decision gate closes.
    pub open spec fn action_started(self, lane: int, action: Action, delay: int, k: Constants) -> StateView {
        let share = if self.lanes[lane].spec_berserks(action) {
            self.meta.berserk_slots[lane]
        } else {
            0
        };
        let l = self.lanes[lane].starting(action, delay, k, share);
        let s = self.with_lane(lane, l);
        let s = s.logged(s.cast_entry(LogType::CastStart, lane, action));
        StateView { global: Global { decision_gate: false, ..s.global }, ..s }
    }

    /// The state once the earliest cast has ended.  The clock moves to the
    /// end of the cast; a spell goes into flight or an instant effect
    /// applies; then the mage either waits out the rest of the global
    /// cooldown or the decision gate opens.  Nothing changes where there is
    /// no mage.
    pub open spec fn cast_finished(self, k: Constants) -> StateView {
        if self.lanes.len() == 0 {
            self
        } else {
            self.cast_resolved(k)
        }
    }

    /// The state once the earliest cast has ended, where there is a mage.
    pub open spec fn cast_resolved(self, k: Constants) -> StateView {
        let lane = self.next_cast_lane();
        let dt = self.lanes[lane].cast_timer->In_0;
        let s = self.elapsed(dt as int);
        let action = s.lanes[lane].cast_type;
        let done = s.lanes[lane].completed(action, k);
        let s = StateView {
            lanes: s.lanes.update(lane, done.released()),
            global: Global {
                decision_gate: s.global.decision_gate || !done.gcd_timer.spec_is_active(),
                ..s.global
            },
            ..s
        };
        s.logged(s.cast_entry(LogType::CastSuccess, lane, action))
    }
}

impl State {
    /// Appends the record of a cast by mage `unit_id` to the log.
    pub fn log_cast(&mut self, log_type: LogType, unit_id: usize, spell: Action)
        requires
            unit_id < old(self)@.lanes.len(),
        ensures
            final(self)@ == old(self)@.with_log(
                old(self)@.cast_entry(log_type, unit_id as int, spell),
            ),
    {
        let entry = LogEntry {
            log_type,
            lane: Some(unit_id),
            action: Some(spell),
            spell: None,
            t: self.global.running_time,
            totals: self.totals,
            value: 0,
            value2: 0,
            spell_result: SpellResult::Unset,
            mage: Some(self.lanes[unit_id]),
            boss: self.boss.glance(),
            dragonling: self.boss.dragonling_active(self.global.running_time),
        };
        self.log.push(entry);
    }

    /// Appends the record of an Ignite tick to the log.
    pub fn log_tick(&mut self, value: u64, partial: u64)
        ensures
            final(self)@ == old(self)@.with_log(old(self)@.tick_entry(value, partial)),
    {
        let entry = LogEntry {
            log_type: LogType::IgniteTick,
            lane: None,
            action: None,
            spell: None,
            t: self.global.running_time,
            totals: self.totals,
            value,
            value2: scale(value, if partial < 1_000_000 { 1_000_000 - partial } else { 0 }),
            spell_result: SpellResult::Hit,
            mage: None,
            boss: self.boss.glance(),
            dragonling: self.boss.dragonling_active(self.global.running_time),
        };
        self.log.push(entry);
    }

    /// Appends the record of a spell that reached the target to the log.
    pub fn log_spell_impact(
        &mut self,
        unit_id: usize,
        spell: Spell,
        value: u64,
        partial: u64,
        result: SpellResult,
    )
        requires
            unit_id < old(self)@.lanes.len(),
        ensures
            final(self)@ == old(self)@.with_log(
                old(self)@.impact_entry(unit_id as int, spell, value, partial, result),
            ),
    {
        let entry = LogEntry {
            log_type: LogType::SpellImpact,
            lane: Some(unit_id),
            action: None,
            spell: Some(spell),
            t: self.global.running_time,
            totals: self.totals,
            value,
            value2: scale(value, if partial < 1_000_000 { 1_000_000 - partial } else { 0 }),
            spell_result: result,
            mage: Some(self.lanes[unit_id]),
            boss: self.boss.glance(),
            dragonling: self.boss.dragonling_active(self.global.running_time),
        };
        self.log.push(entry);
    }

    /// Starts `action` on mage `lane` after `continuing_delay` ticks of
    /// reaction time and closes the decision gate.  The mage's Berserking
    /// share is looked up only where it shortens the cast, and has to be
    /// there then.
    pub fn start_action(&mut self, lane: usize, action: Action, continuing_delay: i64, k: &Constants)
        requires
            old(self).wf(),
            k.wf(),
            lane < old(self)@.lanes.len(),
            0 <= continuing_delay <= HORIZON,
            old(self)@.lanes[lane as int].spec_berserks(action) ==> lane
                < old(self)@.meta.berserk_slots.len(),
        ensures
            final(self)@ == old(self)@.action_started(lane as int, action, continuing_delay as int, *k),
            final(self).wf(),
    {
        let ghost pre = self@;
        let mut l = self.lanes[lane];
        let berserk = if l.berserks(action) { self.meta.berserk_slots[lane] } else { 0 };
        assert(l.wf(pre.clock()));
        l.cast_type = action;
        if action == Action::Gcd {
            l.cast_timer = Timer::In(GLOBAL_COOLDOWN);
        } else if action.triggers_gcd() {
            let cast = l.cast_span_of(action, k, berserk);
            l.cast_timer = Timer::In(continuing_delay + cast);
            l.gcd_timer = Timer::In(if GLOBAL_COOLDOWN - cast > 0 { GLOBAL_COOLDOWN - cast } else { 0 });
        } else {
            l.cast_timer = Timer::In(continuing_delay);
            l.gcd_timer = Timer::In(0);
        }
        assert(l == pre.lanes[lane as int].starting(action, continuing_delay as int, *k, berserk));
        assert(l.wf(pre.clock()));
        self.lanes[lane] = l;
        if self.log_enabled {
            self.log_cast(LogType::CastStart, lane, action);
        }
        self.set_decision_gate(false);
        proof {
            let post = self@;
            assert forall|i: int| 0 <= i < post.lanes.len() implies (#[trigger] post.lanes[i]).wf(post.clock()) by {
                if i != lane {
                    assert(pre.lanes[i].wf(pre.clock()));
                }
            }
        }
    }

    /// Handles the end of the earliest cast.
    pub fn finish_cast(&mut self, k: &Constants)
        requires
            old(self).wf(),
            k.wf(),
            old(self)@.lanes.len() == 0 || (old(self)@.in_progress() && old(self)@.fires(
                Event::CastEnd,
            )),
        ensures
            final(self)@ == old(self)@.cast_finished(*k),
            final(self).wf(),
    {
        let ghost pre = self@;
        if self.lanes.len() == 0 {
            return ;
        }
        proof {
            lemma_soonest_finite(pre.cast_timers(), pre.lanes.len() as int);
            pre.lemma_wf_is_bounded();
        }
        let (lane, due) = self.earliest_cast();
        let dt = match due {
            Timer::In(t) => t,
            Timer::Never => 0,
        };
        proof {
            assert(pre.lanes[lane as int].wf(pre.clock()));
            pre.lemma_elapsed_keeps_wf(dt as int);
        }
        self.subtime(dt);
        let ghost mid = self@;
        let mut l = self.lanes[lane];
        let action = l.cast_type;
        proof {
            assert(mid.lanes[lane as int].wf(mid.clock()));
            l.lemma_completed_wf(action, *k, mid.clock());
        }
        l.complete(action, k);
        let waits = l.gcd_timer.is_active();
        l.release();
        self.lanes[lane] = l;
        if !waits {
            self.global.decision_gate = true;
        }
        proof {
            let post = self@;
            assert forall|i: int| 0 <= i < post.lanes.len() implies (#[trigger] post.lanes[i]).wf(post.clock()) by {
                if i != lane {
                    assert(mid.lanes[i].wf(mid.clock()));
                }
            }
        }
        if self.log_enabled {
            self.log_cast(LogType::CastSuccess, lane, action);
        }
    }
}

/// The raw draws one event may consume, each named by its use.  A draw that
/// the event does not need is ignored.
#[derive(Debug, Clone, Copy)]
pub struct Rolls {
    /// Decides whether a spell hits.
    pub hit: u64,
    /// Places the damage within the spell's damage range.
    pub base: u64,
    /// Picks the partial-resist tier.
    pub resist: u64,
    /// Decides whether the spell crits.
    pub crit: u64,
    /// Decides whether Scorch's debuff takes hold.
    pub debuff: u64,
    /// Decides whether Nightfall procs.
    pub nightfall: u64,
}

/// The partial-resist tier a roll falls in, from 0 (nothing resisted) to 3.
pub open spec fn resist_tier(roll: u64) -> int {
    if spec_roll_below(roll, RES_THRESH[1]) {
        0
    } else if spec_roll_below(roll, RES_THRESH[2]) {
        1
    } else if spec_roll_below(roll, RES_THRESH[3]) {
        2
    } else {
        3
    }
}

/// The share of the damage that gets through, for a roll.
pub open spec fn spec_retained(roll: u64) -> u64 {
    RES_AMOUNT[resist_tier(roll)]
}

/// The share of the damage that gets through, for a roll.
#[verifier::when_used_as_spec(spec_retained)]
pub fn retained(roll: u64) -> (r: u64)
    ensures
        r == spec_retained(roll),
        r <= 1_000_000,
{
    if roll_below(roll, RES_THRESH[1]) {
        RES_AMOUNT[0]
    } else if roll_below(roll, RES_THRESH[2]) {
        RES_AMOUNT[1]
    } else if roll_below(roll, RES_THRESH[3]) {
        RES_AMOUNT[2]
    } else {
        RES_AMOUNT[3]
    }
}

/// A refresh history with one more reading; the oldest is dropped once more
/// than [`MAX_DEBUFF_HISTORY`] are kept.
pub open spec fn remembered(history: Seq<i64>, clock: i64) -> Seq<i64> {
    if history.len() + 1 > MAX_DEBUFF_HISTORY {
        history.push(clock).remove(0)
    } else {
        history.push(clock)
    }
}

fn remember(history: &mut Vec<i64>, clock: i64)
    ensures
        final(history)@ == remembered(old(history)@, clock),
{
    history.push(clock);
    if history.len() > MAX_DEBUFF_HISTORY {
        history.remove(0);
    }
}

/// A stack count raised by one, up to `cap`.
pub open spec fn stacked(count: u8, cap: u8) -> u8 {
    if count < cap {
        (count + 1) as u8
    } else {
        cap
    }
}

impl BossView {
    /// The target after a fire crit that adds `add` to Ignite at clock
    /// reading `clock`.  An Ignite that has run out starts over with the
    /// multiplier `snapshot`; a running one is refreshed and grows until it
    /// holds [`IGNITE_STACK`] crits.
    pub open spec fn ignited(self, clock: i64, add: u64, snapshot: u64) -> BossView {
        let running = self.ignite_timer.spec_is_active();
        let count: u8 = if running { self.ignite_count } else { 0 };
        let value: u64 = if running { self.ignite_value } else { 0 };
        BossView {
            ignite_timer: Timer::In((IGNITE_TIME + 1) as i64),
            ignite_count: if count < IGNITE_STACK { stacked(count, IGNITE_STACK) } else { count },
            ignite_value: if count < IGNITE_STACK { accrued(value, add) } else { value },
            ignite_multiplier: if count == 0 { snapshot } else { self.ignite_multiplier },
            tick_timer: if count == 0 || !self.tick_timer.spec_at_most(Timer::In(IGNITE_TICK)) {
                Timer::In(IGNITE_TICK)
            } else {
                self.tick_timer
            },
            ignite_refresh_history: if running {
                remembered(self.ignite_refresh_history, clock)
            } else {
                self.ignite_refresh_history
            },
            ..self
        }
    }

    /// The target after a spell has hit at clock reading `clock`.  A Scorch
    /// debuff that has run out loses its stacks; where `applies` holds, the
    /// debuff is refreshed and gains a stack, up to [`SCORCH_STACK`].
    pub open spec fn scorched(self, clock: i64, applies: bool) -> BossView {
        let running = self.scorch_timer.spec_is_active();
        let count: u8 = if running { self.scorch_count } else { 0 };
        if applies {
            BossView {
                scorch_timer: Timer::In(SCORCH_TIME),
                scorch_count: stacked(count, SCORCH_STACK),
                scorch_refresh_history: if running {
                    remembered(self.scorch_refresh_history, clock)
                } else {
                    self.scorch_refresh_history
                },
                ..self
            }
        } else {
            BossView { scorch_count: count, ..self }
        }
    }

    /// The multiplier the target's debuffs put on fire damage that is
    /// already burning: the Scorch stacks and the Nightfall window.
    pub open spec fn burn_scaled(self, x: u64) -> u64 {
        scaled_if(
            self.spell_vulnerability.spec_is_active(),
            scaled_if(
                self.scorch_timer.spec_is_active(),
                x,
                (1_000_000 + SCORCH_MULTIPLIER * self.scorch_count) as u64,
            ),
            (1_000_000 + NIGHTFALL_VULN) as u64,
        )
    }
}

impl Boss {
    fn ignite(&mut self, clock: i64, add: u64, snapshot: u64)
        ensures
            final(self)@ == old(self)@.ignited(clock, add, snapshot),
    {
        let running = self.ignite_timer.is_active();
        if !running {
            self.ignite_count = 0;
            self.ignite_value = 0;
        }
        if !self.tick_timer.at_most(Timer::In(IGNITE_TICK)) && self.ignite_count > 0 {
            self.tick_timer = Timer::In(IGNITE_TICK);
        }
        if running {
            remember(&mut self.ignite_refresh_history, clock);
        }
        self.ignite_timer = Timer::In(IGNITE_TIME + 1);
        if self.ignite_count == 0 {
            self.tick_timer = Timer::In(IGNITE_TICK);
            self.ignite_multiplier = snapshot;
        }
        if self.ignite_count < IGNITE_STACK {
            self.ignite_value = accrue(self.ignite_value, add);
            self.ignite_count = self.ignite_count + 1;
        }
    }

    fn scorch(&mut self, clock: i64, applies: bool)
        ensures
            final(self)@ == old(self)@.scorched(clock, applies),
    {
        let running = self.scorch_timer.is_active();
        if !running {
            self.scorch_count = 0;
        }
        if applies {
            if running {
                remember(&mut self.scorch_refresh_history, clock);
            }
            self.scorch_timer = Timer::In(SCORCH_TIME);
            self.scorch_count = if self.scorch_count < SCORCH_STACK {
                self.scorch_count + 1
            } else {
                SCORCH_STACK
            };
        }
    }

    fn burn_scale(&self, x: u64) -> (r: u64)
        ensures
            r == self@.burn_scaled(x),
    {
        let x = scale_if(
            self.scorch_timer.is_active(),
            x,
            1_000_000 + SCORCH_MULTIPLIER * (self.scorch_count as u64),
        );
        scale_if(self.spell_vulnerability.is_active(), x, 1_000_000 + NIGHTFALL_VULN)
    }
}

impl MageLane {
    /// Spell power the damage trinket at `b` adds right now.
    pub open spec fn trinket_power(self, b: int) -> int {
        if self.buff_timer[b].spec_is_active() {
            BUFF_DAMAGE[b] + self.buff_ticks[b] * BUFF_PER_TICK[b]
        } else {
            0
        }
    }

    /// The count of spells landed under the damage trinket at `b`, after
    /// one more has landed.
    pub open spec fn ticks_bumped(self, b: int) -> u32 {
        if self.buff_timer[b].spec_is_active() && self.buff_ticks[b] < u32::MAX {
            (self.buff_ticks[b] + 1) as u32
        } else {
            self.buff_ticks[b]
        }
    }

    /// Chance that a spell of this mage crits, Combustion and Incinerate
    /// counted in, and never more than certain.
    pub open spec fn crit_chance_for(self, k: Constants, spell: Spell) -> u64 {
        let sp = spell.ordinal();
        let combustion: u64 = if k.is_fire[sp] && self.comb_left > 0 {
            (PER_COMBUSTION * self.comb_stack) as u64
        } else {
            0
        };
        let chance = accrued(accrued(self.crit_chance, combustion), k.incin_bonus[sp]);
        if chance > 1_000_000 {
            1_000_000
        } else {
            chance
        }
    }

    fn crit_chance_of(&self, k: &Constants, spell: Spell) -> (r: u64)
        ensures
            r == self.crit_chance_for(*k, spell),
    {
        let sp = spell.index();
        let combustion: u64 = if k.is_fire[sp] && self.comb_left > 0 {
            PER_COMBUSTION * (self.comb_stack as u64)
        } else {
            0
        };
        let chance = accrue(accrue(self.crit_chance, combustion), k.incin_bonus[sp]);
        if chance > 1_000_000 {
            1_000_000
        } else {
            chance
        }
    }
}

/// What has been decided about one hit.
#[derive(Debug, Clone, Copy)]
pub struct Impact {
    pub spell: Spell,
    pub fire: bool,
    pub crit: bool,
    /// Damage of the hit before any crit.
    pub hit: u64,
    /// What the mage is credited with: the hit, or the whole fire crit.
    pub landed: u64,
    /// What a crit outside the fire school adds on top of the hit.
    pub extra: u64,
    /// Share of the damage that was not resisted.
    pub partial: u64,
    /// What a fire crit adds to Ignite.
    pub share: u64,
    /// Multiplier a new Ignite would keep.
    pub snapshot: u64,
    /// Ignite had less than the decision point left.
    pub late: bool,
    /// Scorch's debuff takes hold.
    pub debuffs: bool,
    /// The spell leaves a Pyroblast burn.
    pub burns: bool,
    /// Damage of each tick of that burn.
    pub seed: u64,
    /// The mage is under study.
    pub target: bool,
}

impl MageLane {
    /// The lane after its spell in `slot` has hit as `imp` says.
    pub open spec fn struck(self, slot: int, imp: Impact) -> MageLane {
        let fire_crit = imp.fire && imp.crit;
        MageLane {
            spell_timer: timers_with(self.spell_timer, slot, Timer::Never),
            buff_ticks: [self.ticks_bumped(0), self.ticks_bumped(1), self.ticks_bumped(2)],
            damage: accrued(self.damage, imp.landed),
            crit_too_late: self.crit_too_late || (fire_crit && imp.late),
            comb_cooldown: if fire_crit && self.comb_left == 1 {
                Timer::In(COMBUSTION_COOLDOWN)
            } else {
                self.comb_cooldown
            },
            comb_left: if fire_crit && self.comb_left > 0 {
                (self.comb_left - 1) as u8
            } else {
                self.comb_left
            },
            comb_stack: if imp.fire && self.comb_stack < u8::MAX {
                (self.comb_stack + 1) as u8
            } else {
                self.comb_stack
            },
            pyro_count: if imp.burns { PYRO_COUNT } else { self.pyro_count },
            pyro_timer: if imp.burns { Timer::In(PYRO_TIMER) } else { self.pyro_timer },
            pyro_value: if imp.burns { imp.seed } else { self.pyro_value },
            ..self
        }
    }

    /// A hit keeps a lane well formed.
    pub proof fn lemma_struck_wf(self, slot: int, imp: Impact, clock: int)
        requires
            0 <= slot < 4,
            self.wf(clock),
            0 <= clock <= 3 * HORIZON,
        ensures
            self.struck(slot, imp).wf(clock),
    {
        let after = self.struck(slot, imp);
        assert(forall|j: int| 0 <= j < 4 ==> (#[trigger] self.spell_timer[j]).within(clock));
        assert(forall|j: int| 0 <= j < 4 ==> (#[trigger] self.spell_timer[j]).pending());
        assert(forall|j: int| 0 <= j < 4 ==> (#[trigger] after.spell_timer[j]).within(clock));
        assert(forall|j: int| 0 <= j < 4 ==> (#[trigger] after.spell_timer[j]).pending());
    }

    fn strike(&mut self, slot: usize, imp: &Impact)
        requires
            slot < 4,
        ensures
            *final(self) == old(self).struck(slot as int, *imp),
    {
        let lo = *self;
        let fire_crit = imp.fire && imp.crit;
        let bump0 = lo.buff_timer[0].is_active() && lo.buff_ticks[0] < u32::MAX;
        let bump1 = lo.buff_timer[1].is_active() && lo.buff_ticks[1] < u32::MAX;
        let bump2 = lo.buff_timer[2].is_active() && lo.buff_ticks[2] < u32::MAX;
        let after = MageLane {
            spell_timer: [
                if slot == 0 { Timer::Never } else { lo.spell_timer[0] },
                if slot == 1 { Timer::Never } else { lo.spell_timer[1] },
                if slot == 2 { Timer::Never } else { lo.spell_timer[2] },
                if slot == 3 { Timer::Never } else { lo.spell_timer[3] },
            ],
            buff_ticks: [
                if bump0 { lo.buff_ticks[0] + 1 } else { lo.buff_ticks[0] },
                if bump1 { lo.buff_ticks[1] + 1 } else { lo.buff_ticks[1] },
                if bump2 { lo.buff_ticks[2] + 1 } else { lo.buff_ticks[2] },
            ],
            damage: accrue(lo.damage, imp.landed),
            crit_too_late: lo.crit_too_late || (fire_crit && imp.late),
            comb_cooldown: if fire_crit && lo.comb_left == 1 {
                Timer::In(COMBUSTION_COOLDOWN)
            } else {
                lo.comb_cooldown
            },
            comb_left: if fire_crit && lo.comb_left > 0 { lo.comb_left - 1 } else { lo.comb_left },
            comb_stack: if imp.fire && lo.comb_stack < u8::MAX {
                lo.comb_stack + 1
            } else {
                lo.comb_stack
            },
            pyro_count: if imp.burns { PYRO_COUNT } else { lo.pyro_count },
            pyro_timer: if imp.burns { Timer::In(PYRO_TIMER) } else { lo.pyro_timer },
            pyro_value: if imp.burns { imp.seed } else { lo.pyro_value },
            ..lo
        };
        proof {
            let want = lo.struck(slot as int, *imp);
            assert(after.spell_timer =~= want.spell_timer);
            assert(after.buff_ticks =~= want.buff_ticks);
        }
        *self = after;
    }
}

impl BossView {
    /// The target after a hit as `imp` says: a fire crit feeds Ignite, and
    /// Scorch's debuff is looked after.
    pub open spec fn struck(self, clock: i64, imp: Impact) -> BossView {
        (if imp.fire && imp.crit {
            self.ignited(clock, imp.share, imp.snapshot)
        } else {
            self
        }).scorched(clock, imp.debuffs)
    }

    /// A hit keeps the target well formed.
    pub proof fn lemma_struck_wf(self, clock: i64, imp: Impact)
        requires
            self.wf(clock as int),
            0 <= clock <= 3 * HORIZON,
        ensures
            self.struck(clock, imp).wf(clock as int),
            self.struck(clock, imp).nightfall == self.nightfall,
    {
    }
}

impl Totals {
    /// The totals after a hit as `imp` says.  A fire crit is entered once,
    /// at its full worth; any other crit adds its extra on top of the hit.
    pub open spec fn struck(self, imp: Impact) -> Totals {
        Totals {
            total_damage: if imp.crit && !imp.fire {
                accrued(accrued(self.total_damage, imp.hit), imp.extra)
            } else {
                accrued(self.total_damage, imp.landed)
            },
            player_damage: if imp.crit && !imp.fire && imp.target {
                accrued(self.player_damage, imp.extra)
            } else {
                self.player_damage
            },
            ..self
        }
    }

    fn strike(&mut self, imp: &Impact)
        ensures
            *final(self) == old(self).struck(*imp),
    {
        if imp.crit && !imp.fire {
            self.total_damage = accrue(accrue(self.total_damage, imp.hit), imp.extra);
            if imp.target {
                self.player_damage = accrue(self.player_damage, imp.extra);
            }
        } else {
            self.total_damage = accrue(self.total_damage, imp.landed);
        }
    }
}

impl StateView {
    pub open spec fn is_cleaner(self, lane: int) -> bool {
        self.meta.cleaner_slots.contains(lane as usize)
    }

    pub open spec fn is_dmf(self, lane: int) -> bool {
        self.meta.dmf_slots.contains(lane as usize)
    }

    pub open spec fn is_sr(self, lane: int) -> bool {
        self.meta.sr_slots.contains(lane as usize)
    }

    pub open spec fn is_ts(self, lane: int) -> bool {
        self.meta.ts_slots.contains(lane as usize)
    }

    /// Whether mage `lane` is under study: named as such, or every mage is.
    pub open spec fn is_target(self, lane: int) -> bool {
        self.meta.target_slots.len() == self.lanes.len() || self.meta.target_slots.contains(
            lane as usize,
        )
    }

    /// Spell power mage `lane` gains from running trinkets and from the
    /// dragonling.  A trinket's share changes with every spell landed under
    /// it and may turn negative.
    pub open spec fn bonus_power(self, lane: int) -> int {
        let l = self.lanes[lane];
        (if self.boss.dragonling_active(self.clock()) {
            DRAGONLING_BUFF as int
        } else {
            0
        }) + l.trinket_power(0) + l.trinket_power(1) + l.trinket_power(2)
    }

    /// Spell power that counts for a spell of mage `lane` landing now;
    /// never below zero.
    pub open spec fn effective_power(self, lane: int) -> u64 {
        clamp_amount(self.lanes[lane].spell_power + self.bonus_power(lane))
    }

    /// `x` under the multipliers mage `lane` carries: Power Infusion and the
    /// three damage auras, in that order.
    pub open spec fn carried_scaled(self, lane: int, x: u64) -> u64 {
        let x = scaled_if(self.lanes[lane].spec_has_power_infusion(), x, (1_000_000 + POWER_INFUSION) as u64);
        let x = scaled_if(self.is_dmf(lane), x, (1_000_000 + DMF_BUFF) as u64);
        let x = scaled_if(self.is_sr(lane), x, (1_000_000 + SR_BUFF) as u64);
        scaled_if(self.is_ts(lane), x, (1_000_000 + TS_BUFF) as u64)
    }

    /// Damage of a hit of `spell` by mage `lane`, before any crit, in
    /// billionths of a point.  The
    /// steps apply in this order: base damage and range, spell power,
    /// partial resist (fire only), curse and talents, Scorch stacks (fire
    /// only), Power Infusion, Nightfall, the three damage auras, the
    /// encounter's multiplier, and the set bonus of the mages in `cleaner`.
    pub open spec fn hit_amount(self, k: Constants, lane: int, spell: Spell, rolls: Rolls) -> u64 {
        let l = self.lanes[lane];
        let sp = spell.ordinal();
        let fire = k.is_fire[sp];
        let x = accrued(
            accrued(k.spell_base[sp], spec_roll_spread(rolls.base, k.spell_range[sp])),
            scaled_fine(self.effective_power(lane), k.sp_multiplier[sp]),
        );
        let x = scaled_if(fire, x, spec_retained(rolls.resist));
        let x = scaled(x, scaled(self.meta.coe, k.damage_multiplier[sp]));
        let x = scaled_if(
            fire && self.boss.scorch_timer.spec_is_active(),
            x,
            (1_000_000 + SCORCH_MULTIPLIER * self.boss.scorch_count) as u64,
        );
        let x = scaled_if(l.spec_has_power_infusion(), x, (1_000_000 + POWER_INFUSION) as u64);
        let x = scaled_if(
            self.boss.spell_vulnerability.spec_is_active(),
            x,
            (1_000_000 + NIGHTFALL_VULN) as u64,
        );
        let x = scaled_if(self.is_dmf(lane), x, (1_000_000 + DMF_BUFF) as u64);
        let x = scaled_if(self.is_sr(lane), x, (1_000_000 + SR_BUFF) as u64);
        let x = scaled_if(self.is_ts(lane), x, (1_000_000 + TS_BUFF) as u64);
        let x = scaled(x, self.meta.vulnerability);
        scaled_if(self.is_cleaner(lane), x, (1_000_000 + UDC_MOD) as u64)
    }

    /// What the ledger gets for a fire crit whose hit was worth `hit`.
    pub open spec fn fire_crit_amount(self, k: Constants, lane: int, hit: u64) -> u64 {
        scaled_if(
            self.is_cleaner(lane),
            scaled(hit, accrued(1_000_000, k.icrit_damage)),
            (1_000_000 + UDC_MOD) as u64,
        )
    }

    /// What a fire crit whose hit was worth `hit` adds to Ignite.
    pub open spec fn ignite_share(self, k: Constants, lane: int, hit: u64) -> u64 {
        scaled_if(
            self.is_cleaner(lane),
            scaled(hit, scaled(accrued(1_000_000, k.icrit_damage), k.ignite_damage)),
            (1_000_000 + UDC_MOD) as u64,
        )
    }

    /// The multiplier a new Ignite keeps for as long as it runs.
    pub open spec fn ignite_snapshot(self, lane: int) -> u64 {
        scaled(
            self.carried_scaled(
                lane,
                if self.is_cleaner(lane) {
                    (1_000_000 + UDC_MOD) as u64
                } else {
                    1_000_000
                },
            ),
            self.meta.vulnerability,
        )
    }

    /// Damage of each tick of the burn a Pyroblast of mage `lane` leaves.
    pub open spec fn pyro_seed(self, k: Constants, lane: int) -> u64 {
        let sp = Spell::PyroDot.ordinal();
        let x = accrued(k.spell_base[sp], scaled_fine(self.effective_power(lane), k.sp_multiplier[sp]));
        let x = scaled(x, k.damage_multiplier[sp]);
        let x = self.carried_scaled(lane, x);
        let x = scaled_if(self.is_cleaner(lane), x, (1_000_000 + UDC_MOD) as u64);
        x / (PYRO_COUNT as u64)
    }

    /// Adds a damaging event to the records: to the log where it is kept,
    /// else to the damage series.
    pub open spec fn recorded(self, entry: LogEntry) -> StateView {
        if self.log_enabled {
            self.with_log(entry)
        } else {
            StateView {
                damage_log: self.damage_log.push(
                    DamageAccumulator { time: self.global.running_time, damage: entry.value },
                ),
                ..self
            }
        }
    }

    /// Everything that is decided about a hit of the spell in `slot` of mage
    /// `lane` before the state changes.
    pub open spec fn impact(self, k: Constants, lane: int, slot: int, rolls: Rolls) -> Impact {
        let l = self.lanes[lane];
        let spell = l.spell_type[slot];
        let sp = spell.ordinal();
        let fire = k.is_fire[sp];
        let hit = self.hit_amount(k, lane, spell, rolls);
        let crit = spec_roll_below(rolls.crit, l.crit_chance_for(k, spell));
        let burns = self.meta.no_debuff_limit && k.is_pyro[sp];
        Impact {
            spell,
            fire,
            crit,
            hit,
            landed: if fire && crit { self.fire_crit_amount(k, lane, hit) } else { hit },
            extra: scaled(hit, k.crit_damage),
            partial: if fire { spec_retained(rolls.resist) } else { 1_000_000 },
            share: self.ignite_share(k, lane, hit),
            snapshot: self.ignite_snapshot(lane),
            late: self.boss.ignite_timer.spec_below(DECISION_POINT),
            debuffs: k.is_scorch[sp] && spec_roll_below(rolls.debuff, l.hit_chance),
            burns,
            seed: if burns { self.pyro_seed(k, lane) } else { 0 },
            target: self.is_target(lane),
        }
    }

    /// The state after the spell in `slot` of mage `lane` has hit.
    pub open spec fn struck(self, k: Constants, lane: int, slot: int, rolls: Rolls) -> StateView {
        let imp = self.impact(k, lane, slot, rolls);
        let s = StateView {
            lanes: self.lanes.update(lane, self.lanes[lane].struck(slot, imp)),
            boss: self.boss.struck(self.global.running_time, imp),
            totals: self.totals.struck(imp),
            ..self
        };
        s.recorded(
            s.impact_entry(
                lane,
                imp.spell,
                imp.landed,
                imp.partial,
                if imp.crit { SpellResult::Crit } else { SpellResult::Hit },
            ),
        )
    }

    /// The state after the spell in `slot` of mage `lane` has reached the
    /// target: it leaves its slot, and misses or hits.
    pub open spec fn resolved(self, k: Constants, lane: int, slot: int, rolls: Rolls) -> StateView {
        if spec_roll_below(rolls.hit, self.lanes[lane].hit_chance) {
            self.struck(k, lane, slot, rolls)
        } else {
            self.missed(lane, slot)
        }
    }

    /// The state after the spell in `slot` of mage `lane` has missed: the
    /// slot is free again and nothing else changes.
    pub open spec fn missed(self, lane: int, slot: int) -> StateView {
        let l = self.lanes[lane];
        let s = self.with_lane(
            lane,
            MageLane { spell_timer: timers_with(l.spell_timer, slot, Timer::Never), ..l },
        );
        s.logged(s.impact_entry(lane, l.spell_type[slot], 0, 0, SpellResult::Miss))
    }

    /// The state after the earliest spell in flight has landed.  The clock
    /// moves to the impact; if the trial is over by then, nothing else
    /// happens.  Nothing changes where there is no mage.
    pub open spec fn landed(self, k: Constants, rolls: Rolls) -> StateView {
        if self.lanes.len() == 0 {
            self
        } else {
            self.landing_resolved(k, rolls)
        }
    }

    /// The state after the earliest spell in flight has landed, where there
    /// is a mage.
    pub open spec fn landing_resolved(self, k: Constants, rolls: Rolls) -> StateView {
        let lane = self.next_spell_lane();
        let slot = self.lanes[lane].spec_next_slot();
        let dt = self.lanes[lane].spell_timer[slot]->In_0;
        let s = self.elapsed(dt as int);
        if s.in_progress() {
            s.resolved(k, lane, slot, rolls)
        } else {
            s
        }
    }
}

impl State {
    fn bonus_power_of(&self, lane: usize) -> (r: i128)
        requires
            lane < self@.lanes.len(),
        ensures
            r == self@.bonus_power(lane as int),
            -80_000_000_000_000_000_000 <= r <= 1_000_000_000_000,
    {
        let l = &self.lanes[lane];
        let mut bonus: i128 = if self.boss.dragonling_active(self.global.running_time) {
            DRAGONLING_BUFF as i128
        } else {
            0
        };
        if l.buff_timer[0].is_active() {
            bonus = bonus + ((BUFF_DAMAGE[0] as i128) + (l.buff_ticks[0] as i128) * (BUFF_PER_TICK[0] as i128));
        }
        if l.buff_timer[1].is_active() {
            bonus = bonus + ((BUFF_DAMAGE[1] as i128) + (l.buff_ticks[1] as i128) * (BUFF_PER_TICK[1] as i128));
        }
        if l.buff_timer[2].is_active() {
            bonus = bonus + ((BUFF_DAMAGE[2] as i128) + (l.buff_ticks[2] as i128) * (BUFF_PER_TICK[2] as i128));
        }
        bonus
    }

    fn effective_power_of(&self, lane: usize) -> (r: u64)
        requires
            lane < self@.lanes.len(),
        ensures
            r == self@.effective_power(lane as int),
    {
        let bonus = self.bonus_power_of(lane);
        let total: i128 = (self.lanes[lane].spell_power as i128) + bonus;
        if total < 0 {
            0
        } else if total > u64::MAX as i128 {
            u64::MAX
        } else {
            total as u64
        }
    }

    fn carried_scale(&self, lane: usize, x: u64) -> (r: u64)
        requires
            lane < self@.lanes.len(),
        ensures
            r == self@.carried_scaled(lane as int, x),
    {
        let x = scale_if(self.lanes[lane].has_power_infusion(), x, 1_000_000 + POWER_INFUSION);
        let x = scale_if(lists_lane(&self.meta.dmf_slots, lane), x, 1_000_000 + DMF_BUFF);
        let x = scale_if(lists_lane(&self.meta.sr_slots, lane), x, 1_000_000 + SR_BUFF);
        scale_if(lists_lane(&self.meta.ts_slots, lane), x, 1_000_000 + TS_BUFF)
    }

    fn hit_amount_of(&self, k: &Constants, lane: usize, spell: Spell, rolls: &Rolls) -> (r: u64)
        requires
            lane < self@.lanes.len(),
        ensures
            r == self@.hit_amount(*k, lane as int, spell, *rolls),
    {
        let sp = spell.index();
        let fire = k.is_fire[sp];
        let x = accrue(
            accrue(k.spell_base[sp], roll_spread(rolls.base, k.spell_range[sp])),
            scale_fine(self.effective_power_of(lane), k.sp_multiplier[sp]),
        );
        let x = if fire { scale(x, retained(rolls.resist)) } else { x };
        let x = scale(x, scale(self.meta.coe, k.damage_multiplier[sp]));
        let x = scale_if(
            fire && self.boss.scorch_timer.is_active(),
            x,
            1_000_000 + SCORCH_MULTIPLIER * (self.boss.scorch_count as u64),
        );
        let x = scale_if(self.lanes[lane].has_power_infusion(), x, 1_000_000 + POWER_INFUSION);
        let x = scale_if(self.boss.spell_vulnerability.is_active(), x, 1_000_000 + NIGHTFALL_VULN);
        let x = scale_if(lists_lane(&self.meta.dmf_slots, lane), x, 1_000_000 + DMF_BUFF);
        let x = scale_if(lists_lane(&self.meta.sr_slots, lane), x, 1_000_000 + SR_BUFF);
        let x = scale_if(lists_lane(&self.meta.ts_slots, lane), x, 1_000_000 + TS_BUFF);
        let x = scale(x, self.meta.vulnerability);
        scale_if(lists_lane(&self.meta.cleaner_slots, lane), x, 1_000_000 + UDC_MOD)
    }

    fn pyro_seed_of(&self, k: &Constants, lane: usize) -> (r: u64)
        requires
            lane < self@.lanes.len(),
        ensures
            r == self@.pyro_seed(*k, lane as int),
    {
        let sp = Spell::PyroDot.index();
        let x = accrue(k.spell_base[sp], scale_fine(self.effective_power_of(lane), k.sp_multiplier[sp]));
        let x = scale(x, k.damage_multiplier[sp]);
        let x = self.carried_scale(lane, x);
        let x = scale_if(lists_lane(&self.meta.cleaner_slots, lane), x, 1_000_000 + UDC_MOD);
        x / (PYRO_COUNT as u64)
    }

    fn record(&mut self, entry: LogEntry)
        ensures
            final(self)@ == old(self)@.recorded(entry),
    {
        if self.log_enabled {
            self.log.push(entry);
        } else {
            self.damage_log.push(
                DamageAccumulator { time: self.global.running_time, damage: entry.value },
            );
        }
    }

    fn impact_entry_of(
        &self,
        lane: usize,
        spell: Spell,
        value: u64,
        partial: u64,
        result: SpellResult,
    ) -> (r: LogEntry)
        requires
            lane < self@.lanes.len(),
        ensures
            r == self@.impact_entry(lane as int, spell, value, partial, result),
    {
        LogEntry {
            log_type: LogType::SpellImpact,
            lane: Some(lane),
            action: None,
            spell: Some(spell),
            t: self.global.running_time,
            totals: self.totals,
            value,
            value2: scale(value, if partial < 1_000_000 { 1_000_000 - partial } else { 0 }),
            spell_result: result,
            mage: Some(self.lanes[lane]),
            boss: self.boss.glance(),
            dragonling: self.boss.dragonling_active(self.global.running_time),
        }
    }

    fn impact_of(&self, k: &Constants, lane: usize, slot: usize, rolls: &Rolls) -> (r: Impact)
        requires
            lane < self@.lanes.len(),
            slot < 4,
        ensures
            r == self@.impact(*k, lane as int, slot as int, *rolls),
    {
        let l = &self.lanes[lane];
        let spell = l.spell_type[slot];
        let sp = spell.index();
        let fire = k.is_fire[sp];
        let cleaner = lists_lane(&self.meta.cleaner_slots, lane);
        let hit = self.hit_amount_of(k, lane, spell, rolls);
        let crit = roll_below(rolls.crit, l.crit_chance_of(k, spell));
        let burns = self.meta.no_debuff_limit && k.is_pyro[sp];
        let boosted = accrue(1_000_000, k.icrit_damage);
        Impact {
            spell,
            fire,
            crit,
            hit,
            landed: if fire && crit {
                scale_if(cleaner, scale(hit, boosted), 1_000_000 + UDC_MOD)
            } else {
                hit
            },
            extra: scale(hit, k.crit_damage),
            partial: if fire { retained(rolls.resist) } else { 1_000_000 },
            share: scale_if(cleaner, scale(hit, scale(boosted, k.ignite_damage)), 1_000_000 + UDC_MOD),
            snapshot: scale(
                self.carried_scale(lane, if cleaner { 1_000_000 + UDC_MOD } else { 1_000_000 }),
                self.meta.vulnerability,
            ),
            late: self.boss.ignite_timer.below(DECISION_POINT),
            debuffs: k.is_scorch[sp] && roll_below(rolls.debuff, l.hit_chance),
            burns,
            seed: if burns { self.pyro_seed_of(k, lane) } else { 0 },
            target: self.meta.target_slots.len() == self.lanes.len() || lists_lane(
                &self.meta.target_slots,
                lane,
            ),
        }
    }

    /// Carries out a hit of the spell in `slot` of mage `lane`.
    fn strike(&mut self, k: &Constants, lane: usize, slot: usize, rolls: &Rolls)
        requires
            old(self).wf(),
            k.wf(),
            lane < old(self)@.lanes.len(),
            slot < 4,
        ensures
            final(self)@ == old(self)@.struck(*k, lane as int, slot as int, *rolls),
            final(self).wf(),
    {
        let ghost pre = self@;
        let clock = self.global.running_time;
        let imp = self.impact_of(k, lane, slot, rolls);
        let mut l = self.lanes[lane];
        proof {
            assert(l.wf(pre.clock()));
            pre.boss.lemma_struck_wf(clock, imp);
            l.lemma_struck_wf(slot as int, imp, pre.clock());
        }
        l.strike(slot, &imp);
        self.lanes[lane] = l;
        if imp.fire && imp.crit {
            self.boss.ignite(clock, imp.share, imp.snapshot);
        }
        self.boss.scorch(clock, imp.debuffs);
        self.totals.strike(&imp);
        proof {
            let post = self@;
            assert forall|i: int| 0 <= i < post.lanes.len() implies (#[trigger] post.lanes[i]).wf(post.clock()) by {
                if i != lane {
                    assert(pre.lanes[i].wf(pre.clock()));
                }
            }
            assert(post.boss == pre.boss.struck(clock, imp));
        }
        let result = if imp.crit { SpellResult::Crit } else { SpellResult::Hit };
        let entry = self.impact_entry_of(lane, imp.spell, imp.landed, imp.partial, result);
        self.record(entry);
    }

    /// Handles the impact of the earliest spell in flight, with the draws
    /// given in `rolls`.
    pub fn land_spell_rolled(&mut self, k: &Constants, rolls: &Rolls)
        requires
            old(self).wf(),
            k.wf(),
            old(self)@.lanes.len() == 0 || (old(self)@.in_progress() && old(self)@.fires(
                Event::Landing,
            )),
        ensures
            final(self)@ == old(self)@.landed(*k, *rolls),
            final(self).wf(),
    {
        let ghost pre = self@;
        if self.lanes.len() == 0 {
            return ;
        }
        proof {
            lemma_soonest_finite(pre.landing_timers(), pre.lanes.len() as int);
            pre.lemma_wf_is_bounded();
        }
        let (lane, due) = self.earliest_landing();
        let slot = MageLane::earliest_of(&self.lanes[lane].spell_timer).0;
        let dt = match due {
            Timer::In(t) => t,
            Timer::Never => 0,
        };
        proof {
            assert(pre.lanes[lane as int].wf(pre.clock()));
            assert(pre.lanes[lane as int].spell_timer[slot as int].within(pre.clock()));
            assert(pre.lanes[lane as int].spell_timer[slot as int].pending());
            pre.lemma_elapsed_keeps_wf(dt as int);
        }
        self.subtime(dt);
        if !self.in_progress() {
            return ;
        }
        if roll_below(rolls.hit, self.lanes[lane].hit_chance) {
            self.strike(k, lane, slot, rolls);
        } else {
            self.miss(lane, slot);
        }
    }

    /// Carries out a miss of the spell in `slot` of mage `lane`.
    fn miss(&mut self, lane: usize, slot: usize)
        requires
            old(self).wf(),
            lane < old(self)@.lanes.len(),
            slot < 4,
        ensures
            final(self)@ == old(self)@.missed(lane as int, slot as int),
            final(self).wf(),
    {
        let ghost mid = self@;
        let lo = self.lanes[lane];
        let spell = lo.spell_type[slot];
        let l = MageLane {
            spell_timer: [
                if slot == 0 { Timer::Never } else { lo.spell_timer[0] },
                if slot == 1 { Timer::Never } else { lo.spell_timer[1] },
                if slot == 2 { Timer::Never } else { lo.spell_timer[2] },
                if slot == 3 { Timer::Never } else { lo.spell_timer[3] },
            ],
            ..lo
        };
        proof {
            assert(lo.wf(mid.clock()));
            assert(l.spell_timer =~= timers_with(lo.spell_timer, slot as int, Timer::Never));
            assert(forall|j: int| 0 <= j < 4 ==> (#[trigger] lo.spell_timer[j]).within(mid.clock()));
            assert(forall|j: int| 0 <= j < 4 ==> (#[trigger] lo.spell_timer[j]).pending());
            assert(forall|j: int| 0 <= j < 4 ==> (#[trigger] l.spell_timer[j]).within(mid.clock()));
            assert(forall|j: int| 0 <= j < 4 ==> (#[trigger] l.spell_timer[j]).pending());
            assert(l.wf(mid.clock()));
        }
        self.lanes[lane] = l;
        proof {
            let post = self@;
            assert forall|i: int| 0 <= i < post.lanes.len() implies (#[trigger] post.lanes[i]).wf(post.clock()) by {
                if i != lane {
                    assert(mid.lanes[i].wf(mid.clock()));
                }
            }
        }
        if self.log_enabled {
            self.log_spell_impact(lane, spell, 0, 0, SpellResult::Miss);
        }
    }
}

impl StateView {
    /// The state after the Ignite tick that is due.  The clock moves to the
    /// tick; if the trial is over by then, nothing else happens.  Otherwise
    /// the next tick is scheduled while Ignite has a full interval left, and
    /// a running Ignite burns for its value under the curse, its frozen
    /// multiplier, the target's debuffs and a partial resist of its own.
    pub open spec fn ignite_ticked(self, roll: u64) -> StateView {
        let dt = self.boss.tick_timer->In_0;
        let s = self.elapsed(dt as int);
        if !s.in_progress() {
            s
        } else {
            let s = StateView {
                boss: BossView {
                    tick_timer: if Timer::In(IGNITE_TICK).spec_at_most(s.boss.ignite_timer) {
                        Timer::In(IGNITE_TICK)
                    } else {
                        Timer::Never
                    },
                    ..s.boss
                },
                ..s
            };
            if !s.boss.ignite_timer.spec_is_active() {
                s
            } else {
                let partial = spec_retained(roll);
                let damage = s.ignite_tick_amount(partial);
                let s = StateView {
                    totals: Totals {
                        ignite_damage: accrued(s.totals.ignite_damage, damage),
                        ..s.totals
                    },
                    ..s
                };
                s.recorded(s.tick_entry(damage, partial))
            }
        }
    }

    /// Damage of an Ignite tick of which the share `partial` gets through.
    pub open spec fn ignite_tick_amount(self, partial: u64) -> u64 {
        scaled(
            self.boss.ignite_value,
            scaled(
                self.boss.burn_scaled(scaled(COE_MULTIPLIER, self.boss.ignite_multiplier)),
                partial,
            ),
        )
    }

    /// The state after the Nightfall proc check that is due: the source is
    /// armed for its next check if it has a period, and a proc opens the
    /// vulnerability window.  Nothing changes where no check is scheduled.
    pub open spec fn proc_checked(self, roll: u64) -> StateView {
        if self.proc_due() is Never {
            self
        } else {
            self.proc_resolved(roll)
        }
    }

    /// The state after the earliest proc check, which is scheduled.
    pub open spec fn proc_resolved(self, roll: u64) -> StateView {
        let source = self.next_proc_source();
        let dt = self.boss.nightfall[source]->In_0;
        let s = self.elapsed(dt as int);
        StateView {
            boss: BossView {
                nightfall: if source < self.meta.nightfall_period.len() {
                    s.boss.nightfall.update(source, Timer::In(self.meta.nightfall_period[source]))
                } else {
                    s.boss.nightfall
                },
                spell_vulnerability: if spec_roll_below(roll, NIGHTFALL_PROC_PROB) {
                    Timer::In(NIGHTFALL_DURATION)
                } else {
                    s.boss.spell_vulnerability
                },
                ..s.boss
            },
            ..s
        }
    }

    /// Damage of a tick of the Pyroblast burn of mage `lane`.
    pub open spec fn pyro_tick_amount(self, lane: int) -> u64 {
        scaled(self.lanes[lane].pyro_value, self.boss.burn_scaled(COE_MULTIPLIER))
    }

    /// The state after the tick of a Pyroblast burn that is due.  The clock
    /// moves to the tick; if the trial is over by then, nothing else
    /// happens.  Nothing changes where there is no mage.
    pub open spec fn pyro_ticked(self) -> StateView {
        if self.lanes.len() == 0 {
            self
        } else {
            self.pyro_resolved()
        }
    }

    /// The state after the earliest tick of a Pyroblast burn, where there
    /// is a mage.
    pub open spec fn pyro_resolved(self) -> StateView {
        let lane = self.next_pyro_lane();
        let dt = self.lanes[lane].pyro_timer->In_0;
        let s = self.elapsed(dt as int);
        if !s.in_progress() {
            s
        } else {
            let l = s.lanes[lane];
            let left = (l.pyro_count - 1) as u8;
            let damage = s.pyro_tick_amount(lane);
            let s = StateView {
                lanes: s.lanes.update(
                    lane,
                    MageLane {
                        pyro_count: left,
                        pyro_timer: if left > 0 { Timer::In(PYRO_TIMER) } else { Timer::Never },
                        ..l
                    },
                ),
                totals: Totals {
                    total_damage: accrued(s.totals.total_damage, damage),
                    player_damage: if s.is_target(lane) {
                        accrued(s.totals.player_damage, damage)
                    } else {
                        s.totals.player_damage
                    },
                    ..s.totals
                },
                ..s
            };
            s.recorded(s.impact_entry(lane, Spell::PyroDot, damage, 1_000_000, SpellResult::Hit))
        }
    }

    /// The state after one step of the scheduler: the event named by
    /// [`Self::next_event`] is handled, and nothing changes when none is
    /// scheduled.
    pub open spec fn stepped(self, k: Constants, rolls: Rolls) -> StateView {
        match self.next_event() {
            None => self,
            Some(Event::CastEnd) => self.cast_finished(k),
            Some(Event::Landing) => self.landed(k, rolls),
            Some(Event::IgniteTick) => self.ignite_ticked(rolls.resist),
            Some(Event::Proc) => self.proc_checked(rolls.nightfall),
            Some(Event::PyroTick) => self.pyro_ticked(),
        }
    }

    /// The event that is handled next is scheduled, and nothing is due
    /// before it.
    pub proof fn lemma_next_event_fires(self)
        ensures
            self.next_event() matches Some(e) ==> self.fires(e),
    {
    }
}

impl State {
    /// Handles the Ignite tick that is due; `roll` picks its partial-resist
    /// tier.
    pub fn tick_ignite_rolled(&mut self, roll: u64)
        requires
            old(self).wf(),
            old(self)@.in_progress(),
            old(self)@.fires(Event::IgniteTick),
        ensures
            final(self)@ == old(self)@.ignite_ticked(roll),
            final(self).wf(),
    {
        let ghost pre = self@;
        let dt = match self.boss.tick_timer {
            Timer::In(t) => t,
            Timer::Never => 0,
        };
        proof {
            pre.lemma_wf_is_bounded();
            pre.lemma_elapsed_keeps_wf(dt as int);
        }
        self.subtime(dt);
        if !self.in_progress() {
            return ;
        }
        if Timer::In(IGNITE_TICK).at_most(self.boss.ignite_timer) {
            self.boss.tick_timer = Timer::In(IGNITE_TICK);
        } else {
            self.boss.tick_timer = Timer::Never;
        }
        if !self.boss.ignite_timer.is_active() {
            return ;
        }
        let partial = retained(roll);
        let mult = scale(
            self.boss.burn_scale(scale(COE_MULTIPLIER, self.boss.ignite_multiplier)),
            partial,
        );
        let damage = scale(self.boss.ignite_value, mult);
        self.totals.ignite_damage = accrue(self.totals.ignite_damage, damage);
        if self.log_enabled {
            self.log_tick(damage, partial);
        } else {
            self.damage_log.push(
                DamageAccumulator { time: self.global.running_time, damage },
            );
        }
    }

    /// Handles the Nightfall proc check that is due; `roll` decides the
    /// proc.
    pub fn proc_nightfall_rolled(&mut self, roll: u64)
        requires
            old(self).wf(),
            old(self)@.proc_due() is Never || (old(self)@.in_progress() && old(self)@.fires(
                Event::Proc,
            )),
        ensures
            final(self)@ == old(self)@.proc_checked(roll),
            final(self).wf(),
    {
        let ghost pre = self@;
        let (source, due) = self.earliest_proc();
        let dt = match due {
            Timer::In(t) => t,
            Timer::Never => {
                return ;
            },
        };
        proof {
            lemma_soonest_finite(pre.proc_timers(), pre.boss.nightfall.len() as int);
            pre.lemma_wf_is_bounded();
            assert(pre.boss.nightfall[source as int].within(pre.clock()));
            assert(pre.boss.nightfall[source as int].pending());
            pre.lemma_elapsed_keeps_wf(dt as int);
        }
        self.subtime(dt);
        let ghost mid = self@;
        if source < self.meta.nightfall_period.len() {
            let period = self.meta.nightfall_period[source];
            self.boss.nightfall[source] = Timer::In(period);
        }
        if roll_below(roll, NIGHTFALL_PROC_PROB) {
            self.boss.spell_vulnerability = Timer::In(NIGHTFALL_DURATION);
        }
        proof {
            let post = self@;
            assert forall|i: int| 0 <= i < post.boss.nightfall.len() implies (
            #[trigger] post.boss.nightfall[i]).within(post.clock()) && post.boss.nightfall[i].pending() by {
                if i != source {
                    assert(mid.boss.nightfall[i].within(mid.clock()));
                }
            }
        }
    }

    /// Handles the tick of a Pyroblast burn that is due.
    pub fn tick_pyro(&mut self)
        requires
            old(self).wf(),
            old(self)@.lanes.len() == 0 || (old(self)@.in_progress() && old(self)@.fires(
                Event::PyroTick,
            )),
        ensures
            final(self)@ == old(self)@.pyro_ticked(),
            final(self).wf(),
    {
        let ghost pre = self@;
        if self.lanes.len() == 0 {
            return ;
        }
        proof {
            lemma_soonest_finite(pre.pyro_timers(), pre.lanes.len() as int);
            pre.lemma_wf_is_bounded();
        }
        let (lane, due) = self.earliest_pyro();
        let dt = match due {
            Timer::In(t) => t,
            Timer::Never => 0,
        };
        proof {
            assert(pre.lanes[lane as int].wf(pre.clock()));
            pre.lemma_elapsed_keeps_wf(dt as int);
        }
        self.subtime(dt);
        if !self.in_progress() {
            return ;
        }
        let ghost mid = self@;
        let lo = self.lanes[lane];
        assert(lo.wf(mid.clock()));
        let left = lo.pyro_count - 1;
        let l = MageLane {
            pyro_count: left,
            pyro_timer: if left > 0 { Timer::In(PYRO_TIMER) } else { Timer::Never },
            ..lo
        };
        let damage = scale(lo.pyro_value, self.boss.burn_scale(COE_MULTIPLIER));
        let target = self.meta.target_slots.len() == self.lanes.len() || lists_lane(
            &self.meta.target_slots,
            lane,
        );
        self.lanes[lane] = l;
        self.totals.total_damage = accrue(self.totals.total_damage, damage);
        if target {
            self.totals.player_damage = accrue(self.totals.player_damage, damage);
        }
        proof {
            let post = self@;
            assert forall|i: int| 0 <= i < post.lanes.len() implies (#[trigger] post.lanes[i]).wf(post.clock()) by {
                if i != lane {
                    assert(mid.lanes[i].wf(mid.clock()));
                }
            }
        }
        let entry = self.impact_entry_of(lane, Spell::PyroDot, damage, 1_000_000, SpellResult::Hit);
        self.record(entry);
    }

    /// The kind of event the next step handles; none when nothing is
    /// scheduled.
    pub fn next_event(&self) -> (r: Option<Event>)
        ensures
            r == self@.next_event(),
    {
        let c = self.earliest_cast().1;
        let s = self.earliest_landing().1;
        let t = self.boss.tick_timer;
        let p = self.earliest_proc().1;
        let y = self.earliest_pyro().1;
        if c.is_never() && s.is_never() && t.is_never() && p.is_never() && y.is_never() {
            None
        } else if c.at_most(s) && c.at_most(t) && c.at_most(p) && c.at_most(y) {
            Some(Event::CastEnd)
        } else if s.at_most(t) && s.at_most(p) && s.at_most(y) {
            Some(Event::Landing)
        } else if t.at_most(p) && t.at_most(y) {
            Some(Event::IgniteTick)
        } else if p.at_most(y) {
            Some(Event::Proc)
        } else {
            Some(Event::PyroTick)
        }
    }

    /// One step of the scheduler with the draws given in `rolls`: handles
    /// the event that is due next, and does nothing when none is scheduled.
    pub fn step_one_rolled(&mut self, k: &Constants, rolls: &Rolls)
        requires
            old(self).wf(),
            k.wf(),
            old(self)@.in_progress(),
        ensures
            final(self)@ == old(self)@.stepped(*k, *rolls),
            final(self).wf(),
    {
        proof {
            self@.lemma_next_event_fires();
        }
        match self.next_event() {
            None => {},
            Some(Event::CastEnd) => {
                self.finish_cast(k);
            },
            Some(Event::Landing) => {
                self.land_spell_rolled(k, rolls);
            },
            Some(Event::IgniteTick) => {
                self.tick_ignite_rolled(rolls.resist);
            },
            Some(Event::Proc) => {
                self.proc_nightfall_rolled(rolls.nightfall);
            },
            Some(Event::PyroTick) => {
                self.tick_pyro();
            },
        }
    }
}

/// The generator `ChaCha8Rng` of `rand_chacha`.  It is carried through as
/// it is; nothing is claimed of what it holds.
#[verifier::external_type_specification]
#[verifier::external_body]
pub struct ExChaCha8Rng(ChaCha8Rng);

/// Takes the next 64 bits from the generator, by `RngCore::next_u64` as
/// `rand_chacha` implements it for `ChaCha8Rng`.  Nothing is claimed of the
/// value: every use of it is proved for all 64-bit values.
#[verifier::external_body]
pub(crate) fn draw(rng: &mut ChaCha8Rng) -> (r: u64) {
    rng.next_u64()
}

impl Rolls {
    pub open spec fn unused() -> Rolls {
        Rolls { hit: 0, base: 0, resist: 0, crit: 0, debuff: 0, nightfall: 0 }
    }

    /// Rolls for an event that needs none.
    pub fn none() -> (r: Rolls)
        ensures
            r == Rolls::unused(),
    {
        Rolls { hit: 0, base: 0, resist: 0, crit: 0, debuff: 0, nightfall: 0 }
    }
}

impl State {
    /// Handles the impact of the earliest spell in flight, drawing from
    /// `rng` what the impact needs, in this order: hit, damage range,
    /// partial resist (fire only), crit, Scorch's debuff (Scorch only).
    /// Nothing is drawn once the trial is over, and only the first draw is
    /// made for a miss.
    pub fn land_spell(&mut self, k: &Constants, rng: &mut ChaCha8Rng)
        requires
            old(self).wf(),
            k.wf(),
            old(self)@.lanes.len() == 0 || (old(self)@.in_progress() && old(self)@.fires(
                Event::Landing,
            )),
        ensures
            old(self)@.lanes.len() == 0 ==> final(self)@ == old(self)@,
            exists|rolls: Rolls| final(self)@ == old(self)@.landed(*k, rolls),
            final(self).wf(),
    {
        let ghost pre = self@;
        if self.lanes.len() == 0 {
            assert(self@ == pre.landed(*k, Rolls::unused()));
            return ;
        }
        proof {
            lemma_soonest_finite(pre.landing_timers(), pre.lanes.len() as int);
        }
        let (lane, due) = self.earliest_landing();
        let slot = MageLane::earliest_of(&self.lanes[lane].spell_timer).0;
        let dt = match due {
            Timer::In(t) => t,
            Timer::Never => 0,
        };
        proof {
            assert(pre.lanes[lane as int].wf(pre.clock()));
            assert(pre.lanes[lane as int].spell_timer[slot as int].within(pre.clock()));
        }
        let mut rolls = Rolls::none();
        if self.global.running_time + dt < self.global.duration {
            rolls.hit = draw(rng);
            if roll_below(rolls.hit, self.lanes[lane].hit_chance) {
                let sp = self.lanes[lane].spell_type[slot].index();
                rolls.base = draw(rng);
                if k.is_fire[sp] {
                    rolls.resist = draw(rng);
                }
                rolls.crit = draw(rng);
                if k.is_scorch[sp] {
                    rolls.debuff = draw(rng);
                }
            }
        }
        self.land_spell_rolled(k, &rolls);
        assert(self@ == pre.landed(*k, rolls));
    }

    /// Handles the Ignite tick that is due, drawing the tick's partial
    /// resist from `rng` if Ignite burns.
    pub fn tick_ignite(&mut self, rng: &mut ChaCha8Rng)
        requires
            old(self).wf(),
            old(self)@.in_progress(),
            old(self)@.fires(Event::IgniteTick),
        ensures
            exists|roll: u64| final(self)@ == old(self)@.ignite_ticked(roll),
            final(self).wf(),
    {
        let ghost pre = self@;
        let dt = match self.boss.tick_timer {
            Timer::In(t) => t,
            Timer::Never => 0,
        };
        let burning = match self.boss.ignite_timer {
            Timer::In(t) => t - dt > 0,
            Timer::Never => true,
        };
        let roll = if burning && self.global.running_time + dt < self.global.duration {
            draw(rng)
        } else {
            0
        };
        self.tick_ignite_rolled(roll);
        assert(self@ == pre.ignite_ticked(roll));
    }

    /// Handles the Nightfall proc check that is due, drawing the proc from
    /// `rng`.  Where no check is scheduled nothing changes and nothing is
    /// drawn.
    pub fn proc_nightfall(&mut self, _k: &Constants, rng: &mut ChaCha8Rng)
        requires
            old(self).wf(),
            old(self)@.proc_due() is Never || (old(self)@.in_progress() && old(self)@.fires(
                Event::Proc,
            )),
        ensures
            old(self)@.proc_due() is Never ==> final(self)@ == old(self)@,
            exists|roll: u64| final(self)@ == old(self)@.proc_checked(roll),
            final(self).wf(),
    {
        let ghost pre = self@;
        if self.earliest_proc().1.is_never() {
            assert(self@ == pre.proc_checked(0));
            return ;
        }
        let roll = draw(rng);
        self.proc_nightfall_rolled(roll);
        assert(self@ == pre.proc_checked(roll));
    }

    /// One step of the scheduler: handles the event that is due next,
    /// drawing from `rng` what it needs, and does nothing when no event is
    /// scheduled.
    pub fn step_one(&mut self, k: &Constants, rng: &mut ChaCha8Rng)
        requires
            old(self).wf(),
            k.wf(),
            old(self)@.in_progress(),
        ensures
            exists|rolls: Rolls| final(self)@ == old(self)@.stepped(*k, rolls),
            final(self).wf(),
    {
        let ghost pre = self@;
        proof {
            pre.lemma_next_event_fires();
        }
        match self.next_event() {
            None => {
                assert(self@ == pre.stepped(*k, Rolls::unused()));
            },
            Some(Event::CastEnd) => {
                self.finish_cast(k);
                assert(self@ == pre.stepped(*k, Rolls::unused()));
            },
            Some(Event::Landing) => {
                self.land_spell(k, rng);
                let ghost rolls = choose|rolls: Rolls| self@ == pre.landed(*k, rolls);
                assert(self@ == pre.stepped(*k, rolls));
            },
            Some(Event::IgniteTick) => {
                self.tick_ignite(rng);
                let ghost roll = choose|roll: u64| self@ == pre.ignite_ticked(roll);
                assert(self@ == pre.stepped(*k, Rolls { resist: roll, ..Rolls::unused() }));
            },
            Some(Event::Proc) => {
                self.proc_nightfall(k, rng);
                let ghost roll = choose|roll: u64| self@ == pre.proc_checked(roll);
                assert(self@ == pre.stepped(*k, Rolls { nightfall: roll, ..Rolls::unused() }));
            },
            Some(Event::PyroTick) => {
                self.tick_pyro();
                assert(self@ == pre.stepped(*k, Rolls::unused()));
            },
        }
    }
}

} // verus!
