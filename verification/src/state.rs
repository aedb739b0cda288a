//! The state of one trial: the clock, the target's debuffs, one lane of
//! countdowns per mage, and the running totals.
//!
//! Every type with a vector in it has a view that holds the same data as
//! mathematical sequences; the rules of the simulation are functions of those
//! views (see [`crate::mechanics`]).

use vstd::prelude::*;
use crate::constants::{Action, Spell, DRAGONLING_DURATION};
use crate::orchestration::{DamageAccumulator, LogEntry, LogType, SpellResult};
use crate::schedule::{first_soonest, lemma_first_soonest, lemma_soonest_is_lower_bound, soonest};
use crate::units::{scaled, Timer, HORIZON};

verus! {

/// Damage dealt so far, in billionths of a point.
#[derive(Debug, Clone, Copy)]
pub struct Totals {
    /// Direct damage of all mages.
    pub total_damage: u64,
    /// The part credited to the mages under study only.
    pub player_damage: u64,
    /// Damage of Ignite ticks, kept apart from direct damage.
    pub ignite_damage: u64,
    pub crit_damage: u64,
}

impl Default for Totals {
    fn default() -> (r: Totals)
        ensures
            r == (Totals { total_damage: 0, player_damage: 0, ignite_damage: 0, crit_damage: 0 }),
    {
        Totals { total_damage: 0, player_damage: 0, ignite_damage: 0, crit_damage: 0 }
    }
}

/// The clock of a trial.
#[derive(Debug, Clone, Copy)]
pub struct Global {
    /// Ticks since the trial began.
    pub running_time: i64,
    /// Length of the trial.
    pub duration: i64,
    /// Set while the scheduler waits for some mage's next action.
    pub decision_gate: bool,
}

impl Global {
    /// The clock of a trial of the given length that has not begun.
    pub fn new(duration: i64) -> (r: Global)
        ensures
            r == (Global { running_time: 0, duration, decision_gate: false }),
    {
        Global { running_time: 0, duration, decision_gate: false }
    }
}

/// Debuffs and periodic effects on the target.
#[derive(Debug, Clone)]
pub struct Boss {
    pub ignite_timer: Timer,
    pub ignite_count: u8,
    /// Damage of one Ignite tick before multipliers.
    pub ignite_value: u64,
    /// Multiplier frozen when the running Ignite was first applied.
    pub ignite_multiplier: u64,
    /// Time to the next Ignite tick.
    pub tick_timer: Timer,
    pub scorch_timer: Timer,
    pub scorch_count: u8,
    /// Time left on the spell vulnerability opened by a Nightfall proc.
    pub spell_vulnerability: Timer,
    /// Clock reading at which the dragonling's debuff lands, if ever.
    pub dragonling_start: Timer,
    /// Time to the next proc check of each Nightfall wielder.
    pub nightfall: Vec<Timer>,
    /// Clock readings at which a running debuff was refreshed, oldest first.
    pub scorch_refresh_history: Vec<i64>,
    pub ignite_refresh_history: Vec<i64>,
}

pub struct BossView {
    pub ignite_timer: Timer,
    pub ignite_count: u8,
    pub ignite_value: u64,
    pub ignite_multiplier: u64,
    pub tick_timer: Timer,
    pub scorch_timer: Timer,
    pub scorch_count: u8,
    pub spell_vulnerability: Timer,
    pub dragonling_start: Timer,
    pub nightfall: Seq<Timer>,
    pub scorch_refresh_history: Seq<i64>,
    pub ignite_refresh_history: Seq<i64>,
}

impl View for Boss {
    type V = BossView;

    open spec fn view(&self) -> BossView {
        BossView {
            ignite_timer: self.ignite_timer,
            ignite_count: self.ignite_count,
            ignite_value: self.ignite_value,
            ignite_multiplier: self.ignite_multiplier,
            tick_timer: self.tick_timer,
            scorch_timer: self.scorch_timer,
            scorch_count: self.scorch_count,
            spell_vulnerability: self.spell_vulnerability,
            dragonling_start: self.dragonling_start,
            nightfall: self.nightfall@,
            scorch_refresh_history: self.scorch_refresh_history@,
            ignite_refresh_history: self.ignite_refresh_history@,
        }
    }
}

impl BossView {
    /// A target without debuffs.
    pub open spec fn fresh() -> BossView {
        BossView {
            ignite_timer: Timer::In(0),
            ignite_count: 0,
            ignite_value: 0,
            ignite_multiplier: 1_000_000,
            tick_timer: Timer::Never,
            scorch_timer: Timer::In(0),
            scorch_count: 0,
            spell_vulnerability: Timer::In(0),
            dragonling_start: Timer::In((-DRAGONLING_DURATION) as i64),
            nightfall: Seq::empty(),
            scorch_refresh_history: Seq::empty(),
            ignite_refresh_history: Seq::empty(),
        }
    }

    /// Whether the dragonling's debuff is on the target at `clock`.
    pub open spec fn dragonling_active(self, clock: int) -> bool {
        match self.dragonling_start {
            Timer::Never => false,
            Timer::In(start) => start <= clock < start + DRAGONLING_DURATION,
        }
    }

    pub open spec fn after(self, dt: int) -> BossView {
        BossView {
            ignite_timer: self.ignite_timer.after(dt),
            tick_timer: self.tick_timer.after(dt),
            scorch_timer: self.scorch_timer.after(dt),
            spell_vulnerability: self.spell_vulnerability.after(dt),
            nightfall: Seq::new(self.nightfall.len(), |i: int| self.nightfall[i].after(dt)),
            ..self
        }
    }

    /// The invariant of the target: every countdown is representable, and
    /// no tick or proc check lies in the past.
    pub open spec fn wf(self, clock: int) -> bool {
        &&& self.ignite_timer.within(clock)
        &&& self.tick_timer.within(clock)
        &&& self.tick_timer.pending()
        &&& self.scorch_timer.within(clock)
        &&& self.spell_vulnerability.within(clock)
        &&& forall|i: int|
            0 <= i < self.nightfall.len() ==> (#[trigger] self.nightfall[i]).within(clock)
                && self.nightfall[i].pending()
    }
}

impl Default for Boss {
    fn default() -> (r: Boss)
        ensures
            r@ == BossView::fresh(),
    {
        Boss {
            ignite_timer: Timer::In(0),
            ignite_count: 0,
            ignite_value: 0,
            ignite_multiplier: 1_000_000,
            tick_timer: Timer::Never,
            scorch_timer: Timer::In(0),
            scorch_count: 0,
            spell_vulnerability: Timer::In(0),
            dragonling_start: Timer::In(-DRAGONLING_DURATION),
            nightfall: Vec::new(),
            scorch_refresh_history: Vec::new(),
            ignite_refresh_history: Vec::new(),
        }
    }
}

/// The countdowns and counters of one mage.
#[derive(Debug, Clone, Copy)]
pub struct MageLane {
    /// The action being cast, done when `cast_timer` runs out.
    pub cast_type: Action,
    /// Spells in flight; a slot is free while its timer is `Never`.
    pub spell_type: [Spell; 4],
    pub cast_timer: Timer,
    pub spell_timer: [Timer; 4],
    /// Global cooldown left over once the running cast ends.
    pub gcd_timer: Timer,
    pub fb_cooldown: Timer,
    /// Fire spells landed since Combustion was used.
    pub comb_stack: u8,
    /// Charges of Combustion left.
    pub comb_left: u8,
    pub comb_cooldown: Timer,
    pub buff_timer: [Timer; 4],
    pub buff_cooldown: [Timer; 4],
    /// Spells landed under each damage trinket since it was used.
    pub buff_ticks: [u32; 3],
    pub pi_timer: [Timer; 4],
    pub pi_cooldown: [Timer; 4],
    pub berserk_timer: Timer,
    pub berserk_cooldown: Timer,
    /// Time to the next tick of the Pyroblast burn.
    pub pyro_timer: Timer,
    pub pyro_count: u8,
    pub pyro_value: u64,
    pub crit_too_late: bool,
    pub hit_chance: u64,
    pub crit_chance: u64,
    pub spell_power: u64,
    /// Casts completed, counted from -1.
    pub cast_number: i32,
    pub damage: u64,
}

impl MageLane {
    /// A mage who has not acted yet and owns no trinket.
    pub open spec fn fresh() -> MageLane {
        MageLane {
            cast_type: Action::Gcd,
            spell_type: [Spell::Scorch, Spell::Scorch, Spell::Scorch, Spell::Scorch],
            cast_timer: Timer::Never,
            spell_timer: [Timer::Never, Timer::Never, Timer::Never, Timer::Never],
            gcd_timer: Timer::In(0),
            fb_cooldown: Timer::In(0),
            comb_stack: 0,
            comb_left: 0,
            comb_cooldown: Timer::In(0),
            buff_timer: [Timer::In(0), Timer::In(0), Timer::In(0), Timer::In(0)],
            buff_cooldown: [Timer::Never, Timer::Never, Timer::Never, Timer::Never],
            buff_ticks: [0, 0, 0],
            pi_timer: [Timer::In(0), Timer::In(0), Timer::In(0), Timer::In(0)],
            pi_cooldown: [Timer::Never, Timer::Never, Timer::Never, Timer::Never],
            berserk_timer: Timer::In(0),
            berserk_cooldown: Timer::Never,
            pyro_timer: Timer::Never,
            pyro_count: 0,
            pyro_value: 0,
            crit_too_late: false,
            hit_chance: 990_000,
            crit_chance: 62_000,
            spell_power: 0,
            cast_number: -1i32,
            damage: 0,
        }
    }

    /// The four countdowns of `row` after `dt` ticks.
    pub open spec fn row_after(row: [Timer; 4], dt: int) -> [Timer; 4] {
        [row[0].after(dt), row[1].after(dt), row[2].after(dt), row[3].after(dt)]
    }

    /// The lane after `dt` ticks.  The Pyroblast burn only runs where the
    /// target takes any number of debuffs.
    pub open spec fn after(self, dt: int, burns: bool) -> MageLane {
        MageLane {
            cast_timer: self.cast_timer.after(dt),
            spell_timer: Self::row_after(self.spell_timer, dt),
            gcd_timer: self.gcd_timer.after(dt),
            comb_cooldown: self.comb_cooldown.after(dt),
            fb_cooldown: self.fb_cooldown.after(dt),
            buff_timer: Self::row_after(self.buff_timer, dt),
            buff_cooldown: Self::row_after(self.buff_cooldown, dt),
            pi_timer: Self::row_after(self.pi_timer, dt),
            pi_cooldown: Self::row_after(self.pi_cooldown, dt),
            berserk_cooldown: self.berserk_cooldown.after(dt),
            berserk_timer: self.berserk_timer.after(dt),
            pyro_timer: if burns {
                self.pyro_timer.after(dt)
            } else {
                self.pyro_timer
            },
            ..self
        }
    }

    pub open spec fn row_within(row: [Timer; 4], clock: int) -> bool {
        forall|j: int| 0 <= j < 4 ==> (#[trigger] row[j]).within(clock)
    }

    /// The invariant of a lane: every countdown is representable, no cast
    /// end, impact or burn tick lies in the past, and a burn that is
    /// scheduled has a tick left.
    pub open spec fn wf(self, clock: int) -> bool {
        &&& self.cast_timer.within(clock)
        &&& self.cast_timer.pending()
        &&& Self::row_within(self.spell_timer, clock)
        &&& forall|j: int| 0 <= j < 4 ==> (#[trigger] self.spell_timer[j]).pending()
        &&& self.gcd_timer.within(clock)
        &&& self.fb_cooldown.within(clock)
        &&& self.comb_cooldown.within(clock)
        &&& Self::row_within(self.buff_timer, clock)
        &&& Self::row_within(self.buff_cooldown, clock)
        &&& Self::row_within(self.pi_timer, clock)
        &&& Self::row_within(self.pi_cooldown, clock)
        &&& self.berserk_timer.within(clock)
        &&& self.berserk_cooldown.within(clock)
        &&& self.pyro_timer.within(clock)
        &&& self.pyro_timer.pending()
        &&& (self.pyro_timer is In ==> self.pyro_count >= 1)
    }

    /// Four countdowns as a row.
    pub open spec fn row(row: [Timer; 4]) -> spec_fn(int) -> Timer {
        |j: int| row[j]
    }

    /// The spell slots as a row of countdowns.
    pub open spec fn slots(self) -> spec_fn(int) -> Timer {
        Self::row(self.spell_timer)
    }

    /// Time to this mage's next impact.
    pub open spec fn spec_landing_due(self) -> Timer {
        soonest(self.slots(), 4)
    }

    /// The slot whose spell lands next.
    pub open spec fn spec_next_slot(self) -> int {
        first_soonest(self.slots(), 4)
    }

    /// The first free spell slot, if any.
    pub open spec fn spec_free_slot(self) -> Option<int> {
        if self.spell_timer[0] is Never {
            Some(0int)
        } else if self.spell_timer[1] is Never {
            Some(1int)
        } else if self.spell_timer[2] is Never {
            Some(2int)
        } else if self.spell_timer[3] is Never {
            Some(3int)
        } else {
            None
        }
    }

    pub open spec fn pi_cooldowns(self) -> spec_fn(int) -> Timer {
        Self::row(self.pi_cooldown)
    }

    /// Whether any Power Infusion is running on the mage.
    pub open spec fn spec_has_power_infusion(self) -> bool {
        self.pi_timer[0].spec_is_active() || self.pi_timer[1].spec_is_active()
            || self.pi_timer[2].spec_is_active() || self.pi_timer[3].spec_is_active()
    }

    /// Position of the earliest countdown in a row of four, and the
    /// countdown itself.
    pub fn earliest_of(row: &[Timer; 4]) -> (r: (usize, Timer))
        ensures
            r.0 == first_soonest(Self::row(*row), 4),
            r.1 == soonest(Self::row(*row), 4),
            r.0 < 4,
            r.1 == row[r.0 as int],
    {
        let ghost f = Self::row(*row);
        let mut best: usize = 0;
        let mut i: usize = 1;
        proof {
            reveal_with_fuel(soonest, 2);
            lemma_first_soonest(f, 1);
        }
        while i < 4
            invariant
                1 <= i <= 4,
                best < i,
                f == Self::row(*row),
                best == first_soonest(f, i as int),
                row[best as int] == soonest(f, i as int),
            decreases 4 - i,
        {
            proof {
                lemma_first_soonest(f, i as int + 1);
            }
            if !row[best].at_most(row[i]) {
                best = i;
            }
            i += 1;
        }
        (best, row[best])
    }

    /// Whether any Power Infusion is running on the mage.
    #[verifier::when_used_as_spec(spec_has_power_infusion)]
    pub fn has_power_infusion(self) -> (r: bool)
        ensures
            r == self.spec_has_power_infusion(),
    {
        let r = self.pi_timer[0].is_active() || self.pi_timer[1].is_active()
            || self.pi_timer[2].is_active() || self.pi_timer[3].is_active();
        r
    }
}

impl Default for MageLane {
    fn default() -> (r: MageLane)
        ensures
            r == MageLane::fresh(),
    {
        let r = MageLane {
            cast_type: Action::Gcd,
            spell_type: [Spell::Scorch, Spell::Scorch, Spell::Scorch, Spell::Scorch],
            cast_timer: Timer::Never,
            spell_timer: [Timer::Never, Timer::Never, Timer::Never, Timer::Never],
            gcd_timer: Timer::In(0),
            fb_cooldown: Timer::In(0),
            comb_stack: 0,
            comb_left: 0,
            comb_cooldown: Timer::In(0),
            buff_timer: [Timer::In(0), Timer::In(0), Timer::In(0), Timer::In(0)],
            buff_cooldown: [Timer::Never, Timer::Never, Timer::Never, Timer::Never],
            buff_ticks: [0, 0, 0],
            pi_timer: [Timer::In(0), Timer::In(0), Timer::In(0), Timer::In(0)],
            pi_cooldown: [Timer::Never, Timer::Never, Timer::Never, Timer::Never],
            berserk_timer: Timer::In(0),
            berserk_cooldown: Timer::Never,
            pyro_timer: Timer::Never,
            pyro_count: 0,
            pyro_value: 0,
            crit_too_late: false,
            hit_chance: 990_000,
            crit_chance: 62_000,
            spell_power: 0,
            cast_number: -1,
            damage: 0,
        };
        proof {
            let f = MageLane::fresh();
            assert(r.spell_type =~= f.spell_type);
            assert(r.spell_timer =~= f.spell_timer);
            assert(r.buff_timer =~= f.buff_timer);
            assert(r.buff_cooldown =~= f.buff_cooldown);
            assert(r.buff_ticks =~= f.buff_ticks);
            assert(r.pi_timer =~= f.pi_timer);
            assert(r.pi_cooldown =~= f.pi_cooldown);
        }
        r
    }
}

/// The debuffs on the target at one moment, as a log entry keeps them.
#[derive(Debug, Clone, Copy)]
pub struct BossGlance {
    pub ignite_timer: Timer,
    pub ignite_count: u8,
    pub ignite_value: u64,
    pub ignite_multiplier: u64,
    pub scorch_timer: Timer,
    pub scorch_count: u8,
    pub spell_vulnerability: Timer,
}

impl BossView {
    pub open spec fn glance(self) -> BossGlance {
        BossGlance {
            ignite_timer: self.ignite_timer,
            ignite_count: self.ignite_count,
            ignite_value: self.ignite_value,
            ignite_multiplier: self.ignite_multiplier,
            scorch_timer: self.scorch_timer,
            scorch_count: self.scorch_count,
            spell_vulnerability: self.spell_vulnerability,
        }
    }
}

impl Boss {
    /// The debuffs on the target right now.
    pub fn glance(&self) -> (r: BossGlance)
        ensures
            r == self@.glance(),
    {
        BossGlance {
            ignite_timer: self.ignite_timer,
            ignite_count: self.ignite_count,
            ignite_value: self.ignite_value,
            ignite_multiplier: self.ignite_multiplier,
            scorch_timer: self.scorch_timer,
            scorch_count: self.scorch_count,
            spell_vulnerability: self.spell_vulnerability,
        }
    }

    /// Whether the dragonling's debuff is on the target at `clock`.
    pub fn dragonling_active(&self, clock: i64) -> (r: bool)
        ensures
            r == self@.dragonling_active(clock as int),
    {
        match self.dragonling_start {
            Timer::Never => false,
            Timer::In(start) => {
                start <= clock && (clock as i128) < (start as i128) + (DRAGONLING_DURATION as i128)
            },
        }
    }
}

/// What stays fixed during a trial: who has which raid-wide bonus, and the
/// encounter's own multipliers.  The lists hold lane numbers.
#[derive(Debug, Clone)]
pub struct PlayerMeta {
    /// Power Infusions available to each mage.
    pub pi_count: Vec<usize>,
    pub dmf_slots: Vec<usize>,
    pub sr_slots: Vec<usize>,
    pub ts_slots: Vec<usize>,
    pub cleaner_slots: Vec<usize>,
    /// Cast speed each mage gains from Berserking, in parts per million.
    pub berserk_slots: Vec<u64>,
    /// The mages under study.
    pub target_slots: Vec<usize>,
    /// Time between proc checks of each Nightfall wielder.
    pub nightfall_period: Vec<i64>,
    /// Multiplier the encounter puts on all direct damage.
    pub vulnerability: u64,
    /// Multiplier of the elemental curse on direct damage.
    pub coe: u64,
    /// Whether the target takes any number of debuffs.
    pub no_debuff_limit: bool,
    pub name: Vec<String>,
}

pub struct PlayerMetaView {
    pub pi_count: Seq<usize>,
    pub dmf_slots: Seq<usize>,
    pub sr_slots: Seq<usize>,
    pub ts_slots: Seq<usize>,
    pub cleaner_slots: Seq<usize>,
    pub berserk_slots: Seq<u64>,
    pub target_slots: Seq<usize>,
    pub nightfall_period: Seq<i64>,
    pub vulnerability: u64,
    pub coe: u64,
    pub no_debuff_limit: bool,
    pub name: Seq<String>,
}

impl View for PlayerMeta {
    type V = PlayerMetaView;

    open spec fn view(&self) -> PlayerMetaView {
        PlayerMetaView {
            pi_count: self.pi_count@,
            dmf_slots: self.dmf_slots@,
            sr_slots: self.sr_slots@,
            ts_slots: self.ts_slots@,
            cleaner_slots: self.cleaner_slots@,
            berserk_slots: self.berserk_slots@,
            target_slots: self.target_slots@,
            nightfall_period: self.nightfall_period@,
            vulnerability: self.vulnerability,
            coe: self.coe,
            no_debuff_limit: self.no_debuff_limit,
            name: self.name@,
        }
    }
}

impl PlayerMetaView {
    pub open spec fn fresh() -> PlayerMetaView {
        PlayerMetaView {
            pi_count: Seq::empty(),
            dmf_slots: Seq::empty(),
            sr_slots: Seq::empty(),
            ts_slots: Seq::empty(),
            cleaner_slots: Seq::empty(),
            berserk_slots: Seq::empty(),
            target_slots: Seq::empty(),
            nightfall_period: Seq::empty(),
            vulnerability: 0,
            coe: 0,
            no_debuff_limit: false,
            name: Seq::empty(),
        }
    }
}

impl Default for PlayerMeta {
    fn default() -> (r: PlayerMeta)
        ensures
            r@ == PlayerMetaView::fresh(),
    {
        PlayerMeta {
            pi_count: Vec::new(),
            dmf_slots: Vec::new(),
            sr_slots: Vec::new(),
            ts_slots: Vec::new(),
            cleaner_slots: Vec::new(),
            berserk_slots: Vec::new(),
            target_slots: Vec::new(),
            nightfall_period: Vec::new(),
            vulnerability: 0,
            coe: 0,
            no_debuff_limit: false,
            name: Vec::new(),
        }
    }
}

/// Whether `list` names lane `lane`.
pub fn lists_lane(list: &Vec<usize>, lane: usize) -> (r: bool)
    ensures
        r == list@.contains(lane),
{
    let mut i: usize = 0;
    while i < list.len()
        invariant
            i <= list@.len(),
            forall|j: int| 0 <= j < i ==> list@[j] != lane,
        decreases list@.len() - i,
    {
        if list[i] == lane {
            return true;
        }
        i += 1;
    }
    false
}

/// Everything that changes during one trial.
#[derive(Debug, Clone)]
pub struct State {
    pub global: Global,
    pub boss: Boss,
    pub lanes: Vec<MageLane>,
    pub meta: PlayerMeta,
    pub totals: Totals,
    /// Whether events go to `log` (else damage goes to `damage_log`).
    pub log_enabled: bool,
    pub log: Vec<LogEntry>,
    pub damage_log: Vec<DamageAccumulator>,
}

pub struct StateView {
    pub global: Global,
    pub boss: BossView,
    pub lanes: Seq<MageLane>,
    pub meta: PlayerMetaView,
    pub totals: Totals,
    pub log_enabled: bool,
    pub log: Seq<LogEntry>,
    pub damage_log: Seq<DamageAccumulator>,
}

impl View for State {
    type V = StateView;

    open spec fn view(&self) -> StateView {
        StateView {
            global: self.global,
            boss: self.boss@,
            lanes: self.lanes@,
            meta: self.meta@,
            totals: self.totals,
            log_enabled: self.log_enabled,
            log: self.log@,
            damage_log: self.damage_log@,
        }
    }
}

/// The share of an amount that was resisted, where the share `partial` got
/// through.
pub open spec fn lost_share(partial: u64) -> u64 {
    if partial < 1_000_000 {
        (1_000_000 - partial) as u64
    } else {
        0
    }
}

impl StateView {
    /// The state before anything has been set up: `num_mages` idle lanes, a
    /// target without debuffs, and a clock at zero.
    pub open spec fn fresh(duration: i64, num_mages: nat) -> StateView {
        StateView {
            global: Global { running_time: 0, duration, decision_gate: false },
            boss: BossView::fresh(),
            lanes: Seq::new(num_mages, |i: int| MageLane::fresh()),
            meta: PlayerMetaView::fresh(),
            totals: Totals { total_damage: 0, player_damage: 0, ignite_damage: 0, crit_damage: 0 },
            log_enabled: false,
            log: Seq::empty(),
            damage_log: Seq::empty(),
        }
    }

    pub open spec fn clock(self) -> int {
        self.global.running_time as int
    }

    /// Whether the trial has time left.
    pub open spec fn in_progress(self) -> bool {
        self.global.running_time < self.global.duration
    }

    /// Every countdown is representable and the clock has room for one more
    /// event.
    pub open spec fn bounded(self) -> bool {
        &&& 0 <= self.global.running_time <= 3 * HORIZON
        &&& self.global.duration <= HORIZON
        &&& self.boss.ignite_timer.within(self.clock())
        &&& self.boss.tick_timer.within(self.clock())
        &&& self.boss.scorch_timer.within(self.clock())
        &&& self.boss.spell_vulnerability.within(self.clock())
        &&& forall|i: int|
            0 <= i < self.boss.nightfall.len() ==> (#[trigger] self.boss.nightfall[i]).within(
                self.clock(),
            )
        &&& forall|i: int|
            0 <= i < self.lanes.len() ==> (#[trigger] self.lanes[i]).bounded(self.clock())
    }

    /// The invariant of a trial.  No event lies in the past, and no proc
    /// period is zero or less.
    pub open spec fn wf(self) -> bool {
        &&& 0 <= self.global.running_time <= 3 * HORIZON
        &&& self.global.duration <= HORIZON
        &&& self.boss.wf(self.clock())
        &&& forall|i: int|
            0 <= i < self.lanes.len() ==> (#[trigger] self.lanes[i]).wf(self.clock())
        &&& forall|i: int|
            0 <= i < self.meta.nightfall_period.len() ==> 0 < #[trigger] self.meta.nightfall_period[i]
                <= HORIZON
    }

    /// Whether every proc source has a period to be armed with again.
    pub open spec fn every_source_has_a_period(self) -> bool {
        self.meta.nightfall_period.len() >= self.boss.nightfall.len()
    }

    /// The state after `dt` ticks in which nothing happened.
    pub open spec fn elapsed(self, dt: int) -> StateView {
        StateView {
            global: Global { running_time: (self.global.running_time + dt) as i64, ..self.global },
            boss: self.boss.after(dt),
            lanes: Seq::new(
                self.lanes.len(),
                |i: int| self.lanes[i].after(dt, self.meta.no_debuff_limit),
            ),
            ..self
        }
    }

    pub open spec fn cast_timers(self) -> spec_fn(int) -> Timer {
        |i: int| self.lanes[i].cast_timer
    }

    pub open spec fn landing_timers(self) -> spec_fn(int) -> Timer {
        |i: int| self.lanes[i].spec_landing_due()
    }

    pub open spec fn pyro_timers(self) -> spec_fn(int) -> Timer {
        |i: int| self.lanes[i].pyro_timer
    }

    pub open spec fn proc_timers(self) -> spec_fn(int) -> Timer {
        |i: int| self.boss.nightfall[i]
    }

    /// Time to the end of the earliest cast.
    pub open spec fn cast_due(self) -> Timer {
        soonest(self.cast_timers(), self.lanes.len() as int)
    }

    /// Time to the earliest impact of a spell in flight.
    pub open spec fn landing_due(self) -> Timer {
        soonest(self.landing_timers(), self.lanes.len() as int)
    }

    /// Time to the next Ignite tick.
    pub open spec fn tick_due(self) -> Timer {
        self.boss.tick_timer
    }

    /// Time to the earliest Nightfall proc check.
    pub open spec fn proc_due(self) -> Timer {
        soonest(self.proc_timers(), self.boss.nightfall.len() as int)
    }

    /// Time to the earliest tick of a Pyroblast burn.
    pub open spec fn pyro_due(self) -> Timer {
        soonest(self.pyro_timers(), self.lanes.len() as int)
    }

    /// The lane whose cast ends first; the lowest such lane on a tie.
    pub open spec fn next_cast_lane(self) -> int {
        first_soonest(self.cast_timers(), self.lanes.len() as int)
    }

    pub open spec fn next_spell_lane(self) -> int {
        first_soonest(self.landing_timers(), self.lanes.len() as int)
    }

    pub open spec fn next_pyro_lane(self) -> int {
        first_soonest(self.pyro_timers(), self.lanes.len() as int)
    }

    pub open spec fn next_proc_source(self) -> int {
        first_soonest(self.proc_timers(), self.boss.nightfall.len() as int)
    }

    /// Time to the next event of any kind.
    pub open spec fn next_due(self) -> Timer {
        self.cast_due().spec_earlier(self.landing_due()).spec_earlier(self.tick_due()).spec_earlier(
            self.proc_due(),
        ).spec_earlier(self.pyro_due())
    }

    /// The log entry of a cast by `lane`.
    pub open spec fn cast_entry(self, log_type: LogType, lane: int, action: Action) -> LogEntry {
        LogEntry {
            log_type,
            lane: Some(lane as usize),
            action: Some(action),
            spell: None,
            t: self.global.running_time,
            totals: self.totals,
            value: 0,
            value2: 0,
            spell_result: SpellResult::Unset,
            mage: Some(self.lanes[lane]),
            boss: self.boss.glance(),
            dragonling: self.boss.dragonling_active(self.clock()),
        }
    }

    /// The log entry of an Ignite tick of `value`, of which the share
    /// `partial` was not resisted.
    pub open spec fn tick_entry(self, value: u64, partial: u64) -> LogEntry {
        LogEntry {
            log_type: LogType::IgniteTick,
            lane: None,
            action: None,
            spell: None,
            t: self.global.running_time,
            totals: self.totals,
            value,
            value2: scaled(value, lost_share(partial)),
            spell_result: SpellResult::Hit,
            mage: None,
            boss: self.boss.glance(),
            dragonling: self.boss.dragonling_active(self.clock()),
        }
    }

    /// The log entry of a spell of `lane` that reached the target.
    pub open spec fn impact_entry(
        self,
        lane: int,
        spell: Spell,
        value: u64,
        partial: u64,
        result: SpellResult,
    ) -> LogEntry {
        LogEntry {
            log_type: LogType::SpellImpact,
            lane: Some(lane as usize),
            action: None,
            spell: Some(spell),
            t: self.global.running_time,
            totals: self.totals,
            value,
            value2: scaled(value, lost_share(partial)),
            spell_result: result,
            mage: Some(self.lanes[lane]),
            boss: self.boss.glance(),
            dragonling: self.boss.dragonling_active(self.clock()),
        }
    }

    pub open spec fn with_log(self, entry: LogEntry) -> StateView {
        StateView { log: self.log.push(entry), ..self }
    }

    pub open spec fn with_lane(self, lane: int, l: MageLane) -> StateView {
        StateView { lanes: self.lanes.update(lane, l), ..self }
    }
}

impl MageLane {
    /// Every countdown of the lane is representable.
    pub open spec fn bounded(self, clock: int) -> bool {
        &&& self.cast_timer.within(clock)
        &&& Self::row_within(self.spell_timer, clock)
        &&& self.gcd_timer.within(clock)
        &&& self.fb_cooldown.within(clock)
        &&& self.comb_cooldown.within(clock)
        &&& Self::row_within(self.buff_timer, clock)
        &&& Self::row_within(self.buff_cooldown, clock)
        &&& Self::row_within(self.pi_timer, clock)
        &&& Self::row_within(self.pi_cooldown, clock)
        &&& self.berserk_timer.within(clock)
        &&& self.berserk_cooldown.within(clock)
        &&& self.pyro_timer.within(clock)
    }

    fn row_elapse(row: &mut [Timer; 4], dt: i64, Ghost(clock): Ghost<int>)
        requires
            Self::row_within(*old(row), clock),
            0 <= clock <= 3 * HORIZON,
            0 <= dt <= 2 * HORIZON,
        ensures
            *final(row) == Self::row_after(*old(row), dt as int),
            Self::row_within(*final(row), clock + dt),
    {
        let ghost before = *row;
        assert(before[0].within(clock) && before[1].within(clock) && before[2].within(clock)
            && before[3].within(clock));
        row[0] = row[0].elapse(dt);
        row[1] = row[1].elapse(dt);
        row[2] = row[2].elapse(dt);
        row[3] = row[3].elapse(dt);
        assert(*row =~= Self::row_after(before, dt as int));
    }

    /// Lets `dt` ticks pass on every countdown of the lane.
    pub(crate) fn elapse(&mut self, dt: i64, burns: bool, Ghost(clock): Ghost<int>)
        requires
            old(self).bounded(clock),
            0 <= clock <= 3 * HORIZON,
            0 <= dt <= 2 * HORIZON,
        ensures
            *final(self) == old(self).after(dt as int, burns),
            final(self).bounded(clock + dt),
    {
        self.cast_timer = self.cast_timer.elapse(dt);
        Self::row_elapse(&mut self.spell_timer, dt, Ghost(clock));
        self.gcd_timer = self.gcd_timer.elapse(dt);
        self.comb_cooldown = self.comb_cooldown.elapse(dt);
        self.fb_cooldown = self.fb_cooldown.elapse(dt);
        Self::row_elapse(&mut self.buff_timer, dt, Ghost(clock));
        Self::row_elapse(&mut self.buff_cooldown, dt, Ghost(clock));
        Self::row_elapse(&mut self.pi_timer, dt, Ghost(clock));
        Self::row_elapse(&mut self.pi_cooldown, dt, Ghost(clock));
        self.berserk_cooldown = self.berserk_cooldown.elapse(dt);
        self.berserk_timer = self.berserk_timer.elapse(dt);
        if burns {
            self.pyro_timer = self.pyro_timer.elapse(dt);
        }
    }
}

impl State {
    /// A trial of the given length with `num_mages` idle mages.  It is well
    /// formed unless it is longer than the horizon.
    pub fn new(duration: i64, num_mages: usize) -> (r: State)
        ensures
            r@ == StateView::fresh(duration, num_mages as nat),
            duration <= HORIZON ==> r.wf(),
    {
        let mut lanes: Vec<MageLane> = Vec::new();
        let mut i: usize = 0;
        while i < num_mages
            invariant
                i <= num_mages,
                lanes@.len() == i,
                forall|j: int| 0 <= j < i ==> lanes@[j] == MageLane::fresh(),
            decreases num_mages - i,
        {
            lanes.push(MageLane::default());
            i += 1;
        }
        let r = State {
            global: Global::new(duration),
            boss: Boss::default(),
            lanes,
            meta: PlayerMeta::default(),
            totals: Totals::default(),
            log_enabled: false,
            log: Vec::new(),
            damage_log: Vec::new(),
        };
        assert(r@.lanes =~= StateView::fresh(duration, num_mages as nat).lanes);
        proof {
            if duration <= HORIZON {
                StateView::lemma_fresh_is_wf(duration, num_mages as nat);
            }
        }
        r
    }

    pub open spec fn wf(&self) -> bool {
        self@.wf()
    }

    /// Opens or closes the decision gate.
    pub fn set_decision_gate(&mut self, on: bool)
        ensures
            final(self)@ == (StateView {
                global: Global { decision_gate: on, ..old(self)@.global },
                ..old(self)@
            }),
    {
        self.global.decision_gate = on;
    }

    /// Whether the scheduler waits for a mage's next action.
    pub fn decision_gate(&self) -> (r: bool)
        ensures
            r == self@.global.decision_gate,
    {
        self.global.decision_gate
    }

    /// Whether the trial has time left.
    pub fn in_progress(&self) -> (r: bool)
        ensures
            r == self@.in_progress(),
    {
        self.global.running_time < self.global.duration
    }

    /// Lets `dt` ticks pass: the clock moves on and every countdown moves
    /// with it.
    #[verifier::loop_isolation(false)]
    pub fn subtime(&mut self, dt: i64)
        requires
            old(self)@.bounded(),
            0 <= dt <= 2 * HORIZON,
            old(self)@.global.running_time + dt <= 3 * HORIZON,
        ensures
            final(self)@ == old(self)@.elapsed(dt as int),
            final(self)@.bounded(),
    {
        let ghost pre = self@;
        let ghost clock = self.global.running_time as int;
        self.global.running_time += dt;
        self.boss.ignite_timer = self.boss.ignite_timer.elapse(dt);
        self.boss.tick_timer = self.boss.tick_timer.elapse(dt);
        self.boss.scorch_timer = self.boss.scorch_timer.elapse(dt);
        self.boss.spell_vulnerability = self.boss.spell_vulnerability.elapse(dt);
        let burns = self.meta.no_debuff_limit;
        let n = self.lanes.len();
        let mut i: usize = 0;
        let ghost mid = self@;
        while i < n
            invariant
                i <= n,
                self@ == (StateView { lanes: self.lanes@, ..mid }),
                n == pre.lanes.len(),
                self.lanes@.len() == n,
                0 <= clock <= 3 * HORIZON,
                0 <= dt <= 2 * HORIZON,
                burns == pre.meta.no_debuff_limit,
                forall|j: int| 0 <= j < i ==> self.lanes@[j] == (#[trigger] pre.lanes[j]).after(dt as int, burns),
                forall|j: int| 0 <= j < i ==> (#[trigger] self.lanes@[j]).bounded(clock + dt),
                forall|j: int| i <= j < n ==> self.lanes@[j] == pre.lanes[j],
                forall|j: int| 0 <= j < n ==> (#[trigger] pre.lanes[j]).bounded(clock),
            decreases n - i,
        {
            let mut l = self.lanes[i];
            assert(l == pre.lanes[i as int]);
            assert(pre.lanes[i as int].bounded(clock));
            l.elapse(dt, burns, Ghost(clock));
            self.lanes[i] = l;
            i += 1;
        }
        let m = self.boss.nightfall.len();
        let mut j: usize = 0;
        let ghost late = self@;
        while j < m
            invariant
                j <= m,
                self@ == (StateView {
                    boss: BossView { nightfall: self.boss.nightfall@, ..late.boss },
                    ..late
                }),
                m == pre.boss.nightfall.len(),
                self.boss.nightfall@.len() == m,
                0 <= clock <= 3 * HORIZON,
                0 <= dt <= 2 * HORIZON,
                forall|x: int| 0 <= x < j ==> self.boss.nightfall@[x] == (#[trigger] pre.boss.nightfall[x]).after(dt as int),
                forall|x: int| j <= x < m ==> self.boss.nightfall@[x] == pre.boss.nightfall[x],
                forall|x: int| 0 <= x < m ==> (#[trigger] pre.boss.nightfall[x]).within(clock),
            decreases m - j,
        {
            assert(self.boss.nightfall@[j as int] == pre.boss.nightfall[j as int]);
            assert(pre.boss.nightfall[j as int].within(clock));
            self.boss.nightfall[j] = self.boss.nightfall[j].elapse(dt);
            j += 1;
        }
        proof {
            let post = pre.elapsed(dt as int);
            assert(self@.lanes =~= post.lanes);
            assert(self@.boss.nightfall =~= post.boss.nightfall);
            assert(self@.boss == post.boss);
            assert(self@ == post);
        }
    }
}

impl StateView {
    /// No event is due before `next_due`.
    pub proof fn lemma_next_due_is_lower_bound(self)
        ensures
            self.next_due().spec_at_most(self.cast_due()),
            self.next_due().spec_at_most(self.landing_due()),
            self.next_due().spec_at_most(self.tick_due()),
            self.next_due().spec_at_most(self.proc_due()),
            self.next_due().spec_at_most(self.pyro_due()),
            forall|i: int|
                0 <= i < self.lanes.len() ==> self.next_due().spec_at_most(
                    (#[trigger] self.lanes[i]).cast_timer,
                ),
            forall|i: int|
                0 <= i < self.lanes.len() ==> self.next_due().spec_at_most(
                    (#[trigger] self.lanes[i]).pyro_timer,
                ),
            forall|i: int, j: int|
                0 <= i < self.lanes.len() && 0 <= j < 4 ==> self.next_due().spec_at_most(
                    #[trigger] self.lanes[i].spell_timer[j],
                ),
            forall|i: int|
                0 <= i < self.boss.nightfall.len() ==> self.next_due().spec_at_most(
                    #[trigger] self.boss.nightfall[i],
                ),
    {
        let n = self.lanes.len() as int;
        assert forall|i: int| 0 <= i < n implies self.next_due().spec_at_most(
            (#[trigger] self.lanes[i]).cast_timer,
        ) by {
            lemma_soonest_is_lower_bound(self.cast_timers(), n, i);
        }
        assert forall|i: int| 0 <= i < n implies self.next_due().spec_at_most(
            (#[trigger] self.lanes[i]).pyro_timer,
        ) by {
            lemma_soonest_is_lower_bound(self.pyro_timers(), n, i);
        }
        assert forall|i: int, j: int| 0 <= i < n && 0 <= j < 4 implies self.next_due().spec_at_most(
            #[trigger] self.lanes[i].spell_timer[j],
        ) by {
            lemma_soonest_is_lower_bound(self.landing_timers(), n, i);
            lemma_soonest_is_lower_bound(self.lanes[i].slots(), 4, j);
        }
        assert forall|i: int| 0 <= i < self.boss.nightfall.len() implies self.next_due().spec_at_most(
            #[trigger] self.boss.nightfall[i],
        ) by {
            lemma_soonest_is_lower_bound(self.proc_timers(), self.boss.nightfall.len() as int, i);
        }
    }

    /// Letting time pass up to the next event keeps the invariant: no
    /// countdown of an event drops below zero.
    pub proof fn lemma_elapsed_keeps_wf(self, dt: int)
        requires
            self.wf(),
            0 <= dt <= 2 * HORIZON,
            self.clock() + dt <= 3 * HORIZON,
            Timer::In(dt as i64).spec_at_most(self.next_due()),
        ensures
            self.elapsed(dt).wf(),
            self.elapsed(dt).bounded(),
    {
        self.lemma_next_due_is_lower_bound();
        let post = self.elapsed(dt);
        let clock = self.clock();
        assert forall|i: int| 0 <= i < post.lanes.len() implies (#[trigger] post.lanes[i]).wf(post.clock()) && post.lanes[i].bounded(post.clock()) by {
            let l = self.lanes[i];
            assert(l.wf(clock));
            assert(self.next_due().spec_at_most(l.cast_timer));
            assert(self.next_due().spec_at_most(l.pyro_timer));
            assert forall|j: int| 0 <= j < 4 implies (#[trigger] post.lanes[i].spell_timer[j]).pending()
                && post.lanes[i].spell_timer[j].within(post.clock()) by {
                assert(self.next_due().spec_at_most(self.lanes[i].spell_timer[j]));
                assert(l.spell_timer[j].within(clock));
                assert(l.spell_timer[j].pending());
            }
            assert forall|j: int| 0 <= j < 4 implies (#[trigger] post.lanes[i].buff_timer[j]).within(
                post.clock(),
            ) by {
                assert(l.buff_timer[j].within(clock));
            }
            assert forall|j: int| 0 <= j < 4 implies (#[trigger] post.lanes[i].buff_cooldown[j]).within(
                post.clock(),
            ) by {
                assert(l.buff_cooldown[j].within(clock));
            }
            assert forall|j: int| 0 <= j < 4 implies (#[trigger] post.lanes[i].pi_timer[j]).within(
                post.clock(),
            ) by {
                assert(l.pi_timer[j].within(clock));
            }
            assert forall|j: int| 0 <= j < 4 implies (#[trigger] post.lanes[i].pi_cooldown[j]).within(
                post.clock(),
            ) by {
                assert(l.pi_cooldown[j].within(clock));
            }
        }
        assert forall|i: int| 0 <= i < post.boss.nightfall.len() implies (
        #[trigger] post.boss.nightfall[i]).within(post.clock()) && post.boss.nightfall[i].pending() by {
            assert(self.boss.nightfall[i].within(clock));
            assert(self.next_due().spec_at_most(self.boss.nightfall[i]));
        }
    }

    /// A state as it is made is well formed, unless it is longer than the
    /// horizon.
    pub proof fn lemma_fresh_is_wf(duration: i64, num_mages: nat)
        requires
            duration <= HORIZON,
        ensures
            StateView::fresh(duration, num_mages).wf(),
    {
        let s = StateView::fresh(duration, num_mages);
        assert forall|i: int| 0 <= i < s.lanes.len() implies (#[trigger] s.lanes[i]).wf(s.clock()) by {
            assert(s.lanes[i] == MageLane::fresh());
        }
    }

    /// A well-formed state is bounded.
    pub proof fn lemma_wf_is_bounded(self)
        requires
            self.wf(),
        ensures
            self.bounded(),
    {
        assert forall|i: int| 0 <= i < self.lanes.len() implies (#[trigger] self.lanes[i]).bounded(
            self.clock(),
        ) by {
            assert(self.lanes[i].wf(self.clock()));
        }
    }
}

impl State {
    /// The lane whose cast timer is the earliest and that timer; lane 0 and
    /// `Never` when there are no lanes.
    pub(crate) fn earliest_cast(&self) -> (r: (usize, Timer))
        ensures
            r.1 == self@.cast_due(),
            self@.lanes.len() > 0 ==> r.0 == self@.next_cast_lane() && r.0 < self@.lanes.len()
                && r.1 == self@.lanes[r.0 as int].cast_timer,
            self@.lanes.len() == 0 ==> r.0 == 0,
    {
        let n = self.lanes.len();
        if n == 0 {
            return (0, Timer::Never);
        }
        let ghost f = self@.cast_timers();
        let mut best: usize = 0;
        let mut i: usize = 1;
        proof {
            reveal_with_fuel(soonest, 2);
            lemma_first_soonest(f, 1);
        }
        while i < n
            invariant
                1 <= i <= n,
                n == self.lanes@.len(),
                best < i,
                f == self@.cast_timers(),
                best == first_soonest(f, i as int),
                self.lanes@[best as int].cast_timer == soonest(f, i as int),
            decreases n - i,
        {
            proof {
                lemma_first_soonest(f, i as int + 1);
            }
            if !self.lanes[best].cast_timer.at_most(self.lanes[i].cast_timer) {
                best = i;
            }
            i += 1;
        }
        (best, self.lanes[best].cast_timer)
    }

    pub(crate) fn earliest_pyro(&self) -> (r: (usize, Timer))
        ensures
            r.1 == self@.pyro_due(),
            self@.lanes.len() > 0 ==> r.0 == self@.next_pyro_lane() && r.0 < self@.lanes.len()
                && r.1 == self@.lanes[r.0 as int].pyro_timer,
            self@.lanes.len() == 0 ==> r.0 == 0,
    {
        let n = self.lanes.len();
        if n == 0 {
            return (0, Timer::Never);
        }
        let ghost f = self@.pyro_timers();
        let mut best: usize = 0;
        let mut i: usize = 1;
        proof {
            reveal_with_fuel(soonest, 2);
            lemma_first_soonest(f, 1);
        }
        while i < n
            invariant
                1 <= i <= n,
                n == self.lanes@.len(),
                best < i,
                f == self@.pyro_timers(),
                best == first_soonest(f, i as int),
                self.lanes@[best as int].pyro_timer == soonest(f, i as int),
            decreases n - i,
        {
            proof {
                lemma_first_soonest(f, i as int + 1);
            }
            if !self.lanes[best].pyro_timer.at_most(self.lanes[i].pyro_timer) {
                best = i;
            }
            i += 1;
        }
        (best, self.lanes[best].pyro_timer)
    }

    pub(crate) fn earliest_landing(&self) -> (r: (usize, Timer))
        ensures
            r.1 == self@.landing_due(),
            self@.lanes.len() > 0 ==> r.0 == self@.next_spell_lane() && r.0 < self@.lanes.len()
                && r.1 == self@.lanes[r.0 as int].spec_landing_due(),
            self@.lanes.len() == 0 ==> r.0 == 0,
    {
        let n = self.lanes.len();
        if n == 0 {
            return (0, Timer::Never);
        }
        let ghost f = self@.landing_timers();
        let mut best: usize = 0;
        let mut due: Timer = MageLane::earliest_of(&self.lanes[0].spell_timer).1;
        let mut i: usize = 1;
        proof {
            reveal_with_fuel(soonest, 2);
            lemma_first_soonest(f, 1);
        }
        while i < n
            invariant
                1 <= i <= n,
                n == self.lanes@.len(),
                best < i,
                f == self@.landing_timers(),
                best == first_soonest(f, i as int),
                due == self.lanes@[best as int].spec_landing_due(),
                due == soonest(f, i as int),
            decreases n - i,
        {
            proof {
                lemma_first_soonest(f, i as int + 1);
            }
            let here = MageLane::earliest_of(&self.lanes[i].spell_timer).1;
            if !due.at_most(here) {
                best = i;
                due = here;
            }
            i += 1;
        }
        (best, due)
    }

    pub(crate) fn earliest_proc(&self) -> (r: (usize, Timer))
        ensures
            r.1 == self@.proc_due(),
            self@.boss.nightfall.len() > 0 ==> r.0 == self@.next_proc_source() && r.0
                < self@.boss.nightfall.len() && r.1 == self@.boss.nightfall[r.0 as int],
            self@.boss.nightfall.len() == 0 ==> r.0 == 0,
    {
        let n = self.boss.nightfall.len();
        if n == 0 {
            return (0, Timer::Never);
        }
        let ghost f = self@.proc_timers();
        let mut best: usize = 0;
        let mut i: usize = 1;
        proof {
            reveal_with_fuel(soonest, 2);
            lemma_first_soonest(f, 1);
        }
        while i < n
            invariant
                1 <= i <= n,
                n == self.boss.nightfall@.len(),
                best < i,
                f == self@.proc_timers(),
                best == first_soonest(f, i as int),
                self.boss.nightfall@[best as int] == soonest(f, i as int),
            decreases n - i,
        {
            proof {
                lemma_first_soonest(f, i as int + 1);
            }
            if !self.boss.nightfall[best].at_most(self.boss.nightfall[i]) {
                best = i;
            }
            i += 1;
        }
        (best, self.boss.nightfall[best])
    }

    /// The lane whose cast ends first, the lowest on a tie; none without
    /// lanes.
    pub fn next_cast_lane(&self) -> (r: Option<usize>)
        ensures
            self@.lanes.len() == 0 ==> r is None,
            self@.lanes.len() > 0 ==> r is Some && r->0 == self@.next_cast_lane(),
            r matches Some(i) ==> i < self@.lanes.len(),
    {
        if self.lanes.len() == 0 {
            None
        } else {
            Some(self.earliest_cast().0)
        }
    }

    /// The lane whose Pyroblast burn ticks first, the lowest on a tie.
    pub fn next_pyro_lane(&self) -> (r: Option<usize>)
        ensures
            self@.lanes.len() == 0 ==> r is None,
            self@.lanes.len() > 0 ==> r is Some && r->0 == self@.next_pyro_lane(),
            r matches Some(i) ==> i < self@.lanes.len(),
    {
        if self.lanes.len() == 0 {
            None
        } else {
            Some(self.earliest_pyro().0)
        }
    }

    /// The lane whose spell in flight lands first, the lowest on a tie.
    pub fn next_spell_lane(&self) -> (r: Option<usize>)
        ensures
            self@.lanes.len() == 0 ==> r is None,
            self@.lanes.len() > 0 ==> r is Some && r->0 == self@.next_spell_lane(),
            r matches Some(i) ==> i < self@.lanes.len(),
    {
        if self.lanes.len() == 0 {
            None
        } else {
            Some(self.earliest_landing().0)
        }
    }
}

} // verus!
