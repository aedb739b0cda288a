//! Setting a trial up, driving it, and the records it leaves behind.

use vstd::prelude::*;
use crate::constants::{
    Action, BossType, ConstantsConfig, ConsumeBuff, Racial, RaidBuff, Spell, WorldBuff,
    COE_MULTIPLIER, NUM_BUFFS, NUM_WORLD_BUFFS, THADDIUS_BUFF,
};
use crate::state::{BossGlance, BossView, Global, MageLane, PlayerMetaView, State, StateView, Totals};
use crate::units::{accrue, accrued, clamp_amount, scale_if, scaled_if, Timer, HORIZON};

verus! {

/// Damage per second of one trial, in billionths: of all mages, of Ignite,
/// and of the mages under study.
#[derive(Debug, Clone, Copy)]
pub struct SimResult {
    pub total_dps: u64,
    pub ignite_dps: u64,
    pub player_dps: u64,
}

/// How a spell that reached the target ended.
#[derive(Debug, Copy, Clone, PartialEq, Eq, Structural)]
pub enum SpellResult {
    Unset,
    Hit,
    Crit,
    Miss,
    Pending,
}

impl Default for SpellResult {
    fn default() -> (r: SpellResult)
        ensures
            r == SpellResult::Unset,
    {
        SpellResult::Unset
    }
}

/// What a log entry records.
#[derive(Debug, Copy, Clone, PartialEq, Eq, Structural)]
pub enum LogType {
    Unset,
    CastStart,
    CastSuccess,
    SpellImpact,
    IgniteTick,
    Debug,
    Wait,
}

impl Default for LogType {
    fn default() -> (r: LogType)
        ensures
            r == LogType::Unset,
    {
        LogType::Unset
    }
}

/// One line of the event log: what happened, when, to whom, and what the
/// mage and the target looked like right after.
#[derive(Debug, Clone, Copy)]
pub struct LogEntry {
    pub log_type: LogType,
    /// The mage concerned; none for an Ignite tick.
    pub lane: Option<usize>,
    /// The action cast, for a cast entry.
    pub action: Option<Action>,
    /// The spell that landed, for an impact entry.
    pub spell: Option<Spell>,
    /// Clock reading.
    pub t: i64,
    /// Running totals at that moment.
    pub totals: Totals,
    /// Damage dealt by the event.
    pub value: u64,
    /// The part of `value` lost to a partial resist.
    pub value2: u64,
    pub spell_result: SpellResult,
    pub mage: Option<MageLane>,
    pub boss: BossGlance,
    pub dragonling: bool,
}

/// One amount of damage and the clock reading at which it was dealt.
#[derive(Debug, Clone, Copy)]
pub struct DamageAccumulator {
    pub time: i64,
    pub damage: u64,
}

/// What each mage brings to the fight, by lane: spell power and intellect
/// in billionths, crit and hit chance in parts per million.
#[derive(Debug, Clone)]
pub struct Stats {
    pub spell_power: Vec<u64>,
    pub crit_chance: Vec<u64>,
    pub hit_chance: Vec<u64>,
    pub intellect: Vec<u64>,
}

/// Whether the list that `map` keeps under `key` names lane `idx`.
pub open spec fn spec_has_idx(map: Seq<Vec<usize>>, key: int, idx: usize) -> bool {
    0 <= key < map.len() && map[key]@.contains(idx)
}

/// Whether the list that `map` keeps under `key` names lane `idx`; a key
/// without a list names nobody.
pub fn has_idx(map: &Vec<Vec<usize>>, key: usize, idx: usize) -> (r: bool)
    ensures
        r == spec_has_idx(map@, key as int, idx),
{
    if key < map.len() {
        crate::state::lists_lane(&map[key], idx)
    } else {
        false
    }
}

/// Who has which buff.  Each table holds one list of lanes per buff, at the
/// buff's ordinal; the aura lists hold one count per lane.
#[derive(Debug, Clone)]
pub struct Buffs {
    pub consumes: Vec<Vec<usize>>,
    pub raid: Vec<Vec<usize>>,
    pub world: Vec<Vec<usize>>,
    pub boss: BossType,
    pub auras_mage_atiesh: Vec<usize>,
    pub auras_lock_atiesh: Vec<usize>,
    pub auras_boomkin: Vec<usize>,
    pub racial: Vec<Racial>,
    /// Cast speed each mage gains from Berserking, in parts per million.
    pub berserk: Vec<u64>,
}

/// Lengths, delays and reaction times, in ticks.
#[derive(Debug, Clone, Copy)]
pub struct Timing {
    pub duration_mean: i64,
    pub duration_sigma: i64,
    pub initial_delay: i64,
    pub recast_delay: i64,
    pub reaction_time: i64,
}

/// The make-up of the encounter.
#[derive(Debug, Clone)]
pub struct Configuration {
    pub num_mages: usize,
    /// The mages under study.
    pub target: Vec<usize>,
    pub vary: Vec<usize>,
    pub do_stat_weights: bool,
    pub no_debuff_limit: bool,
    /// One list of lanes per trinket, at the trinket's ordinal.
    pub buff_assignments: Vec<Vec<usize>>,
    pub pi_count: Vec<usize>,
    pub udc: Vec<usize>,
    pub t3_6p: Vec<usize>,
    /// Time between the proc checks of each Nightfall wielder.
    pub nightfall: Vec<i64>,
    /// Clock reading at which the dragonling's debuff lands, if ever.
    pub dragonling: Timer,
    pub boss: BossType,
    pub coe: bool,
    pub name: Vec<String>,
}

impl Configuration {
    /// An encounter without mages: no trinket is assigned, the target takes
    /// any number of debuffs and carries the curse.
    pub fn new() -> (r: Configuration)
        ensures
            r.num_mages == 0,
            r.target@.len() == 0,
            r.vary@.len() == 0,
            r.do_stat_weights,
            r.no_debuff_limit,
            r.buff_assignments@.len() == NUM_BUFFS,
            forall|b: int| 0 <= b < NUM_BUFFS ==> (#[trigger] r.buff_assignments@[b])@.len() == 0,
            r.pi_count@.len() == 0,
            r.udc@.len() == 0,
            r.t3_6p@.len() == 0,
            r.nightfall@.len() == 0,
            r.dragonling == Timer::Never,
            r.boss == BossType::Other,
            r.coe,
            r.name@.len() == 0,
    {
        let mut buff_assignments: Vec<Vec<usize>> = Vec::new();
        buff_assignments.push(Vec::new());
        buff_assignments.push(Vec::new());
        buff_assignments.push(Vec::new());
        buff_assignments.push(Vec::new());
        Configuration {
            num_mages: 0,
            target: Vec::new(),
            vary: Vec::new(),
            do_stat_weights: true,
            no_debuff_limit: true,
            buff_assignments,
            pi_count: Vec::new(),
            udc: Vec::new(),
            t3_6p: Vec::new(),
            nightfall: Vec::new(),
            dragonling: Timer::Never,
            boss: BossType::Other,
            coe: true,
            name: Vec::new(),
        }
    }
}

/// Everything a trial is set up from.
#[derive(Debug, Clone)]
pub struct SimParams {
    pub stats: Stats,
    pub buffs: Buffs,
    pub timing: Timing,
    pub config: Configuration,
    pub consts_cfg: ConstantsConfig,
}

/// `x` plus `amount` where `apply` holds, saturated.
pub open spec fn raised_if(apply: bool, x: u64, amount: u64) -> u64 {
    if apply {
        accrued(x, amount)
    } else {
        x
    }
}

fn raise_if(apply: bool, x: u64, amount: u64) -> (r: u64)
    ensures
        r == raised_if(apply, x, amount),
{
    if apply {
        accrue(x, amount)
    } else {
        x
    }
}

/// The count a per-lane list holds for lane `i`; zero where it holds none.
pub open spec fn count_at(list: Seq<usize>, i: int) -> usize {
    if 0 <= i < list.len() {
        list[i]
    } else {
        0
    }
}

fn count_of(list: &Vec<usize>, i: usize) -> (r: usize)
    ensures
        r == count_at(list@, i as int),
{
    if i < list.len() {
        list[i]
    } else {
        0
    }
}

/// `each` times `count`, saturated.
pub open spec fn times(each: u64, count: usize) -> u64 {
    clamp_amount(each * count)
}

fn times_of(each: u64, count: usize) -> (r: u64)
    ensures
        r == times(each, count),
{
    assert(each as int * count as int <= u64::MAX as int * u64::MAX as int) by (nonlinear_arith)
        requires
            0 <= each as int <= u64::MAX as int,
            0 <= count as int <= u64::MAX as int,
    ;
    assert(0 <= each as int * count as int) by (nonlinear_arith)
        requires
            0 <= each as int,
            0 <= count as int,
    ;
    let wide: u128 = (each as u128) * (count as u128);
    if wide > u64::MAX as u128 {
        u64::MAX
    } else {
        wide as u64
    }
}

impl Buffs {
    /// Intellect of mage `i` with buffs: the race's own intellect and the
    /// flat bonuses are added first, then the multipliers of Kings, of
    /// Zandalar and of the race apply in that order.
    pub open spec fn intellect_of(&self, i: int, base: u64) -> u64 {
        let lane = i as usize;
        let x = accrued(base, self.racial@[i].spec_base_intellect());
        let x = raised_if(spec_has_idx(self.raid@, RaidBuff::ArcaneIntellect.ordinal(), lane), x, 31_000_000_000);
        let x = raised_if(spec_has_idx(self.raid@, RaidBuff::ImprovedMark.ordinal(), lane), x, 16_200_000_000);
        let x = raised_if(
            spec_has_idx(self.consumes@, ConsumeBuff::StormwindGiftOfFriendship.ordinal(), lane),
            x,
            30_000_000_000,
        );
        let x = raised_if(
            spec_has_idx(self.consumes@, ConsumeBuff::InfallibleMind.ordinal(), lane),
            x,
            25_000_000_000,
        );
        let x = raised_if(
            spec_has_idx(self.consumes@, ConsumeBuff::RunnTumTuberSurprise.ordinal(), lane),
            x,
            10_000_000_000,
        );
        let x = raised_if(
            spec_has_idx(self.world@, WorldBuff::SongflowerSerenade.ordinal(), lane),
            x,
            15_000_000_000,
        );
        let x = scaled_if(spec_has_idx(self.raid@, RaidBuff::BlessingOfKings.ordinal(), lane), x, 1_100_000);
        let x = scaled_if(spec_has_idx(self.world@, WorldBuff::SpiritOfZandalar.ordinal(), lane), x, 1_150_000);
        crate::units::scaled(x, self.racial@[i].spec_intellect_multiplier())
    }

    /// Spell power of mage `i` with consumables and the warlock's staff.
    pub open spec fn spell_power_of(&self, i: int, base: u64) -> u64 {
        let lane = i as usize;
        let x = raised_if(
            spec_has_idx(self.consumes@, ConsumeBuff::GreaterArcaneElixir.ordinal(), lane),
            base,
            35_000_000_000,
        );
        let x = raised_if(
            spec_has_idx(self.consumes@, ConsumeBuff::ElixirOfGreaterFirepower.ordinal(), lane),
            x,
            40_000_000_000,
        );
        let x = raised_if(
            spec_has_idx(self.consumes@, ConsumeBuff::FlaskOfSupremePower.ordinal(), lane),
            x,
            150_000_000_000,
        );
        let x = raised_if(
            spec_has_idx(self.consumes@, ConsumeBuff::BlessedWizardOil.ordinal(), lane),
            x,
            60_000_000_000,
        );
        let x = raised_if(
            spec_has_idx(self.consumes@, ConsumeBuff::BrilliantWizardOil.ordinal(), lane),
            x,
            36_000_000_000,
        );
        let x = raised_if(
            spec_has_idx(self.consumes@, ConsumeBuff::VeryBerryCream.ordinal(), lane),
            x,
            23_000_000_000,
        );
        accrued(x, times(33_000_000_000, count_at(self.auras_lock_atiesh@, i)))
    }

    /// Crit chance of mage `i` with buffs, given the mage's buffed
    /// intellect; never more than certain.
    pub open spec fn crit_chance_of(&self, i: int, base: u64, intellect: u64) -> u64 {
        let lane = i as usize;
        let x = accrued(base, 62_000);
        let x = raised_if(
            spec_has_idx(self.consumes@, ConsumeBuff::BrilliantWizardOil.ordinal(), lane),
            x,
            10_000,
        );
        let x = raised_if(
            spec_has_idx(self.world@, WorldBuff::RallyingCryOfTheDragonslayer.ordinal(), lane),
            x,
            100_000,
        );
        let x = raised_if(
            spec_has_idx(self.world@, WorldBuff::SongflowerSerenade.ordinal(), lane),
            x,
            50_000,
        );
        let x = raised_if(spec_has_idx(self.world@, WorldBuff::DireMaulTribute.ordinal(), lane), x, 30_000);
        let x = accrued(x, intellect / 5_950_000);
        let x = raised_if(self.boss == BossType::Loatheb, x, 600_000);
        let x = accrued(x, times(20_000, count_at(self.auras_mage_atiesh@, i)));
        let x = accrued(x, times(30_000, count_at(self.auras_boomkin@, i)));
        if x > 1_000_000 {
            1_000_000
        } else {
            x
        }
    }

    fn intellect_for(&self, i: usize, base: u64) -> (r: u64)
        requires
            i < self.racial@.len(),
        ensures
            r == self.intellect_of(i as int, base),
    {
        let x = accrue(base, self.racial[i].base_intellect());
        let x = raise_if(has_idx(&self.raid, RaidBuff::ArcaneIntellect.index(), i), x, 31_000_000_000);
        let x = raise_if(has_idx(&self.raid, RaidBuff::ImprovedMark.index(), i), x, 16_200_000_000);
        let x = raise_if(
            has_idx(&self.consumes, ConsumeBuff::StormwindGiftOfFriendship.index(), i),
            x,
            30_000_000_000,
        );
        let x = raise_if(has_idx(&self.consumes, ConsumeBuff::InfallibleMind.index(), i), x, 25_000_000_000);
        let x = raise_if(
            has_idx(&self.consumes, ConsumeBuff::RunnTumTuberSurprise.index(), i),
            x,
            10_000_000_000,
        );
        let x = raise_if(has_idx(&self.world, WorldBuff::SongflowerSerenade.index(), i), x, 15_000_000_000);
        let x = scale_if(has_idx(&self.raid, RaidBuff::BlessingOfKings.index(), i), x, 1_100_000);
        let x = scale_if(has_idx(&self.world, WorldBuff::SpiritOfZandalar.index(), i), x, 1_150_000);
        crate::units::scale(x, self.racial[i].intellect_multiplier())
    }

    fn spell_power_for(&self, i: usize, base: u64) -> (r: u64)
        ensures
            r == self.spell_power_of(i as int, base),
    {
        let x = raise_if(has_idx(&self.consumes, ConsumeBuff::GreaterArcaneElixir.index(), i), base, 35_000_000_000);
        let x = raise_if(
            has_idx(&self.consumes, ConsumeBuff::ElixirOfGreaterFirepower.index(), i),
            x,
            40_000_000_000,
        );
        let x = raise_if(
            has_idx(&self.consumes, ConsumeBuff::FlaskOfSupremePower.index(), i),
            x,
            150_000_000_000,
        );
        let x = raise_if(has_idx(&self.consumes, ConsumeBuff::BlessedWizardOil.index(), i), x, 60_000_000_000);
        let x = raise_if(has_idx(&self.consumes, ConsumeBuff::BrilliantWizardOil.index(), i), x, 36_000_000_000);
        let x = raise_if(has_idx(&self.consumes, ConsumeBuff::VeryBerryCream.index(), i), x, 23_000_000_000);
        accrue(x, times_of(33_000_000_000, count_of(&self.auras_lock_atiesh, i)))
    }

    fn crit_chance_for(&self, i: usize, base: u64, intellect: u64) -> (r: u64)
        ensures
            r == self.crit_chance_of(i as int, base, intellect),
    {
        let x = accrue(base, 62_000);
        let x = raise_if(has_idx(&self.consumes, ConsumeBuff::BrilliantWizardOil.index(), i), x, 10_000);
        let x = raise_if(
            has_idx(&self.world, WorldBuff::RallyingCryOfTheDragonslayer.index(), i),
            x,
            100_000,
        );
        let x = raise_if(has_idx(&self.world, WorldBuff::SongflowerSerenade.index(), i), x, 50_000);
        let x = raise_if(has_idx(&self.world, WorldBuff::DireMaulTribute.index(), i), x, 30_000);
        let x = accrue(x, intellect / 5_950_000);
        let x = raise_if(self.boss == BossType::Loatheb, x, 600_000);
        let x = accrue(x, times_of(20_000, count_of(&self.auras_mage_atiesh, i)));
        let x = accrue(x, times_of(30_000, count_of(&self.auras_boomkin, i)));
        if x > 1_000_000 {
            1_000_000
        } else {
            x
        }
    }
}

/// Hit chance with the base chance added, capped at 99 in a hundred.
pub open spec fn hit_chance_of(base: u64) -> u64 {
    if accrued(base, 890_000) > 990_000 {
        990_000
    } else {
        accrued(base, 890_000)
    }
}

/// Works the buffs into the stats: intellect first, then spell power, then
/// crit chance (which counts the buffed intellect), then hit chance.
pub fn apply_buffs(stats: &mut Stats, buffs: &Buffs)
    requires
        buffs.racial@.len() >= old(stats).intellect@.len(),
        old(stats).intellect@.len() >= old(stats).crit_chance@.len(),
    ensures
        final(stats).intellect@.len() == old(stats).intellect@.len(),
        final(stats).spell_power@.len() == old(stats).spell_power@.len(),
        final(stats).crit_chance@.len() == old(stats).crit_chance@.len(),
        final(stats).hit_chance@.len() == old(stats).hit_chance@.len(),
        forall|i: int|
            0 <= i < old(stats).intellect@.len() ==> #[trigger] final(stats).intellect@[i]
                == buffs.intellect_of(i, old(stats).intellect@[i]),
        forall|i: int|
            0 <= i < old(stats).spell_power@.len() ==> #[trigger] final(stats).spell_power@[i]
                == buffs.spell_power_of(i, old(stats).spell_power@[i]),
        forall|i: int|
            0 <= i < old(stats).crit_chance@.len() ==> #[trigger] final(stats).crit_chance@[i]
                == buffs.crit_chance_of(
                i,
                old(stats).crit_chance@[i],
                buffs.intellect_of(i, old(stats).intellect@[i]),
            ),
        forall|i: int|
            0 <= i < old(stats).hit_chance@.len() ==> #[trigger] final(stats).hit_chance@[i]
                == hit_chance_of(old(stats).hit_chance@[i]),
{
    let ghost before = *stats;
    let mut i: usize = 0;
    while i < stats.intellect.len()
        invariant
            i <= stats.intellect@.len(),
            buffs.racial@.len() >= stats.intellect@.len(),
            stats.intellect@.len() == before.intellect@.len(),
            stats.spell_power@ == before.spell_power@,
            stats.crit_chance@ == before.crit_chance@,
            stats.hit_chance@ == before.hit_chance@,
            forall|j: int|
                0 <= j < i ==> #[trigger] stats.intellect@[j] == buffs.intellect_of(
                    j,
                    before.intellect@[j],
                ),
            forall|j: int| i <= j < stats.intellect@.len() ==> stats.intellect@[j] == before.intellect@[j],
        decreases stats.intellect@.len() - i,
    {
        let x = buffs.intellect_for(i, stats.intellect[i]);
        stats.intellect[i] = x;
        i += 1;
    }
    let mut i: usize = 0;
    while i < stats.spell_power.len()
        invariant
            i <= stats.spell_power@.len(),
            stats.spell_power@.len() == before.spell_power@.len(),
            stats.intellect@.len() == before.intellect@.len(),
            stats.crit_chance@ == before.crit_chance@,
            stats.hit_chance@ == before.hit_chance@,
            forall|j: int|
                0 <= j < stats.intellect@.len() ==> #[trigger] stats.intellect@[j]
                    == buffs.intellect_of(j, before.intellect@[j]),
            forall|j: int|
                0 <= j < i ==> #[trigger] stats.spell_power@[j] == buffs.spell_power_of(
                    j,
                    before.spell_power@[j],
                ),
            forall|j: int|
                i <= j < stats.spell_power@.len() ==> stats.spell_power@[j] == before.spell_power@[j],
        decreases stats.spell_power@.len() - i,
    {
        let x = buffs.spell_power_for(i, stats.spell_power[i]);
        stats.spell_power[i] = x;
        i += 1;
    }
    let mut i: usize = 0;
    while i < stats.crit_chance.len()
        invariant
            i <= stats.crit_chance@.len(),
            stats.crit_chance@.len() == before.crit_chance@.len(),
            stats.intellect@.len() == before.intellect@.len(),
            stats.intellect@.len() >= stats.crit_chance@.len(),
            stats.spell_power@.len() == before.spell_power@.len(),
            stats.hit_chance@ == before.hit_chance@,
            forall|j: int|
                0 <= j < stats.intellect@.len() ==> #[trigger] stats.intellect@[j]
                    == buffs.intellect_of(j, before.intellect@[j]),
            forall|j: int|
                0 <= j < stats.spell_power@.len() ==> #[trigger] stats.spell_power@[j]
                    == buffs.spell_power_of(j, before.spell_power@[j]),
            forall|j: int|
                0 <= j < i ==> #[trigger] stats.crit_chance@[j] == buffs.crit_chance_of(
                    j,
                    before.crit_chance@[j],
                    buffs.intellect_of(j, before.intellect@[j]),
                ),
            forall|j: int|
                i <= j < stats.crit_chance@.len() ==> stats.crit_chance@[j] == before.crit_chance@[j],
        decreases stats.crit_chance@.len() - i,
    {
        let x = buffs.crit_chance_for(i, stats.crit_chance[i], stats.intellect[i]);
        stats.crit_chance[i] = x;
        i += 1;
    }
    let mut i: usize = 0;
    while i < stats.hit_chance.len()
        invariant
            i <= stats.hit_chance@.len(),
            stats.hit_chance@.len() == before.hit_chance@.len(),
            stats.intellect@.len() == before.intellect@.len(),
            stats.spell_power@.len() == before.spell_power@.len(),
            stats.crit_chance@.len() == before.crit_chance@.len(),
            forall|j: int|
                0 <= j < stats.intellect@.len() ==> #[trigger] stats.intellect@[j]
                    == buffs.intellect_of(j, before.intellect@[j]),
            forall|j: int|
                0 <= j < stats.spell_power@.len() ==> #[trigger] stats.spell_power@[j]
                    == buffs.spell_power_of(j, before.spell_power@[j]),
            forall|j: int|
                0 <= j < stats.crit_chance@.len() ==> #[trigger] stats.crit_chance@[j]
                    == buffs.crit_chance_of(
                    j,
                    before.crit_chance@[j],
                    buffs.intellect_of(j, before.intellect@[j]),
                ),
            forall|j: int|
                0 <= j < i ==> #[trigger] stats.hit_chance@[j] == hit_chance_of(before.hit_chance@[j]),
            forall|j: int|
                i <= j < stats.hit_chance@.len() ==> stats.hit_chance@[j] == before.hit_chance@[j],
        decreases stats.hit_chance@.len() - i,
    {
        let raised = accrue(stats.hit_chance[i], 890_000);
        stats.hit_chance[i] = if raised > 990_000 { 990_000 } else { raised };
        i += 1;
    }
}

/// Why a trial could not be set up.
#[derive(Debug, Clone, Copy, PartialEq, Eq, Structural)]
pub enum SetupError {
    /// There are fewer hit chances, crit chances or spell powers than mages.
    StatsTooShort,
    /// There is not exactly one first-action offset per mage.
    OffsetsMismatch,
    /// There are fewer Power Infusion counts than mages.
    PiCountTooShort,
    /// There are fewer Berserking shares than mages.
    BerserkTooShort,
    /// The table of world buffs has no list for some buff.
    WorldBuffsIncomplete,
    /// The trial is longer than the horizon.
    DurationOutOfRange,
    /// Some first-action offset is negative or beyond the horizon.
    OffsetOutOfRange,
    /// Some Nightfall period is not positive or is beyond the horizon.
    PeriodOutOfRange,
}

/// The smallest of the first `n` offsets; zero if there are none.
pub open spec fn first_offset(offsets: Seq<i64>, n: int) -> i64
    decreases n,
{
    if n <= 0 {
        0
    } else if n == 1 {
        offsets[0]
    } else if offsets[n - 1] < first_offset(offsets, n - 1) {
        offsets[n - 1]
    } else {
        first_offset(offsets, n - 1)
    }
}

/// No offset is smaller than `first_offset`.
pub proof fn lemma_first_offset(offsets: Seq<i64>, n: int, i: int)
    requires
        0 <= i < n <= offsets.len(),
    ensures
        first_offset(offsets, n) <= offsets[i],
    decreases n,
{
    if i < n - 1 {
        lemma_first_offset(offsets, n - 1, i);
    }
}

/// `first_offset` lies where the offsets lie.
pub proof fn lemma_first_offset_bounds(offsets: Seq<i64>, n: int)
    requires
        0 <= n <= offsets.len(),
        forall|i: int| 0 <= i < offsets.len() ==> 0 <= #[trigger] offsets[i] <= HORIZON,
    ensures
        0 <= first_offset(offsets, n) <= HORIZON,
    decreases n,
{
    if n > 1 {
        lemma_first_offset_bounds(offsets, n - 1);
    }
}

/// A cooldown that is ready where `ready` holds and never comes otherwise.
pub open spec fn ready_if(ready: bool) -> Timer {
    if ready {
        Timer::In(0)
    } else {
        Timer::Never
    }
}

impl SimParams {
    /// What is wrong with a setup, if anything; of several faults the first
    /// in the order of [`SetupError`].
    pub open spec fn setup_error(&self, duration: i64, offsets: Seq<i64>) -> Option<SetupError> {
        let n = self.config.num_mages;
        if self.stats.hit_chance@.len() < n || self.stats.crit_chance@.len() < n
            || self.stats.spell_power@.len() < n {
            Some(SetupError::StatsTooShort)
        } else if offsets.len() != n {
            Some(SetupError::OffsetsMismatch)
        } else if self.config.pi_count@.len() < n {
            Some(SetupError::PiCountTooShort)
        } else if self.buffs.berserk@.len() < n {
            Some(SetupError::BerserkTooShort)
        } else if self.buffs.world@.len() < NUM_WORLD_BUFFS {
            Some(SetupError::WorldBuffsIncomplete)
        } else if duration > HORIZON {
            Some(SetupError::DurationOutOfRange)
        } else if exists|i: int| 0 <= i < offsets.len() && !(0 <= #[trigger] offsets[i] <= HORIZON) {
            Some(SetupError::OffsetOutOfRange)
        } else if exists|i: int|
            0 <= i < self.config.nightfall@.len() && !(0 < #[trigger] self.config.nightfall@[i]
                <= HORIZON) {
            Some(SetupError::PeriodOutOfRange)
        } else {
            None
        }
    }

    /// Lane `i` before the trial starts: the mage acts first after
    /// `offset` ticks, and the cooldowns of what the mage owns are ready.
    pub open spec fn starting_lane(&self, i: int, offset: i64) -> MageLane {
        let lane = i as usize;
        let infusions = self.config.pi_count@[i];
        MageLane {
            cast_timer: Timer::In(offset),
            hit_chance: self.stats.hit_chance@[i],
            crit_chance: self.stats.crit_chance@[i],
            spell_power: self.stats.spell_power@[i],
            buff_cooldown: [
                ready_if(spec_has_idx(self.config.buff_assignments@, 0, lane)),
                ready_if(spec_has_idx(self.config.buff_assignments@, 1, lane)),
                ready_if(spec_has_idx(self.config.buff_assignments@, 2, lane)),
                ready_if(spec_has_idx(self.config.buff_assignments@, 3, lane)),
            ],
            pi_cooldown: [
                ready_if(infusions > 0),
                ready_if(infusions > 1),
                ready_if(infusions > 2),
                ready_if(infusions > 3),
            ],
            berserk_cooldown: ready_if(self.buffs.berserk@[i] > 0),
            ..MageLane::fresh()
        }
    }

    /// The trial before its clock is moved to the first action.
    pub open spec fn prepared(&self, duration: i64, offsets: Seq<i64>, log_enabled: bool) -> StateView {
        StateView {
            global: Global { running_time: 0, duration, decision_gate: false },
            boss: BossView {
                nightfall: Seq::new(
                    self.config.nightfall@.len(),
                    |i: int| Timer::In(self.config.nightfall@[i]),
                ),
                dragonling_start: self.config.dragonling,
                ..BossView::fresh()
            },
            lanes: Seq::new(
                self.config.num_mages as nat,
                |i: int| self.starting_lane(i, offsets[i]),
            ),
            meta: PlayerMetaView {
                pi_count: self.config.pi_count@,
                dmf_slots: self.buffs.world@[WorldBuff::SaygesDarkFortuneOfDamage.ordinal()]@,
                sr_slots: self.buffs.world@[WorldBuff::SoulRevival.ordinal()]@,
                ts_slots: self.buffs.world@[WorldBuff::TracesOfSilithyst.ordinal()]@,
                cleaner_slots: self.config.udc@,
                berserk_slots: self.buffs.berserk@,
                target_slots: self.config.target@,
                nightfall_period: self.config.nightfall@,
                vulnerability: if self.buffs.boss == BossType::Thaddius {
                    (1_000_000 + THADDIUS_BUFF) as u64
                } else {
                    1_000_000
                },
                coe: if self.config.coe { COE_MULTIPLIER } else { 1_000_000 },
                no_debuff_limit: self.config.no_debuff_limit,
                name: self.config.name@,
            },
            totals: Totals { total_damage: 0, player_damage: 0, ignite_damage: 0, crit_damage: 0 },
            log_enabled,
            log: Seq::empty(),
            damage_log: Seq::empty(),
        }
    }

    /// The trial at its start.  The clock stands at the first action; every
    /// countdown has run that long, except that no proc check is due before
    /// the first action.
    pub open spec fn initial_state(&self, duration: i64, offsets: Seq<i64>, log_enabled: bool) -> StateView {
        let s = self.prepared(duration, offsets, log_enabled).elapsed(
            first_offset(offsets, offsets.len() as int) as int,
        );
        StateView {
            boss: BossView {
                nightfall: Seq::new(
                    s.boss.nightfall.len(),
                    |i: int| s.boss.nightfall[i].spec_later(Timer::In(0)),
                ),
                ..s.boss
            },
            ..s
        }
    }
}

fn copy_lanes(list: &Vec<usize>) -> (r: Vec<usize>)
    ensures
        r@ == list@,
{
    let mut r: Vec<usize> = Vec::new();
    let mut i: usize = 0;
    while i < list.len()
        invariant
            i <= list@.len(),
            r@ == list@.take(i as int),
        decreases list@.len() - i,
    {
        r.push(list[i]);
        i += 1;
        assert(r@ =~= list@.take(i as int));
    }
    assert(list@.take(list@.len() as int) =~= list@);
    r
}

fn copy_ticks(list: &Vec<i64>) -> (r: Vec<i64>)
    ensures
        r@ == list@,
{
    let mut r: Vec<i64> = Vec::new();
    let mut i: usize = 0;
    while i < list.len()
        invariant
            i <= list@.len(),
            r@ == list@.take(i as int),
        decreases list@.len() - i,
    {
        r.push(list[i]);
        i += 1;
        assert(r@ =~= list@.take(i as int));
    }
    assert(list@.take(list@.len() as int) =~= list@);
    r
}

fn copy_shares(list: &Vec<u64>) -> (r: Vec<u64>)
    ensures
        r@ == list@,
{
    let mut r: Vec<u64> = Vec::new();
    let mut i: usize = 0;
    while i < list.len()
        invariant
            i <= list@.len(),
            r@ == list@.take(i as int),
        decreases list@.len() - i,
    {
        r.push(list[i]);
        i += 1;
        assert(r@ =~= list@.take(i as int));
    }
    assert(list@.take(list@.len() as int) =~= list@);
    r
}

fn copy_names(list: &Vec<String>) -> (r: Vec<String>)
    ensures
        r@ == list@,
{
    let mut r: Vec<String> = Vec::new();
    let mut i: usize = 0;
    while i < list.len()
        invariant
            i <= list@.len(),
            r@ == list@.take(i as int),
        decreases list@.len() - i,
    {
        r.push(list[i].clone());
        i += 1;
        assert(r@ =~= list@.take(i as int));
    }
    assert(list@.take(list@.len() as int) =~= list@);
    r
}

fn within_horizon(list: &Vec<i64>, low: i64) -> (r: bool)
    ensures
        r == forall|i: int| 0 <= i < list@.len() ==> low <= #[trigger] list@[i] <= HORIZON,
{
    let mut i: usize = 0;
    while i < list.len()
        invariant
            i <= list@.len(),
            forall|j: int| 0 <= j < i ==> low <= #[trigger] list@[j] <= HORIZON,
        decreases list@.len() - i,
    {
        if list[i] < low || list[i] > HORIZON {
            return false;
        }
        i += 1;
    }
    true
}

fn smallest(offsets: &Vec<i64>) -> (r: i64)
    ensures
        r == first_offset(offsets@, offsets@.len() as int),
{
    if offsets.len() == 0 {
        return 0;
    }
    let mut least = offsets[0];
    let mut i: usize = 1;
    while i < offsets.len()
        invariant
            1 <= i <= offsets@.len(),
            least == first_offset(offsets@, i as int),
        decreases offsets@.len() - i,
    {
        if offsets[i] < least {
            least = offsets[i];
        }
        i += 1;
    }
    least
}

fn ready_cooldown(ready: bool) -> (r: Timer)
    ensures
        r == ready_if(ready),
{
    if ready {
        Timer::In(0)
    } else {
        Timer::Never
    }
}

/// Sets a trial up from its parameters, its length and the time each mage
/// takes to act first.  A setup with a fault is refused, and the fault is
/// named; any other setup gives the trial at its start.
pub fn init_state(p: &SimParams, duration: i64, offsets: &Vec<i64>, log_enabled: bool) -> (r: Result<
    State,
    SetupError,
>)
    ensures
        match p.setup_error(duration, offsets@) {
            Some(e) => r == Err::<State, SetupError>(e),
            None => r is Ok && r->Ok_0@ == p.initial_state(duration, offsets@, log_enabled)
                && r->Ok_0.wf() && r->Ok_0@.every_source_has_a_period(),
        },
{
    let n = p.config.num_mages;
    if p.stats.hit_chance.len() < n || p.stats.crit_chance.len() < n || p.stats.spell_power.len() < n {
        return Err(SetupError::StatsTooShort);
    }
    if offsets.len() != n {
        return Err(SetupError::OffsetsMismatch);
    }
    if p.config.pi_count.len() < n {
        return Err(SetupError::PiCountTooShort);
    }
    if p.buffs.berserk.len() < n {
        return Err(SetupError::BerserkTooShort);
    }
    if p.buffs.world.len() < NUM_WORLD_BUFFS {
        return Err(SetupError::WorldBuffsIncomplete);
    }
    if duration > HORIZON {
        return Err(SetupError::DurationOutOfRange);
    }
    if !within_horizon(offsets, 0) {
        return Err(SetupError::OffsetOutOfRange);
    }
    if !within_horizon(&p.config.nightfall, 1) {
        return Err(SetupError::PeriodOutOfRange);
    }
    assert(p.setup_error(duration, offsets@) is None);
    let ghost want = p.prepared(duration, offsets@, log_enabled);
    let mut st = State::new(duration, 0);
    st.log_enabled = log_enabled;
    st.meta.cleaner_slots = copy_lanes(&p.config.udc);
    st.meta.target_slots = copy_lanes(&p.config.target);
    st.meta.dmf_slots = copy_lanes(&p.buffs.world[WorldBuff::SaygesDarkFortuneOfDamage.index()]);
    st.meta.sr_slots = copy_lanes(&p.buffs.world[WorldBuff::SoulRevival.index()]);
    st.meta.ts_slots = copy_lanes(&p.buffs.world[WorldBuff::TracesOfSilithyst.index()]);
    st.meta.pi_count = copy_lanes(&p.config.pi_count);
    st.meta.no_debuff_limit = p.config.no_debuff_limit;
    st.meta.vulnerability = if p.buffs.boss == BossType::Thaddius {
        1_000_000 + THADDIUS_BUFF
    } else {
        1_000_000
    };
    st.meta.nightfall_period = copy_ticks(&p.config.nightfall);
    st.meta.coe = if p.config.coe { COE_MULTIPLIER } else { 1_000_000 };
    st.meta.name = copy_names(&p.config.name);
    st.meta.berserk_slots = copy_shares(&p.buffs.berserk);
    st.boss.dragonling_start = p.config.dragonling;
    assert(st@.meta == want.meta);
    assert(st@.lanes =~= Seq::<MageLane>::empty());
    assert(st@.boss == (BossView { nightfall: st.boss.nightfall@, ..want.boss }));

    let mut j: usize = 0;
    while j < p.config.nightfall.len()
        invariant
            j <= p.config.nightfall@.len(),
            st.boss.nightfall@.len() == j,
            forall|x: int| 0 <= x < j ==> st.boss.nightfall@[x] == Timer::In(p.config.nightfall@[x]),
            st@ == (StateView {
                boss: BossView { nightfall: st.boss.nightfall@, ..want.boss },
                lanes: Seq::empty(),
                ..want
            }),
        decreases p.config.nightfall@.len() - j,
    {
        st.boss.nightfall.push(Timer::In(p.config.nightfall[j]));
        j += 1;
    }
    assert(st@.boss.nightfall =~= want.boss.nightfall);

    let mut i: usize = 0;
    while i < n
        invariant
            i <= n,
            n == p.config.num_mages,
            p.setup_error(duration, offsets@) is None,
            st.lanes@.len() == i,
            forall|x: int| 0 <= x < i ==> st.lanes@[x] == p.starting_lane(x, offsets@[x]),
            st@ == (StateView { lanes: st.lanes@, ..want }),
        decreases n - i,
    {
        let infusions = p.config.pi_count[i];
        let fresh = MageLane::default();
        let l = MageLane {
            cast_timer: Timer::In(offsets[i]),
            hit_chance: p.stats.hit_chance[i],
            crit_chance: p.stats.crit_chance[i],
            spell_power: p.stats.spell_power[i],
            buff_cooldown: [
                ready_cooldown(has_idx(&p.config.buff_assignments, 0, i)),
                ready_cooldown(has_idx(&p.config.buff_assignments, 1, i)),
                ready_cooldown(has_idx(&p.config.buff_assignments, 2, i)),
                ready_cooldown(has_idx(&p.config.buff_assignments, 3, i)),
            ],
            pi_cooldown: [
                ready_cooldown(infusions > 0),
                ready_cooldown(infusions > 1),
                ready_cooldown(infusions > 2),
                ready_cooldown(infusions > 3),
            ],
            berserk_cooldown: ready_cooldown(p.buffs.berserk[i] > 0),
            ..fresh
        };
        proof {
            let w = p.starting_lane(i as int, offsets@[i as int]);
            assert(l.buff_cooldown =~= w.buff_cooldown);
            assert(l.pi_cooldown =~= w.pi_cooldown);
        }
        st.lanes.push(l);
        i += 1;
    }
    assert(st@.lanes =~= want.lanes);
    assert(st@ == want);

    let first = smallest(offsets);
    proof {
        lemma_first_offset_bounds(offsets@, offsets@.len() as int);
        assert forall|x: int| 0 <= x < want.lanes.len() implies (#[trigger] want.lanes[x]).bounded(0) by {
            let l = want.lanes[x];
            assert(0 <= offsets@[x] <= HORIZON);
            assert(forall|y: int| 0 <= y < 4 ==> (#[trigger] l.spell_timer[y]).within(0));
            assert(forall|y: int| 0 <= y < 4 ==> (#[trigger] l.buff_timer[y]).within(0));
            assert(forall|y: int| 0 <= y < 4 ==> (#[trigger] l.buff_cooldown[y]).within(0));
            assert(forall|y: int| 0 <= y < 4 ==> (#[trigger] l.pi_timer[y]).within(0));
            assert(forall|y: int| 0 <= y < 4 ==> (#[trigger] l.pi_cooldown[y]).within(0));
        }
        assert forall|x: int| 0 <= x < want.boss.nightfall.len() implies (
        #[trigger] want.boss.nightfall[x]).within(0) by {
            assert(0 < p.config.nightfall@[x] <= HORIZON);
        }
    }
    st.subtime(first);
    let ghost moved = st@;
    let mut j: usize = 0;
    while j < st.boss.nightfall.len()
        invariant
            j <= st.boss.nightfall@.len(),
            st.boss.nightfall@.len() == moved.boss.nightfall.len(),
            forall|x: int|
                0 <= x < j ==> st.boss.nightfall@[x] == (#[trigger] moved.boss.nightfall[x]).spec_later(
                    Timer::In(0),
                ),
            forall|x: int| j <= x < st.boss.nightfall@.len() ==> st.boss.nightfall@[x] == moved.boss.nightfall[x],
            st@ == (StateView {
                boss: BossView { nightfall: st.boss.nightfall@, ..moved.boss },
                ..moved
            }),
        decreases st.boss.nightfall@.len() - j,
    {
        let floored = st.boss.nightfall[j].later(Timer::In(0));
        st.boss.nightfall[j] = floored;
        j += 1;
    }
    proof {
        let fin = p.initial_state(duration, offsets@, log_enabled);
        assert(st@.boss.nightfall =~= fin.boss.nightfall);
        assert(st@ == fin);
        let post = st@;
        assert forall|x: int| 0 <= x < post.lanes.len() implies (#[trigger] post.lanes[x]).wf(post.clock()) by {
            lemma_first_offset(offsets@, offsets@.len() as int, x);
            let l = post.lanes[x];
            assert(l == want.lanes[x].after(first as int, want.meta.no_debuff_limit));
            assert(moved.lanes[x].bounded(moved.clock()));
            assert(forall|y: int| 0 <= y < 4 ==> (#[trigger] l.spell_timer[y]).pending());
        }
        assert forall|x: int| 0 <= x < post.boss.nightfall.len() implies (
        #[trigger] post.boss.nightfall[x]).within(post.clock()) && post.boss.nightfall[x].pending() by {
            assert(moved.boss.nightfall[x].within(moved.clock()));
        }
    }
    Ok(st)
}

/// What one mage did in a trial.
#[derive(Debug, Clone)]
pub struct PlayerResult {
    /// The mage's own damage, in whole points.
    pub dmg: u64,
    /// Damage per second in billionths, an even share of Ignite counted in.
    pub dps: u64,
    pub ninetieth: u64,
    pub name: String,
}

/// What one trial came to.
#[derive(Debug, Clone)]
pub struct SimulationResult {
    pub iterations: i32,
    /// Length of the trial in ticks, at least one.
    pub t: i64,
    /// All damage, Ignite counted in, in whole points.
    pub dmg: u64,
    /// All damage per second, in billionths.
    pub dps: u64,
    pub ignite_dmg: u64,
    pub ignite_dps: u64,
    pub players: Vec<PlayerResult>,
    pub log: Vec<LogEntry>,
    /// Damage per second up to the end of each quarter of a second, in
    /// billionths; empty where the trial kept a log instead.
    pub damage_log: Vec<u64>,
}

/// Length of one step of the damage series, in ticks.
pub const DELTA_T: i64 = 250_000;

/// The most steps a damage series is drawn up for.
pub const MAX_SERIES_STEPS: usize = 1_000_000_000;

/// `amount` per second over `ticks` ticks, saturated.
pub open spec fn per_second(amount: u64, ticks: i64) -> u64 {
    clamp_amount(amount as int * 1_000_000 / ticks as int)
}

fn rate(amount: u64, ticks: i64) -> (r: u64)
    requires
        ticks > 0,
    ensures
        r == per_second(amount, ticks),
{
    let wide: u128 = (amount as u128) * 1_000_000 / (ticks as u128);
    if wide > u64::MAX as u128 {
        u64::MAX
    } else {
        wide as u64
    }
}

/// The length by which rates are taken: the trial's, but one tick at least.
pub open spec fn rated_length(duration: i64) -> i64 {
    if duration < 1 {
        1
    } else {
        duration
    }
}

/// Steps of the damage series of a trial that lasts `span` ticks at least:
/// as many as it takes to cover the span.
pub open spec fn series_steps(span: int) -> int {
    if span <= 0 {
        0
    } else {
        (span + DELTA_T - 1) / (DELTA_T as int)
    }
}

/// The first entry at or after `from` that was dealt after `time`; the
/// number of entries if there is none.
pub open spec fn dealt_by(log: Seq<DamageAccumulator>, from: int, time: int) -> int
    decreases log.len() - from,
{
    if from >= log.len() || log[from].time > time {
        from
    } else {
        dealt_by(log, from + 1, time)
    }
}

/// Entries of the damage series that are counted by the end of step `step`.
pub open spec fn counted_by(log: Seq<DamageAccumulator>, step: int) -> int
    decreases step,
{
    if step <= 0 {
        0
    } else {
        dealt_by(log, counted_by(log, step - 1), step * DELTA_T)
    }
}

/// The damage of the first `n` entries together, saturated.
pub open spec fn dealt(log: Seq<DamageAccumulator>, n: int) -> u64
    decreases n,
{
    if n <= 0 {
        0
    } else {
        accrued(dealt(log, n - 1), log[n - 1].damage)
    }
}

/// The damage series of a trial: a zero at the start, then for each step
/// the damage dealt up to its end, per second.
pub open spec fn series_entry(log: Seq<DamageAccumulator>, i: int) -> u64 {
    if i <= 0 {
        0
    } else {
        per_second(dealt(log, counted_by(log, i)), (i * DELTA_T) as i64)
    }
}

fn damage_series(log: &Vec<DamageAccumulator>, steps: usize) -> (r: Vec<u64>)
    requires
        steps <= MAX_SERIES_STEPS,
    ensures
        r@.len() == steps + 1,
        forall|i: int| 0 <= i <= steps ==> #[trigger] r@[i] == series_entry(log@, i),
{
    let mut r: Vec<u64> = Vec::new();
    r.push(0);
    let mut sum: u64 = 0;
    let mut at: usize = 0;
    let mut step: usize = 0;
    while step < steps
        invariant
            step <= steps,
            steps <= MAX_SERIES_STEPS,
            r@.len() == step + 1,
            at <= log@.len(),
            at == counted_by(log@, step as int),
            sum == dealt(log@, at as int),
            forall|i: int| 0 <= i <= step ==> #[trigger] r@[i] == series_entry(log@, i),
        decreases steps - step,
    {
        let time: i64 = ((step + 1) as i64) * DELTA_T;
        while at < log.len() && log[at].time <= time
            invariant
                at <= log@.len(),
                sum == dealt(log@, at as int),
                dealt_by(log@, at as int, time as int) == dealt_by(
                    log@,
                    counted_by(log@, step as int),
                    time as int,
                ),
            decreases log@.len() - at,
        {
            sum = accrue(sum, log[at].damage);
            at += 1;
        }
        r.push(rate(sum, time));
        step += 1;
    }
    r
}

/// The steps of the damage series for the given timing: enough to cover
/// the shortest trial that may be drawn, and no more than
/// [`MAX_SERIES_STEPS`].
pub fn series_length(timing: &Timing) -> (r: usize)
    ensures
        r == if series_steps(timing.duration_mean - timing.duration_sigma) > MAX_SERIES_STEPS {
            MAX_SERIES_STEPS as int
        } else {
            series_steps(timing.duration_mean - timing.duration_sigma)
        },
{
    let span: i128 = (timing.duration_mean as i128) - (timing.duration_sigma as i128);
    if span <= 0 {
        0
    } else {
        let steps: i128 = (span + (DELTA_T as i128) - 1) / (DELTA_T as i128);
        if steps > (MAX_SERIES_STEPS as i128) {
            MAX_SERIES_STEPS
        } else {
            steps as usize
        }
    }
}

impl SimulationResult {
    /// The share of Ignite that each of `mages` mages is credited with.
    pub open spec fn ignite_share(ignite: u64, mages: nat) -> u64 {
        if mages == 0 {
            0
        } else {
            (ignite as int / mages as int) as u64
        }
    }
}

/// Draws up what a finished trial came to.  Rates are taken by the length
/// of the trial; each mage is credited with an even share of Ignite; the
/// damage series covers `steps` quarters of a second and is left out where
/// the trial kept a log.
pub fn summarize(st: &State, names: &Vec<String>, steps: usize) -> (r: SimulationResult)
    requires
        names@.len() >= st@.lanes.len(),
        steps <= MAX_SERIES_STEPS,
    ensures
        r.iterations == 1,
        r.t == rated_length(st@.global.duration),
        r.dmg == accrued(st@.totals.total_damage, st@.totals.ignite_damage) / 1_000_000_000,
        r.dps == per_second(accrued(st@.totals.total_damage, st@.totals.ignite_damage), r.t),
        r.ignite_dmg == st@.totals.ignite_damage / 1_000_000_000,
        r.ignite_dps == per_second(st@.totals.ignite_damage, r.t),
        r.log@ == st@.log,
        r.players@.len() == st@.lanes.len(),
        forall|i: int|
            0 <= i < st@.lanes.len() ==> {
                &&& (#[trigger] r.players@[i]).dmg == st@.lanes[i].damage / 1_000_000_000
                &&& r.players@[i].dps == per_second(
                    accrued(
                        st@.lanes[i].damage,
                        SimulationResult::ignite_share(st@.totals.ignite_damage, st@.lanes.len()),
                    ),
                    r.t,
                )
                &&& r.players@[i].ninetieth == 0
                &&& r.players@[i].name == names@[i]
            },
        st@.log_enabled ==> r.damage_log@.len() == 0,
        !st@.log_enabled ==> r.damage_log@.len() == steps + 1 && forall|i: int|
            0 <= i <= steps ==> #[trigger] r.damage_log@[i] == series_entry(st@.damage_log, i),
{
    let t = if st.global.duration < 1 { 1 } else { st.global.duration };
    let n = st.lanes.len();
    let share = if n == 0 { 0 } else { st.totals.ignite_damage / (n as u64) };
    let mut players: Vec<PlayerResult> = Vec::new();
    let mut i: usize = 0;
    while i < n
        invariant
            i <= n,
            n == st@.lanes.len(),
            names@.len() >= n,
            t == rated_length(st@.global.duration),
            share == SimulationResult::ignite_share(st@.totals.ignite_damage, st@.lanes.len()),
            players@.len() == i,
            forall|j: int|
                0 <= j < i ==> {
                    &&& (#[trigger] players@[j]).dmg == st@.lanes[j].damage / 1_000_000_000
                    &&& players@[j].dps == per_second(accrued(st@.lanes[j].damage, share), t)
                    &&& players@[j].ninetieth == 0
                    &&& players@[j].name == names@[j]
                },
        decreases n - i,
    {
        let own = st.lanes[i].damage;
        players.push(
            PlayerResult {
                dmg: own / 1_000_000_000,
                dps: rate(accrue(own, share), t),
                ninetieth: 0,
                name: names[i].clone(),
            },
        );
        i += 1;
    }
    let mut log: Vec<LogEntry> = Vec::new();
    let mut j: usize = 0;
    while j < st.log.len()
        invariant
            j <= st.log@.len(),
            log@ == st.log@.take(j as int),
        decreases st.log@.len() - j,
    {
        log.push(st.log[j]);
        j += 1;
        assert(log@ =~= st.log@.take(j as int));
    }
    assert(st.log@.take(st.log@.len() as int) =~= st.log@);
    let all = accrue(st.totals.total_damage, st.totals.ignite_damage);
    let damage_log = if st.log_enabled { Vec::new() } else { damage_series(&st.damage_log, steps) };
    SimulationResult {
        iterations: 1,
        t,
        dmg: all / 1_000_000_000,
        dps: rate(all, t),
        ignite_dmg: st.totals.ignite_damage / 1_000_000_000,
        ignite_dps: rate(st.totals.ignite_damage, t),
        players,
        log,
        damage_log,
    }
}

/// Raises the value of every listed mage by `step`, saturated, and leaves
/// the others as they are.
pub fn raise_listed(values: &mut Vec<u64>, listed: &Vec<usize>, step: u64)
    ensures
        final(values)@.len() == old(values)@.len(),
        forall|i: int|
            0 <= i < old(values)@.len() ==> #[trigger] final(values)@[i] == raised_if(
                listed@.contains(i as usize),
                old(values)@[i],
                step,
            ),
{
    let mut i: usize = 0;
    while i < values.len()
        invariant
            i <= values@.len(),
            values@.len() == old(values)@.len(),
            forall|j: int|
                0 <= j < i ==> #[trigger] values@[j] == raised_if(
                    listed@.contains(j as usize),
                    old(values)@[j],
                    step,
                ),
            forall|j: int| i <= j < values@.len() ==> values@[j] == old(values)@[j],
        decreases values@.len() - i,
    {
        let x = raise_if(crate::state::lists_lane(listed, i), values[i], step);
        values[i] = x;
        i += 1;
    }
}

} // verus!
