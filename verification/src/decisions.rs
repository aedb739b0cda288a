//! Choosing a mage's next action: from a fixed opener, and then either
//! always the same action or the first rule of a priority list that applies.

use vstd::prelude::*;
use crate::apl::{AplCondition, AplConditionOp, AplConditionType, AplItem, AplValue, AplValueType};
use crate::constants::{Action, Buff, IGNITE_TIME, SCORCH_TIME};
use crate::schedule::soonest;
use crate::state::{MageLane, State, StateView};
use crate::units::{Reading, Timer};

verus! {

/// The spell numbers by which rules name cooldowns and auras.
pub const SPELL_COMBUSTION: i32 = 29977;

pub const SPELL_FIRE_BLAST: i32 = 10199;

pub const SPELL_POWER_INFUSION: i32 = 10060;

pub const SPELL_BERSERKING: i32 = 20554;

pub const SPELL_ESSENCE_OF_SAPPHIRON: i32 = 28779;

pub const SPELL_MIND_QUICKENING: i32 = 23723;

pub const SPELL_EPHEMERAL_POWER: i32 = 23271;

pub const SPELL_UNSTABLE_POWER: i32 = 24658;

/// The debuff Scorch leaves on the target.
pub const SPELL_FIRE_VULNERABILITY: i32 = 22959;

pub const SPELL_IGNITE: i32 = 12654;

pub open spec fn spec_action_to_buff(action: Action) -> Option<Buff> {
    match action {
        Action::Sapp => Some(Buff::Sapp),
        Action::Toep => Some(Buff::Toep),
        Action::Zhc => Some(Buff::Zhc),
        Action::Mqg => Some(Buff::Mqg),
        _ => None,
    }
}

/// The trinket an action uses, if it uses one.
#[verifier::when_used_as_spec(spec_action_to_buff)]
pub fn action_to_buff(action: Action) -> (r: Option<Buff>)
    ensures
        r == spec_action_to_buff(action),
{
    match action {
        Action::Sapp => Some(Buff::Sapp),
        Action::Toep => Some(Buff::Toep),
        Action::Zhc => Some(Buff::Zhc),
        Action::Mqg => Some(Buff::Mqg),
        _ => None,
    }
}

/// Whether mage `lane` can use `action` now.  An action with a cooldown is
/// ready once the cooldown has run out (for Power Infusion: the cooldown of
/// any one of them); every other action is always ready.
pub open spec fn action_ready(st: StateView, lane: int, action: Action) -> bool {
    let l = st.lanes[lane];
    match action {
        Action::Sapp => l.buff_cooldown[Buff::Sapp.ordinal()].spec_is_ready(),
        Action::Toep => l.buff_cooldown[Buff::Toep.ordinal()].spec_is_ready(),
        Action::Zhc => l.buff_cooldown[Buff::Zhc.ordinal()].spec_is_ready(),
        Action::Mqg => l.buff_cooldown[Buff::Mqg.ordinal()].spec_is_ready(),
        Action::FireBlast => l.fb_cooldown.spec_is_ready(),
        Action::PowerInfusion => soonest(l.pi_cooldowns(), 4).spec_is_ready(),
        Action::Combustion => l.comb_cooldown.spec_is_ready(),
        Action::Berserking => l.berserk_cooldown.spec_is_ready(),
        _ => true,
    }
}

/// Whether mage `lane` can use `action` now.
pub fn action_ready_for_action(st: &State, lane: usize, action: Action) -> (r: bool)
    requires
        lane < st@.lanes.len(),
    ensures
        r == action_ready(st@, lane as int, action),
{
    let l = &st.lanes[lane];
    match action {
        Action::Sapp => l.buff_cooldown[Buff::Sapp.index()].is_ready(),
        Action::Toep => l.buff_cooldown[Buff::Toep.index()].is_ready(),
        Action::Zhc => l.buff_cooldown[Buff::Zhc.index()].is_ready(),
        Action::Mqg => l.buff_cooldown[Buff::Mqg.index()].is_ready(),
        Action::FireBlast => l.fb_cooldown.is_ready(),
        Action::PowerInfusion => MageLane::earliest_of(&l.pi_cooldown).1.is_ready(),
        Action::Combustion => l.comb_cooldown.is_ready(),
        Action::Berserking => l.berserk_cooldown.is_ready(),
        _ => true,
    }
}

/// The first position at or after `from` whose action mage `lane` can use
/// now; the length of the opener if there is none.
pub open spec fn first_ready(opener: Seq<Action>, from: int, st: StateView, lane: int) -> int
    decreases opener.len() - from,
{
    if from >= opener.len() {
        opener.len() as int
    } else if action_ready(st, lane, opener[from]) {
        from
    } else {
        first_ready(opener, from + 1, st, lane)
    }
}

/// `first_ready` names the first usable entry: nothing between `from` and it
/// can be used, and it can be used itself unless the opener is exhausted.
pub proof fn lemma_first_ready(opener: Seq<Action>, from: int, st: StateView, lane: int)
    requires
        0 <= from,
    ensures
        from <= first_ready(opener, from, st, lane) || opener.len() <= first_ready(
            opener,
            from,
            st,
            lane,
        ),
        first_ready(opener, from, st, lane) <= opener.len(),
        first_ready(opener, from, st, lane) < opener.len() ==> from <= first_ready(
            opener,
            from,
            st,
            lane,
        ) && action_ready(st, lane, opener[first_ready(opener, from, st, lane)]),
        forall|i: int|
            from <= i < first_ready(opener, from, st, lane) ==> !action_ready(st, lane, #[trigger] opener[i]),
    decreases opener.len() - from,
{
    if from < opener.len() && !action_ready(st, lane, opener[from]) {
        lemma_first_ready(opener, from + 1, st, lane);
    }
}

/// Walks an opener from `stage` on and returns the first position whose
/// action can be used now, or the opener's length.
fn walk_opener(opener: &Vec<Action>, stage: usize, st: &State, lane: usize) -> (r: usize)
    requires
        lane < st@.lanes.len(),
    ensures
        r == first_ready(opener@, stage as int, st@, lane as int),
        r <= opener@.len(),
{
    let mut s = stage;
    while s < opener.len()
        invariant
            lane < st@.lanes.len(),
            stage <= s,
            first_ready(opener@, s as int, st@, lane as int) == first_ready(
                opener@,
                stage as int,
                st@,
                lane as int,
            ),
        decreases opener@.len() - s,
    {
        if action_ready_for_action(st, lane, opener[s]) {
            return s;
        }
        s += 1;
    }
    opener.len()
}

/// Decides for one mage.
pub trait MageDecider {
    /// What the decider answers for mage `lane` in state `st`: an action
    /// and the spread of the reaction delay before it, or nothing.
    spec fn choice(&self, st: StateView, lane: int) -> Option<(Action, i64)>;

    fn decide(&mut self, st: &State, lane: usize) -> (r: Option<(Action, i64)>)
        requires
            lane < st@.lanes.len(),
        ensures
            r == old(self).choice(st@, lane as int),
    ;
}

/// Decides for the mage who is free next.
pub trait Decider {
    /// Whether the decider has a mage for every lane of `st`.
    spec fn serves(&self, st: StateView) -> bool;

    /// What the decider answers in state `st`: a lane, an action for it and
    /// the spread of the reaction delay, or nothing.
    spec fn choice(&self, st: StateView) -> Option<(usize, Action, i64)>;

    /// Whether the decider has a mage for every lane of `st`.
    fn can_serve(&self, st: &State) -> (r: bool)
        ensures
            r == self.serves(st@),
    ;

    fn next_action(&mut self, st: &State) -> (r: Option<(usize, Action, i64)>)
        requires
            old(self).serves(st@),
        ensures
            r == old(self).choice(st@),
            final(self).serves(st@),
    ;
}

/// A mage who goes through an opener once and then repeats one action.  An
/// opener entry that cannot be used when its turn comes is passed over for
/// good.
#[derive(Debug)]
pub struct ScriptedMage {
    /// Position in the opener of the next entry to try.
    pub stage: usize,
    pub initial_sequence: Vec<Action>,
    pub default_action: Action,
    /// Spread of the reaction delay before each action, in ticks.
    pub recast_delay: i64,
}

impl ScriptedMage {
    /// A scripted mage at the start of the opener.
    pub fn new(initial_sequence: Vec<Action>, default_action: Action, recast_delay: i64) -> (r: ScriptedMage)
        ensures
            r.stage == 0,
            r.initial_sequence@ == initial_sequence@,
            r.default_action == default_action,
            r.recast_delay == recast_delay,
    {
        ScriptedMage { stage: 0, initial_sequence, default_action, recast_delay }
    }

    /// Where the opener stands after a decision taken in state `st`.
    pub open spec fn next_stage(&self, st: StateView, lane: int) -> int {
        let p = first_ready(self.initial_sequence@, self.stage as int, st, lane);
        if p < self.initial_sequence@.len() {
            p + 1
        } else {
            self.initial_sequence@.len() as int
        }
    }
}

impl MageDecider for ScriptedMage {
    open spec fn choice(&self, st: StateView, lane: int) -> Option<(Action, i64)> {
        let p = first_ready(self.initial_sequence@, self.stage as int, st, lane);
        if p < self.initial_sequence@.len() {
            Some((self.initial_sequence@[p], self.recast_delay))
        } else {
            Some((self.default_action, self.recast_delay))
        }
    }

    fn decide(&mut self, st: &State, lane: usize) -> (r: Option<(Action, i64)>)
        ensures
            final(self).stage == old(self).next_stage(st@, lane as int),
            final(self).initial_sequence@ == old(self).initial_sequence@,
            final(self).default_action == old(self).default_action,
            final(self).recast_delay == old(self).recast_delay,
    {
        let p = walk_opener(&self.initial_sequence, self.stage, st, lane);
        if p < self.initial_sequence.len() {
            self.stage = p + 1;
            Some((self.initial_sequence[p], self.recast_delay))
        } else {
            self.stage = self.initial_sequence.len();
            Some((self.default_action, self.recast_delay))
        }
    }
}

/// How a constant that is given both as a whole number and in millionths is
/// to be read.
#[derive(Debug, Clone, Copy, PartialEq, Eq, Structural)]
pub enum ValueContext {
    /// As a whole number: beside a yes-or-no value or a stack count.
    Int,
    /// In millionths: beside a time, a duration or a percentage.
    Float,
    /// Beside another constant: as a whole number if the millionths make
    /// one, else in millionths.
    Auto,
}

pub open spec fn context_of(value_type: AplValueType) -> ValueContext {
    match value_type {
        AplValueType::PlayerCooldownExists
        | AplValueType::PlayerAuraExists
        | AplValueType::TargetAuraExists
        | AplValueType::TargetAuraStacks => ValueContext::Int,
        AplValueType::Const => ValueContext::Auto,
        _ => ValueContext::Float,
    }
}

/// The context in which the operands of a comparison are read: that of the
/// operand that is no constant, and of the left one where neither is.
pub open spec fn comparison_context(left: AplValueType, right: AplValueType) -> ValueContext {
    if left == AplValueType::Const {
        context_of(right)
    } else {
        context_of(left)
    }
}

/// The reading of a constant in the given context.
pub open spec fn const_reading(value: &AplValue, context: ValueContext) -> Reading {
    let whole = Reading::spec_whole(value.vint as i64);
    let exact = Reading::Exact(value.vfloat as i128);
    if value.vfloat == 0 {
        whole
    } else if value.vint == 0 {
        exact
    } else {
        match context {
            ValueContext::Int => whole,
            ValueContext::Float => exact,
            ValueContext::Auto => if value.vfloat as int % 1_000_000 == 0 {
                whole
            } else {
                exact
            },
        }
    }
}

pub open spec fn constant_to_buff(constant: i32) -> Option<Buff> {
    if constant == SPELL_ESSENCE_OF_SAPPHIRON {
        Some(Buff::Sapp)
    } else if constant == SPELL_MIND_QUICKENING {
        Some(Buff::Mqg)
    } else if constant == SPELL_EPHEMERAL_POWER {
        Some(Buff::Toep)
    } else if constant == SPELL_UNSTABLE_POWER {
        Some(Buff::Zhc)
    } else {
        None
    }
}

/// The later of four countdowns.
pub open spec fn latest_of(row: [Timer; 4]) -> Timer {
    row[0].spec_later(row[1]).spec_later(row[2]).spec_later(row[3])
}

impl MageLane {
    /// The cooldown a rule names by a spell number; one that has run out
    /// for an unknown number.
    pub open spec fn cooldown_named(self, id: i32) -> Timer {
        if id == SPELL_COMBUSTION {
            self.comb_cooldown
        } else if id == SPELL_FIRE_BLAST {
            self.fb_cooldown
        } else if id == SPELL_POWER_INFUSION {
            soonest(self.pi_cooldowns(), 4)
        } else if id == SPELL_BERSERKING {
            self.berserk_cooldown
        } else {
            match constant_to_buff(id) {
                Some(b) => self.buff_cooldown[b.ordinal()],
                None => Timer::In(0),
            }
        }
    }

    /// The time left on the aura a rule names by a spell number; none for
    /// an unknown number.
    pub open spec fn aura_named(self, id: i32) -> Timer {
        if id == SPELL_POWER_INFUSION {
            latest_of(self.pi_timer)
        } else if id == SPELL_BERSERKING {
            self.berserk_timer
        } else {
            match constant_to_buff(id) {
                Some(b) => self.buff_timer[b.ordinal()],
                None => Timer::In(0),
            }
        }
    }

    fn cooldown_by(&self, id: i32) -> (r: Timer)
        ensures
            r == self.cooldown_named(id),
    {
        if id == SPELL_COMBUSTION {
            self.comb_cooldown
        } else if id == SPELL_FIRE_BLAST {
            self.fb_cooldown
        } else if id == SPELL_POWER_INFUSION {
            MageLane::earliest_of(&self.pi_cooldown).1
        } else if id == SPELL_BERSERKING {
            self.berserk_cooldown
        } else {
            match AdaptiveMage::js_constant_to_buff(id) {
                Some(b) => self.buff_cooldown[b.index()],
                None => Timer::In(0),
            }
        }
    }

    fn aura_by(&self, id: i32) -> (r: Timer)
        ensures
            r == self.aura_named(id),
    {
        if id == SPELL_POWER_INFUSION {
            self.pi_timer[0].later(self.pi_timer[1]).later(self.pi_timer[2]).later(self.pi_timer[3])
        } else if id == SPELL_BERSERKING {
            self.berserk_timer
        } else {
            match AdaptiveMage::js_constant_to_buff(id) {
                Some(b) => self.buff_timer[b.index()],
                None => Timer::In(0),
            }
        }
    }
}

impl StateView {
    /// The time left on the debuff a rule names by a spell number; none for
    /// an unknown number.
    pub open spec fn debuff_named(self, id: i32) -> Timer {
        if id == SPELL_FIRE_VULNERABILITY {
            self.boss.scorch_timer
        } else if id == SPELL_IGNITE {
            self.boss.ignite_timer
        } else {
            Timer::In(0)
        }
    }

    /// The stacks of the debuff a rule names by a spell number.
    pub open spec fn stacks_named(self, id: i32) -> u8 {
        if id == SPELL_FIRE_VULNERABILITY {
            self.boss.scorch_count
        } else if id == SPELL_IGNITE {
            self.boss.ignite_count
        } else {
            0
        }
    }

    /// The refresh history of the debuff a rule names by a spell number.
    pub open spec fn history_named(self, id: i32) -> Seq<i64> {
        if id == SPELL_FIRE_VULNERABILITY {
            self.boss.scorch_refresh_history
        } else {
            self.boss.ignite_refresh_history
        }
    }
}

/// The size of a number.
pub open spec fn size_of(x: i64) -> int {
    if x < 0 {
        -x
    } else {
        x as int
    }
}

/// The clock as a percentage of the length of the trial, rounded towards
/// zero; unbounded for a trial of no length.
pub open spec fn percent_of(clock: i64, duration: i64) -> Reading {
    if duration == 0 {
        Reading::Unbounded
    } else if (clock < 0) != (duration < 0) {
        Reading::Exact((-(size_of(clock) * 100_000_000 / size_of(duration))) as i128)
    } else {
        Reading::Exact((size_of(clock) * 100_000_000 / size_of(duration)) as i128)
    }
}

/// The reading of an operand for mage `lane` in state `st`.
pub open spec fn value_of(value: &AplValue, st: StateView, lane: int, context: ValueContext) -> Reading {
    let l = st.lanes[lane];
    match value.value_type {
        AplValueType::Const => const_reading(value, context),
        AplValueType::SimTime => Reading::Exact(st.global.running_time as i128),
        AplValueType::SimTimePercent => percent_of(st.global.running_time, st.global.duration),
        AplValueType::SimDuration => Reading::Exact(
            (st.global.duration - st.global.running_time) as i128,
        ),
        AplValueType::PlayerCooldownExists => Reading::spec_flag(
            l.cooldown_named(value.vint).spec_is_active(),
        ),
        AplValueType::PlayerCooldownDuration => l.cooldown_named(value.vint).spec_remaining(),
        AplValueType::PlayerAuraExists => if value.vint == SPELL_COMBUSTION {
            Reading::spec_whole(l.comb_left as i64)
        } else {
            Reading::spec_flag(l.aura_named(value.vint).spec_is_active())
        },
        AplValueType::PlayerAuraDuration => if value.vint == SPELL_COMBUSTION {
            Reading::Exact(0)
        } else {
            l.aura_named(value.vint).spec_remaining()
        },
        AplValueType::TargetAuraExists => Reading::spec_flag(
            st.debuff_named(value.vint).spec_is_active(),
        ),
        AplValueType::TargetAuraStacks => if st.debuff_named(value.vint).spec_is_active() {
            Reading::spec_whole(st.stacks_named(value.vint) as i64)
        } else {
            Reading::Exact(0)
        },
        AplValueType::TargetAuraDuration => st.debuff_named(value.vint).spec_remaining(),
        AplValueType::Unset => Reading::Exact(0),
    }
}

/// Whether `left` stands in the relation `op` to `right`.
pub open spec fn compared(left: Reading, right: Reading, op: AplConditionOp) -> bool {
    match op {
        AplConditionOp::Eq => left == right,
        AplConditionOp::Neq => left != right,
        AplConditionOp::Gt => !left.spec_at_most(right),
        AplConditionOp::Gte => right.spec_at_most(left),
        AplConditionOp::Lt => !right.spec_at_most(left),
        AplConditionOp::Lte => left.spec_at_most(right),
        AplConditionOp::Unset => false,
    }
}

/// Whether one of the first `n` refreshes fell after `from` and not after
/// `to`.
pub open spec fn refreshed_within(history: Seq<i64>, n: int, from: int, to: int) -> bool
    decreases n,
{
    if n <= 0 {
        false
    } else {
        refreshed_within(history, n - 1, from, to) || from < history[n - 1] <= to
    }
}

/// The latest of the first `n` refreshes that fell at or before `at`.
pub open spec fn latest_refresh(history: Seq<i64>, n: int, at: int) -> Option<i64>
    decreases n,
{
    if n <= 0 {
        None
    } else {
        let earlier = latest_refresh(history, n - 1, at);
        let here = history[n - 1];
        if here <= at && (earlier is None || earlier->0 <= here) {
            Some(here)
        } else {
            earlier
        }
    }
}

/// How long a debuff lasts from a refresh on.
pub open spec fn full_duration(id: i32) -> i64 {
    if id == SPELL_FIRE_VULNERABILITY {
        SCORCH_TIME
    } else {
        IGNITE_TIME
    }
}

/// What a mage who reacts `reaction` ticks late still sees of the debuff
/// `id`: if the debuff was refreshed within the last `reaction` ticks, the
/// time it had left just before that span began, counted from the refresh
/// before the span.  Nothing if there was no refresh within the span, none
/// before it, or the debuff had run out by then.
pub open spec fn remembered_duration(st: StateView, id: i32, reaction: i64) -> Option<Reading> {
    let history = st.history_named(id);
    let start = st.global.running_time - reaction;
    if refreshed_within(history, history.len() as int, start, st.global.running_time as int) {
        match latest_refresh(history, history.len() as int, start) {
            Some(refresh) => {
                let left = full_duration(id) - (start - refresh);
                if left > 0 {
                    Some(Reading::Exact(left as i128))
                } else {
                    None
                }
            },
            None => None,
        }
    } else {
        None
    }
}

/// Whether a comparison that involves the time left on a debuff holds for
/// mage `lane`, the operands read in `context`: if it holds of the time the
/// mage still remembers of Scorch's debuff or of Ignite, or else as it
/// stands.  Of two such operands the left one is meant.
pub open spec fn duration_comparison_holds(
    left: &AplValue,
    right: &AplValue,
    op: AplConditionOp,
    st: StateView,
    lane: int,
    reaction: i64,
    context: ValueContext,
) -> bool {
    let l = value_of(left, st, lane, context);
    let r = value_of(right, st, lane, context);
    if left.value_type == AplValueType::TargetAuraDuration {
        compared(l, r, op) || (tracked_debuff(left.vint) && (remembered_duration(
            st,
            left.vint,
            reaction,
        ) matches Some(then) && compared(then, r, op)))
    } else {
        compared(l, r, op) || (tracked_debuff(right.vint) && (remembered_duration(
            st,
            right.vint,
            reaction,
        ) matches Some(then) && compared(l, then, op)))
    }
}

/// Whether a comparison of two operands holds for mage `lane`.
pub open spec fn comparison_holds(
    left: &AplValue,
    right: &AplValue,
    op: AplConditionOp,
    st: StateView,
    lane: int,
    reaction: i64,
) -> bool {
    let context = comparison_context(left.value_type, right.value_type);
    if left.value_type == AplValueType::TargetAuraDuration || right.value_type
        == AplValueType::TargetAuraDuration {
        duration_comparison_holds(left, right, op, st, lane, reaction, context)
    } else {
        compared(
            value_of(left, st, lane, context),
            value_of(right, st, lane, context),
            op,
        )
    }
}

/// The debuffs whose refreshes are remembered.
pub open spec fn tracked_debuff(id: i32) -> bool {
    id == SPELL_FIRE_VULNERABILITY || id == SPELL_IGNITE
}

/// Whether a condition holds for mage `lane` in state `st`.
pub open spec fn condition_holds(cond: &AplCondition, st: StateView, lane: int, reaction: i64) -> bool
    decreases cond,
{
    match cond.condition_type {
        AplConditionType::Unset => true,
        AplConditionType::True => cond.values@.len() >= 1 && value_of(
            &cond.values@[0],
            st,
            lane,
            context_of(cond.values@[0].value_type),
        ) != Reading::Exact(0),
        AplConditionType::False => cond.values@.len() >= 1 && value_of(
            &cond.values@[0],
            st,
            lane,
            context_of(cond.values@[0].value_type),
        ) == Reading::Exact(0),
        AplConditionType::Not => cond.conditions.len() >= 1 && !condition_holds(
            &cond.conditions[0],
            st,
            lane,
            reaction,
        ),
        AplConditionType::And => forall|i: int|
            0 <= i < cond.conditions.len() ==> condition_holds(
                #[trigger] &cond.conditions[i],
                st,
                lane,
                reaction,
            ),
        AplConditionType::Or => exists|i: int|
            0 <= i < cond.conditions.len() && condition_holds(
                #[trigger] &cond.conditions[i],
                st,
                lane,
                reaction,
            ),
        AplConditionType::Cmp => cond.values@.len() >= 2 && comparison_holds(
            &cond.values@[0],
            &cond.values@[1],
            cond.op,
            st,
            lane,
            reaction,
        ),
    }
}

/// The first rule at or after `from` whose condition holds and whose action
/// mage `lane` can use now; the number of rules if there is none.
pub open spec fn first_match(items: Seq<AplItem>, from: int, st: StateView, lane: int, reaction: i64) -> int
    decreases items.len() - from,
{
    if from >= items.len() {
        items.len() as int
    } else if condition_holds(&items[from].condition, st, lane, reaction) && action_ready(
        st,
        lane,
        items[from].action.key,
    ) {
        from
    } else {
        first_match(items, from + 1, st, lane, reaction)
    }
}

/// A mage who goes through an opener once and then through a priority
/// list, falling back on one action when no rule applies.
#[derive(Debug)]
pub struct AdaptiveMage {
    /// Position in the opener of the next entry to try.
    pub stage: usize,
    pub initial_sequence: Vec<Action>,
    /// The rules, most important first.
    pub items: Vec<AplItem>,
    pub default_action: Action,
    /// Spread of the reaction delay before each action, in ticks.
    pub recast_delay: i64,
    /// How late the mage notices that a debuff was refreshed, in ticks.
    pub reaction_time: i64,
}

impl AdaptiveMage {
    /// An adaptive mage at the start of the opener.
    pub fn new(
        initial_sequence: Vec<Action>,
        items: Vec<AplItem>,
        default_action: Action,
        recast_delay: i64,
        reaction_time: i64,
    ) -> (r: AdaptiveMage)
        ensures
            r.stage == 0,
            r.initial_sequence@ == initial_sequence@,
            r.items@ == items@,
            r.default_action == default_action,
            r.recast_delay == recast_delay,
            r.reaction_time == reaction_time,
    {
        AdaptiveMage { stage: 0, initial_sequence, items, default_action, recast_delay, reaction_time }
    }

    /// The trinket a rule names by a spell number.
    pub fn js_constant_to_buff(constant: i32) -> (r: Option<Buff>)
        ensures
            r == constant_to_buff(constant),
    {
        if constant == SPELL_ESSENCE_OF_SAPPHIRON {
            Some(Buff::Sapp)
        } else if constant == SPELL_MIND_QUICKENING {
            Some(Buff::Mqg)
        } else if constant == SPELL_EPHEMERAL_POWER {
            Some(Buff::Toep)
        } else if constant == SPELL_UNSTABLE_POWER {
            Some(Buff::Zhc)
        } else {
            None
        }
    }

    /// The context in which a constant beside a value of this kind is read.
    pub fn infer_value_context_from_type(value_type: AplValueType) -> (r: ValueContext)
        ensures
            r == context_of(value_type),
    {
        match value_type {
            AplValueType::PlayerCooldownExists
            | AplValueType::PlayerAuraExists
            | AplValueType::TargetAuraExists
            | AplValueType::TargetAuraStacks => ValueContext::Int,
            AplValueType::Const => ValueContext::Auto,
            _ => ValueContext::Float,
        }
    }

    /// The context in which a constant beside `value` is read.
    pub fn infer_value_context(value: &AplValue) -> (r: ValueContext)
        ensures
            r == context_of(value.value_type),
    {
        Self::infer_value_context_from_type(value.value_type)
    }

    /// Reads a constant in the given context.
    pub fn get_const_value(value: &AplValue, context: ValueContext) -> (r: Reading)
        ensures
            r == const_reading(value, context),
    {
        let whole = Reading::whole(value.vint as i64);
        let exact = Reading::Exact(value.vfloat as i128);
        if value.vfloat == 0 {
            whole
        } else if value.vint == 0 {
            exact
        } else {
            match context {
                ValueContext::Int => whole,
                ValueContext::Float => exact,
                ValueContext::Auto => {
                    let size: i128 = if value.vfloat < 0 {
                        -(value.vfloat as i128)
                    } else {
                        value.vfloat as i128
                    };
                    assert(size as int % 1_000_000 == 0 <==> value.vfloat as int % 1_000_000 == 0) by {
                        let v = value.vfloat as int;
                        if v < 0 {
                            assert(size as int == -v);
                            assert((-v) % 1_000_000 == 0 <==> v % 1_000_000 == 0) by (nonlinear_arith);
                        }
                    }
                    if size % 1_000_000 == 0 {
                        whole
                    } else {
                        exact
                    }
                },
            }
        }
    }

    /// Reads an operand for mage `lane`.
    pub fn evaluate_value(value: &AplValue, st: &State, lane: usize, context: ValueContext) -> (r: Reading)
        requires
            lane < st@.lanes.len(),
        ensures
            r == value_of(value, st@, lane as int, context),
    {
        let l = &st.lanes[lane];
        match value.value_type {
            AplValueType::Const => Self::get_const_value(value, context),
            AplValueType::SimTime => Reading::Exact(st.global.running_time as i128),
            AplValueType::SimTimePercent => {
                let clock = st.global.running_time;
                let duration = st.global.duration;
                if duration == 0 {
                    Reading::Unbounded
                } else {
                    let part: i128 = if clock < 0 { -(clock as i128) } else { clock as i128 };
                    let whole: i128 = if duration < 0 {
                        -(duration as i128)
                    } else {
                        duration as i128
                    };
                    let size: i128 = part * 100_000_000 / whole;
                    if (clock < 0) != (duration < 0) {
                        Reading::Exact(-size)
                    } else {
                        Reading::Exact(size)
                    }
                }
            },
            AplValueType::SimDuration => Reading::Exact(
                (st.global.duration as i128) - (st.global.running_time as i128),
            ),
            AplValueType::PlayerCooldownExists => Reading::flag(l.cooldown_by(value.vint).is_active()),
            AplValueType::PlayerCooldownDuration => l.cooldown_by(value.vint).remaining(),
            AplValueType::PlayerAuraExists => {
                if value.vint == SPELL_COMBUSTION {
                    Reading::whole(l.comb_left as i64)
                } else {
                    Reading::flag(l.aura_by(value.vint).is_active())
                }
            },
            AplValueType::PlayerAuraDuration => {
                if value.vint == SPELL_COMBUSTION {
                    Reading::Exact(0)
                } else {
                    l.aura_by(value.vint).remaining()
                }
            },
            AplValueType::TargetAuraExists => Reading::flag(Self::debuff_by(st, value.vint).is_active()),
            AplValueType::TargetAuraStacks => {
                if Self::debuff_by(st, value.vint).is_active() {
                    let stacks = if value.vint == SPELL_FIRE_VULNERABILITY {
                        st.boss.scorch_count
                    } else if value.vint == SPELL_IGNITE {
                        st.boss.ignite_count
                    } else {
                        0
                    };
                    Reading::whole(stacks as i64)
                } else {
                    Reading::Exact(0)
                }
            },
            AplValueType::TargetAuraDuration => Self::debuff_by(st, value.vint).remaining(),
            AplValueType::Unset => Reading::Exact(0),
        }
    }

    fn debuff_by(st: &State, id: i32) -> (r: Timer)
        ensures
            r == st@.debuff_named(id),
    {
        if id == SPELL_FIRE_VULNERABILITY {
            st.boss.scorch_timer
        } else if id == SPELL_IGNITE {
            st.boss.ignite_timer
        } else {
            Timer::In(0)
        }
    }

    /// Tests a relation between two readings.
    pub fn compare_values(left: Reading, right: Reading, op: AplConditionOp) -> (r: bool)
        ensures
            r == compared(left, right, op),
    {
        match op {
            AplConditionOp::Eq => left == right,
            AplConditionOp::Neq => left != right,
            AplConditionOp::Gt => !left.at_most(right),
            AplConditionOp::Gte => right.at_most(left),
            AplConditionOp::Lt => !right.at_most(left),
            AplConditionOp::Lte => left.at_most(right),
            AplConditionOp::Unset => false,
        }
    }
}

impl AdaptiveMage {
    /// What the mage still remembers of a tracked debuff.
    fn recall(st: &State, id: i32, reaction: i64) -> (r: Option<Reading>)
        ensures
            r == remembered_duration(st@, id, reaction),
    {
        let history = if id == SPELL_FIRE_VULNERABILITY {
            &st.boss.scorch_refresh_history
        } else {
            &st.boss.ignite_refresh_history
        };
        let now: i128 = st.global.running_time as i128;
        let start: i128 = now - (reaction as i128);
        let mut refreshed = false;
        let mut latest: Option<i64> = None;
        let mut i: usize = 0;
        while i < history.len()
            invariant
                i <= history@.len(),
                history@ == st@.history_named(id),
                now == st@.global.running_time,
                start == st@.global.running_time - reaction,
                refreshed == refreshed_within(history@, i as int, start as int, now as int),
                latest == latest_refresh(history@, i as int, start as int),
            decreases history@.len() - i,
        {
            let here = history[i];
            if start < (here as i128) && (here as i128) <= now {
                refreshed = true;
            }
            let replaces = match latest {
                None => true,
                Some(earlier) => earlier <= here,
            };
            if (here as i128) <= start && replaces {
                latest = Some(here);
            }
            i += 1;
        }
        if !refreshed {
            return None;
        }
        match latest {
            None => None,
            Some(refresh) => {
                let full: i64 = if id == SPELL_FIRE_VULNERABILITY {
                    SCORCH_TIME
                } else {
                    IGNITE_TIME
                };
                let left: i128 = (full as i128) - (start - (refresh as i128));
                if left > 0 {
                    Some(Reading::Exact(left))
                } else {
                    None
                }
            },
        }
    }

    /// Tests a comparison that involves the time left on a debuff, taking
    /// into account what the mage remembers of it.
    pub fn compare_debuff_duration_with_reaction_time(
        &self,
        left_val: &AplValue,
        right_val: &AplValue,
        op: AplConditionOp,
        st: &State,
        lane: usize,
        context: ValueContext,
    ) -> (r: bool)
        requires
            lane < st@.lanes.len(),
        ensures
            r == duration_comparison_holds(
                left_val,
                right_val,
                op,
                st@,
                lane as int,
                self.reaction_time,
                context,
            ),
    {
        let l = Self::evaluate_value(left_val, st, lane, context);
        let r = Self::evaluate_value(right_val, st, lane, context);
        if Self::compare_values(l, r, op) {
            return true;
        }
        let reversed = left_val.value_type != AplValueType::TargetAuraDuration;
        let id = if reversed { right_val.vint } else { left_val.vint };
        if id != SPELL_FIRE_VULNERABILITY && id != SPELL_IGNITE {
            return false;
        }
        match Self::recall(st, id, self.reaction_time) {
            None => false,
            Some(then) => {
                if reversed {
                    Self::compare_values(l, then, op)
                } else {
                    Self::compare_values(then, r, op)
                }
            },
        }
    }

    /// Tests a comparison of two operands.
    pub fn compare_two_values(
        &self,
        left_val: &AplValue,
        right_val: &AplValue,
        op: AplConditionOp,
        st: &State,
        lane: usize,
    ) -> (r: bool)
        requires
            lane < st@.lanes.len(),
        ensures
            r == comparison_holds(left_val, right_val, op, st@, lane as int, self.reaction_time),
    {
        let context = if left_val.value_type == AplValueType::Const {
            Self::infer_value_context_from_type(right_val.value_type)
        } else {
            Self::infer_value_context_from_type(left_val.value_type)
        };
        if left_val.value_type == AplValueType::TargetAuraDuration || right_val.value_type
            == AplValueType::TargetAuraDuration {
            return self.compare_debuff_duration_with_reaction_time(
                left_val,
                right_val,
                op,
                st,
                lane,
                context,
            );
        }
        let left = Self::evaluate_value(left_val, st, lane, context);
        let right = Self::evaluate_value(right_val, st, lane, context);
        Self::compare_values(left, right, op)
    }

    /// Tests a condition.
    pub fn evaluate_condition(&self, condition: &AplCondition, st: &State, lane: usize) -> (r: bool)
        requires
            lane < st@.lanes.len(),
        ensures
            r == condition_holds(condition, st@, lane as int, self.reaction_time),
        decreases condition,
    {
        match condition.condition_type {
            AplConditionType::Unset => true,
            AplConditionType::True => {
                if condition.values.len() >= 1 {
                    let context = Self::infer_value_context(&condition.values[0]);
                    Self::evaluate_value(&condition.values[0], st, lane, context) != Reading::Exact(0)
                } else {
                    false
                }
            },
            AplConditionType::False => {
                if condition.values.len() >= 1 {
                    let context = Self::infer_value_context(&condition.values[0]);
                    Self::evaluate_value(&condition.values[0], st, lane, context) == Reading::Exact(0)
                } else {
                    false
                }
            },
            AplConditionType::Not => {
                if condition.conditions.len() >= 1 {
                    !self.evaluate_condition(&condition.conditions[0], st, lane)
                } else {
                    false
                }
            },
            AplConditionType::And => {
                let mut i: usize = 0;
                while i < condition.conditions.len()
                    invariant
                        lane < st@.lanes.len(),
                        i <= condition.conditions.len(),
                        condition.condition_type == AplConditionType::And,
                        forall|j: int|
                            0 <= j < i ==> condition_holds(
                                #[trigger] &condition.conditions[j],
                                st@,
                                lane as int,
                                self.reaction_time,
                            ),
                    decreases condition.conditions.len() - i,
                {
                    if !self.evaluate_condition(&condition.conditions[i], st, lane) {
                        return false;
                    }
                    i += 1;
                }
                true
            },
            AplConditionType::Or => {
                let mut i: usize = 0;
                while i < condition.conditions.len()
                    invariant
                        lane < st@.lanes.len(),
                        i <= condition.conditions.len(),
                        condition.condition_type == AplConditionType::Or,
                        forall|j: int|
                            0 <= j < i ==> !condition_holds(
                                #[trigger] &condition.conditions[j],
                                st@,
                                lane as int,
                                self.reaction_time,
                            ),
                    decreases condition.conditions.len() - i,
                {
                    if self.evaluate_condition(&condition.conditions[i], st, lane) {
                        return true;
                    }
                    i += 1;
                }
                false
            },
            AplConditionType::Cmp => {
                if condition.values.len() >= 2 {
                    self.compare_two_values(
                        &condition.values[0],
                        &condition.values[1],
                        condition.op,
                        st,
                        lane,
                    )
                } else {
                    false
                }
            },
        }
    }

    /// The action of the first rule whose condition holds and whose action
    /// the mage can use now.  A rule that holds but whose action is on
    /// cooldown is passed over.
    pub fn conditional_action(&self, items: &Vec<AplItem>, st: &State, lane: usize) -> (r: Option<Action>)
        requires
            lane < st@.lanes.len(),
        ensures
            first_match(items@, 0, st@, lane as int, self.reaction_time) < items@.len() ==> r == Some(
                items@[first_match(items@, 0, st@, lane as int, self.reaction_time)].action.key,
            ),
            first_match(items@, 0, st@, lane as int, self.reaction_time) >= items@.len() ==> r is None,
    {
        let mut i: usize = 0;
        while i < items.len()
            invariant
                lane < st@.lanes.len(),
                i <= items@.len(),
                first_match(items@, i as int, st@, lane as int, self.reaction_time) == first_match(
                    items@,
                    0,
                    st@,
                    lane as int,
                    self.reaction_time,
                ),
            decreases items@.len() - i,
        {
            if self.evaluate_condition(&items[i].condition, st, lane) {
                if action_ready_for_action(st, lane, items[i].action.key) {
                    return Some(items[i].action.key);
                }
            }
            i += 1;
        }
        None
    }

    /// Where the opener stands after a decision taken in state `st`.
    pub open spec fn next_stage(&self, st: StateView, lane: int) -> int {
        let p = first_ready(self.initial_sequence@, self.stage as int, st, lane);
        if p < self.initial_sequence@.len() {
            p + 1
        } else {
            self.initial_sequence@.len() as int
        }
    }
}

impl MageDecider for AdaptiveMage {
    open spec fn choice(&self, st: StateView, lane: int) -> Option<(Action, i64)> {
        let p = first_ready(self.initial_sequence@, self.stage as int, st, lane);
        let m = first_match(self.items@, 0, st, lane, self.reaction_time);
        if p < self.initial_sequence@.len() {
            Some((self.initial_sequence@[p], self.recast_delay))
        } else if m < self.items@.len() {
            Some((self.items@[m].action.key, self.recast_delay))
        } else {
            Some((self.default_action, self.recast_delay))
        }
    }

    fn decide(&mut self, st: &State, lane: usize) -> (r: Option<(Action, i64)>)
        ensures
            final(self).stage == old(self).next_stage(st@, lane as int),
            final(self).initial_sequence@ == old(self).initial_sequence@,
            final(self).items@ == old(self).items@,
            final(self).default_action == old(self).default_action,
            final(self).recast_delay == old(self).recast_delay,
            final(self).reaction_time == old(self).reaction_time,
    {
        let p = walk_opener(&self.initial_sequence, self.stage, st, lane);
        if p < self.initial_sequence.len() {
            self.stage = p + 1;
            return Some((self.initial_sequence[p], self.recast_delay));
        }
        self.stage = self.initial_sequence.len();
        match self.conditional_action(&self.items, st, lane) {
            Some(action) => Some((action, self.recast_delay)),
            None => Some((self.default_action, self.recast_delay)),
        }
    }
}

/// A mage of either kind.
#[derive(Debug)]
pub enum AnyMage {
    Scripted(ScriptedMage),
    Adaptive(AdaptiveMage),
}

impl AnyMage {
    /// Whether `self` is `before` after a decision taken in state `st`: a
    /// mage of the same kind and with the same script and rules, whose
    /// opener has moved on.
    pub open spec fn moved_on(&self, before: &AnyMage, st: StateView, lane: int) -> bool {
        match (self, before) {
            (AnyMage::Scripted(a), AnyMage::Scripted(b)) => {
                &&& a.stage == b.next_stage(st, lane)
                &&& a.initial_sequence@ == b.initial_sequence@
                &&& a.default_action == b.default_action
                &&& a.recast_delay == b.recast_delay
            },
            (AnyMage::Adaptive(a), AnyMage::Adaptive(b)) => {
                &&& a.stage == b.next_stage(st, lane)
                &&& a.initial_sequence@ == b.initial_sequence@
                &&& a.items@ == b.items@
                &&& a.default_action == b.default_action
                &&& a.recast_delay == b.recast_delay
                &&& a.reaction_time == b.reaction_time
            },
            _ => false,
        }
    }
}

impl MageDecider for AnyMage {
    open spec fn choice(&self, st: StateView, lane: int) -> Option<(Action, i64)> {
        match self {
            AnyMage::Scripted(m) => m.choice(st, lane),
            AnyMage::Adaptive(m) => m.choice(st, lane),
        }
    }

    fn decide(&mut self, st: &State, lane: usize) -> (r: Option<(Action, i64)>)
        ensures
            final(self).moved_on(old(self), st@, lane as int),
    {
        match self {
            AnyMage::Scripted(m) => m.decide(st, lane),
            AnyMage::Adaptive(m) => m.decide(st, lane),
        }
    }
}

/// What a team answers in state `st`: what the mage of the lane that is
/// free next answers, or nothing where there is no lane.
pub open spec fn team_choice(mages: Seq<AnyMage>, st: StateView) -> Option<(usize, Action, i64)> {
    if st.lanes.len() == 0 {
        None
    } else {
        let lane = st.next_cast_lane();
        match mages[lane].choice(st, lane) {
            Some((action, delay)) => Some((lane as usize, action, delay)),
            None => None,
        }
    }
}

/// Whether `after` is the team `before` once it has answered in state
/// `st`: the mage asked has moved on, and every other is as before.
pub open spec fn team_moved_on(after: Seq<AnyMage>, before: Seq<AnyMage>, st: StateView) -> bool {
    &&& after.len() == before.len()
    &&& forall|i: int|
        0 <= i < before.len() && (st.lanes.len() == 0 || i != st.next_cast_lane()) ==> #[trigger] after[i]
            == before[i]
    &&& st.lanes.len() > 0 ==> after[st.next_cast_lane()].moved_on(
        &before[st.next_cast_lane()],
        st,
        st.next_cast_lane(),
    )
}

fn ask(mages: &mut Vec<AnyMage>, st: &State) -> (r: Option<(usize, Action, i64)>)
    requires
        old(mages)@.len() >= st@.lanes.len(),
    ensures
        r == team_choice(old(mages)@, st@),
        team_moved_on(final(mages)@, old(mages)@, st@),
{
    match st.next_cast_lane() {
        None => None,
        Some(lane) => {
            match mages[lane].decide(st, lane) {
                Some((action, delay)) => Some((lane, action, delay)),
                None => None,
            }
        },
    }
}

/// One mage per lane, each of either kind.
#[derive(Debug)]
pub struct TeamDecider {
    pub mages: Vec<AnyMage>,
}

impl TeamDecider {
    /// A team of the given mages, lane by lane.
    pub fn new(mages: Vec<AnyMage>) -> (r: TeamDecider)
        ensures
            r.mages@ == mages@,
    {
        TeamDecider { mages }
    }
}

impl Decider for TeamDecider {
    open spec fn serves(&self, st: StateView) -> bool {
        self.mages@.len() >= st.lanes.len()
    }

    open spec fn choice(&self, st: StateView) -> Option<(usize, Action, i64)> {
        team_choice(self.mages@, st)
    }

    fn can_serve(&self, st: &State) -> (r: bool) {
        self.mages.len() >= st.lanes.len()
    }

    fn next_action(&mut self, st: &State) -> (r: Option<(usize, Action, i64)>)
        ensures
            team_moved_on(final(self).mages@, old(self).mages@, st@),
    {
        ask(&mut self.mages, st)
    }
}

/// One mage per lane, each of either kind, for teams that go by rules.
#[derive(Debug)]
pub struct AdaptiveTeamDecider {
    pub mages: Vec<AnyMage>,
}

impl AdaptiveTeamDecider {
    /// A team of the given mages, lane by lane.
    pub fn new(mages: Vec<AnyMage>) -> (r: AdaptiveTeamDecider)
        ensures
            r.mages@ == mages@,
    {
        AdaptiveTeamDecider { mages }
    }
}

impl Decider for AdaptiveTeamDecider {
    open spec fn serves(&self, st: StateView) -> bool {
        self.mages@.len() >= st.lanes.len()
    }

    open spec fn choice(&self, st: StateView) -> Option<(usize, Action, i64)> {
        team_choice(self.mages@, st)
    }

    fn can_serve(&self, st: &State) -> (r: bool) {
        self.mages.len() >= st.lanes.len()
    }

    fn next_action(&mut self, st: &State) -> (r: Option<(usize, Action, i64)>)
        ensures
            team_moved_on(final(self).mages@, old(self).mages@, st@),
    {
        ask(&mut self.mages, st)
    }
}

} // verus!
