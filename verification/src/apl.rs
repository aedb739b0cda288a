//! The action priority list: rules a mage goes through, top to bottom, to
//! pick the next action.

use vstd::prelude::*;
use crate::constants::Action;
use crate::decisions::{AnyMage, ScriptedMage, TeamDecider};
use crate::json::Json;
use crate::legacy_config::LegacyPlayer;
use crate::orchestration::Timing;

verus! {

/// Whether two texts hold the same characters.
pub fn same_text(a: &str, b: &str) -> (r: bool)
    ensures
        r == (a@ == b@),
{
    a.to_owned() == b.to_owned()
}

/// What kind of test a condition makes.
#[derive(Debug, PartialEq, Eq, Clone, Copy, Structural)]
pub enum AplConditionType {
    /// No test: the condition always holds.
    Unset,
    And,
    Or,
    /// Compares two values.
    Cmp,
    Not,
    /// Holds when its value is zero.
    False,
    /// Holds when its value is not zero.
    True,
}

impl Default for AplConditionType {
    fn default() -> (r: AplConditionType)
        ensures
            r == AplConditionType::Unset,
    {
        AplConditionType::Unset
    }
}

/// The relation a comparison tests.
#[derive(Debug, PartialEq, Eq, Clone, Copy, Structural)]
pub enum AplConditionOp {
    /// No relation: the comparison never holds.
    Unset,
    Eq,
    Neq,
    Gt,
    Gte,
    Lt,
    Lte,
}

impl Default for AplConditionOp {
    fn default() -> (r: AplConditionOp)
        ensures
            r == AplConditionOp::Unset,
    {
        AplConditionOp::Unset
    }
}

/// Where a value comes from.
#[derive(Debug, PartialEq, Eq, Clone, Copy, Structural)]
pub enum AplValueType {
    Unset,
    Const,
    PlayerCooldownExists,
    PlayerCooldownDuration,
    PlayerAuraExists,
    PlayerAuraDuration,
    TargetAuraExists,
    TargetAuraStacks,
    TargetAuraDuration,
    SimTime,
    SimTimePercent,
    SimDuration,
}

impl Default for AplValueType {
    fn default() -> (r: AplValueType)
        ensures
            r == AplValueType::Unset,
    {
        AplValueType::Unset
    }
}

/// A priority list.
#[derive(Debug)]
pub struct Apl {
    pub items: Vec<AplItem>,
}

/// One rule: do `action` if `condition` holds.
#[derive(Debug)]
pub struct AplItem {
    pub condition: AplCondition,
    pub action: AplAction,
}

/// A test on the state of the trial.  `conditions` holds the operands of
/// `And`, `Or` and `Not`; `values` those of `Cmp`, `True` and `False`.
#[derive(Debug)]
pub struct AplCondition {
    pub condition_type: AplConditionType,
    pub op: AplConditionOp,
    pub conditions: Vec<AplCondition>,
    pub values: Vec<AplValue>,
}

/// What a rule does.
#[derive(Debug)]
pub struct AplAction {
    pub key: Action,
    pub target_id: i32,
    pub sequence: Vec<AplAction>,
}

/// An operand.  A constant carries its number twice: as a whole number in
/// `vint`, and in millionths in `vfloat`; a zero stands for "not given".
/// For any other kind `vint` names the spell or aura that is meant.
#[derive(Debug, Clone)]
pub struct AplValue {
    pub value_type: AplValueType,
    pub vstr: String,
    pub vfloat: i64,
    pub vint: i32,
}

impl AplConditionType {
    pub open spec fn named(s: Seq<char>) -> AplConditionType {
        if s == "And"@ {
            AplConditionType::And
        } else if s == "Or"@ {
            AplConditionType::Or
        } else if s == "Cmp"@ {
            AplConditionType::Cmp
        } else if s == "Not"@ {
            AplConditionType::Not
        } else if s == "False"@ {
            AplConditionType::False
        } else if s == "True"@ {
            AplConditionType::True
        } else {
            AplConditionType::Unset
        }
    }

    /// The kind of test with the given name; `Unset` for any other text.
    pub fn from_json_string(s: &str) -> (r: AplConditionType)
        ensures
            r == Self::named(s@),
    {
        if same_text(s, "And") {
            AplConditionType::And
        } else if same_text(s, "Or") {
            AplConditionType::Or
        } else if same_text(s, "Cmp") {
            AplConditionType::Cmp
        } else if same_text(s, "Not") {
            AplConditionType::Not
        } else if same_text(s, "False") {
            AplConditionType::False
        } else if same_text(s, "True") {
            AplConditionType::True
        } else {
            AplConditionType::Unset
        }
    }
}

impl AplConditionOp {
    pub open spec fn named(s: Seq<char>) -> AplConditionOp {
        if s == "Eq"@ {
            AplConditionOp::Eq
        } else if s == "Neq"@ {
            AplConditionOp::Neq
        } else if s == "Gt"@ {
            AplConditionOp::Gt
        } else if s == "Gte"@ {
            AplConditionOp::Gte
        } else if s == "Lt"@ {
            AplConditionOp::Lt
        } else if s == "Lte"@ {
            AplConditionOp::Lte
        } else {
            AplConditionOp::Unset
        }
    }

    /// The relation with the given name; `Unset` for any other text.
    pub fn from_json_string(s: &str) -> (r: AplConditionOp)
        ensures
            r == Self::named(s@),
    {
        if same_text(s, "Eq") {
            AplConditionOp::Eq
        } else if same_text(s, "Neq") {
            AplConditionOp::Neq
        } else if same_text(s, "Gt") {
            AplConditionOp::Gt
        } else if same_text(s, "Gte") {
            AplConditionOp::Gte
        } else if same_text(s, "Lt") {
            AplConditionOp::Lt
        } else if same_text(s, "Lte") {
            AplConditionOp::Lte
        } else {
            AplConditionOp::Unset
        }
    }
}

impl AplValueType {
    pub open spec fn named(s: Seq<char>) -> AplValueType {
        if s == "Const"@ {
            AplValueType::Const
        } else if s == "PlayerCooldownExists"@ {
            AplValueType::PlayerCooldownExists
        } else if s == "PlayerCooldownDuration"@ {
            AplValueType::PlayerCooldownDuration
        } else if s == "PlayerAuraExists"@ {
            AplValueType::PlayerAuraExists
        } else if s == "PlayerAuraDuration"@ {
            AplValueType::PlayerAuraDuration
        } else if s == "TargetAuraExists"@ {
            AplValueType::TargetAuraExists
        } else if s == "TargetAuraStacks"@ {
            AplValueType::TargetAuraStacks
        } else if s == "TargetAuraDuration"@ {
            AplValueType::TargetAuraDuration
        } else if s == "SimTime"@ {
            AplValueType::SimTime
        } else if s == "SimTimePercent"@ {
            AplValueType::SimTimePercent
        } else if s == "SimDuration"@ {
            AplValueType::SimDuration
        } else {
            AplValueType::Unset
        }
    }

    /// The kind of value with the given name; `Unset` for any other text.
    pub fn from_json_string(s: &str) -> (r: AplValueType)
        ensures
            r == Self::named(s@),
    {
        if same_text(s, "Const") {
            AplValueType::Const
        } else if same_text(s, "PlayerCooldownExists") {
            AplValueType::PlayerCooldownExists
        } else if same_text(s, "PlayerCooldownDuration") {
            AplValueType::PlayerCooldownDuration
        } else if same_text(s, "PlayerAuraExists") {
            AplValueType::PlayerAuraExists
        } else if same_text(s, "PlayerAuraDuration") {
            AplValueType::PlayerAuraDuration
        } else if same_text(s, "TargetAuraExists") {
            AplValueType::TargetAuraExists
        } else if same_text(s, "TargetAuraStacks") {
            AplValueType::TargetAuraStacks
        } else if same_text(s, "TargetAuraDuration") {
            AplValueType::TargetAuraDuration
        } else if same_text(s, "SimTime") {
            AplValueType::SimTime
        } else if same_text(s, "SimTimePercent") {
            AplValueType::SimTimePercent
        } else if same_text(s, "SimDuration") {
            AplValueType::SimDuration
        } else {
            AplValueType::Unset
        }
    }
}

pub open spec fn spec_apl_key_to_action(key: Seq<char>) -> Action {
    if key == "Combustion"@ {
        Action::Combustion
    } else if key == "EphemeralPower"@ {
        Action::Toep
    } else if key == "EssenceOfSapphiron"@ {
        Action::Sapp
    } else if key == "Fireball"@ {
        Action::Fireball
    } else if key == "FireBlast"@ {
        Action::FireBlast
    } else if key == "Frostbolt"@ {
        Action::Frostbolt
    } else if key == "MindQuickening"@ {
        Action::Mqg
    } else if key == "PowerInfusion"@ {
        Action::PowerInfusion
    } else if key == "Pyroblast"@ {
        Action::Pyroblast
    } else if key == "Scorch"@ {
        Action::Scorch
    } else if key == "UnstablePower"@ {
        Action::Zhc
    } else {
        Action::Gcd
    }
}

/// The action a rule names by `key`.  "Wait" and every unknown key mean
/// waiting out a global cooldown.
pub fn apl_key_to_action(key: &str) -> (r: Action)
    ensures
        r == spec_apl_key_to_action(key@),
{
    if same_text(key, "Combustion") {
        Action::Combustion
    } else if same_text(key, "EphemeralPower") {
        Action::Toep
    } else if same_text(key, "EssenceOfSapphiron") {
        Action::Sapp
    } else if same_text(key, "Fireball") {
        Action::Fireball
    } else if same_text(key, "FireBlast") {
        Action::FireBlast
    } else if same_text(key, "Frostbolt") {
        Action::Frostbolt
    } else if same_text(key, "MindQuickening") {
        Action::Mqg
    } else if same_text(key, "PowerInfusion") {
        Action::PowerInfusion
    } else if same_text(key, "Pyroblast") {
        Action::Pyroblast
    } else if same_text(key, "Scorch") {
        Action::Scorch
    } else if same_text(key, "UnstablePower") {
        Action::Zhc
    } else {
        Action::Gcd
    }
}

/// The number a node stands for, in millionths: a number's own value, or
/// what a text that is not empty reads as; `default` for anything else.
pub open spec fn spec_fixed_of(value: &Json, default: i64) -> i64 {
    match value {
        Json::Number { whole, fixed } => *fixed,
        Json::Text { text, as_whole, as_fixed } => if text@.len() == 0 {
            default
        } else {
            match as_fixed {
                Some(x) => *x,
                None => default,
            }
        },
        _ => default,
    }
}

/// The whole number a node stands for: a number written as a whole number,
/// cut to 32 bits, or what a text that is not empty reads as; `default` for
/// anything else.
pub open spec fn spec_whole_of(value: &Json, default: i32) -> i32 {
    match value {
        Json::Number { whole, fixed } => match whole {
            Some(w) => *w as i32,
            None => default,
        },
        Json::Text { text, as_whole, as_fixed } => if text@.len() == 0 {
            default
        } else {
            match as_whole {
                Some(x) => *x,
                None => default,
            }
        },
        _ => default,
    }
}

/// Reads a number in millionths from a node.
#[verifier::when_used_as_spec(spec_fixed_of)]
pub fn get_f64_from_value(value: &Json, default: i64) -> (r: i64)
    ensures
        r == spec_fixed_of(value, default),
{
    match value {
        Json::Number { whole, fixed } => *fixed,
        Json::Text { text, as_whole, as_fixed } => {
            if text.as_str().is_empty() {
                default
            } else {
                match as_fixed {
                    Some(x) => *x,
                    None => default,
                }
            }
        },
        _ => default,
    }
}

/// Reads a whole number from a node.
#[verifier::when_used_as_spec(spec_whole_of)]
pub fn get_i32_from_value(value: &Json, default: i32) -> (r: i32)
    ensures
        r == spec_whole_of(value, default),
{
    match value {
        Json::Number { whole, fixed } => match whole {
            Some(w) => #[verifier::truncate]
            (*w as i32),
            None => default,
        },
        Json::Text { text, as_whole, as_fixed } => {
            if text.as_str().is_empty() {
                default
            } else {
                match as_whole {
                    Some(x) => *x,
                    None => default,
                }
            }
        },
        _ => default,
    }
}

impl Json {
    /// The elements of the member named `key`, if there is such a member
    /// and it is a list.
    pub open spec fn list_at(&self, key: Seq<char>) -> Option<Seq<Json>> {
        if self.has_member(key) && self.member(key) is List {
            Some(self.member(key)->List_0@)
        } else {
            None
        }
    }
}

impl AplValue {
    /// Whether the operand is what the node says: each part as its member
    /// gives it, and unset, empty or zero where the member is missing.
    pub open spec fn reads(&self, json: &Json) -> bool {
        &&& self.value_type == match json.text_at("value_type"@) {
            Some(s) => AplValueType::named(s),
            None => AplValueType::Unset,
        }
        &&& self.vstr@ == match json.text_at("vstr"@) {
            Some(s) => s,
            None => Seq::<char>::empty(),
        }
        &&& self.vfloat == if json.has_member("vfloat"@) {
            spec_fixed_of(&json.member("vfloat"@), 0)
        } else {
            0
        }
        &&& self.vint == if json.has_member("vint"@) {
            spec_whole_of(&json.member("vint"@), 0)
        } else {
            0
        }
    }

    /// Reads an operand from a node.
    pub fn from(json: &Json) -> (r: AplValue)
        ensures
            r.reads(json),
    {
        let value_type = match json.get_str("value_type") {
            Some(s) => AplValueType::from_json_string(s),
            None => AplValueType::Unset,
        };
        let vstr = match json.get_str("vstr") {
            Some(s) => s.to_owned(),
            None => String::new(),
        };
        let vfloat = match json.get("vfloat") {
            Some(v) => get_f64_from_value(v, 0),
            None => 0,
        };
        let vint = match json.get("vint") {
            Some(v) => get_i32_from_value(v, 0),
            None => 0,
        };
        AplValue { value_type, vstr, vfloat, vint }
    }
}

impl AplCondition {
    /// Whether the condition is what the node says: kind and relation by
    /// their names, and the nested conditions and the operands one for one
    /// as the lists of the node give them.
    pub open spec fn reads(&self, json: &Json) -> bool
        decreases self,
    {
        &&& self.condition_type == match json.text_at("condition_type"@) {
            Some(s) => AplConditionType::named(s),
            None => AplConditionType::Unset,
        }
        &&& self.op == match json.text_at("op"@) {
            Some(s) => AplConditionOp::named(s),
            None => AplConditionOp::Unset,
        }
        &&& match json.list_at("conditions"@) {
            Some(items) => self.conditions.len() == items.len() && forall|i: int|
                0 <= i < self.conditions.len() ==> (#[trigger] self.conditions[i]).reads(&items[i]),
            None => self.conditions.len() == 0,
        }
        &&& match json.list_at("values"@) {
            Some(items) => self.values@.len() == items.len() && forall|i: int|
                0 <= i < self.values@.len() ==> (#[trigger] self.values@[i]).reads(&items[i]),
            None => self.values@.len() == 0,
        }
    }

    /// Reads a condition, and every condition nested in it, from a node.
    #[verifier::loop_isolation(false)]
    pub fn from(json: &Json) -> (r: AplCondition)
        ensures
            r.reads(json),
        decreases json,
    {
        let condition_type = match json.get_str("condition_type") {
            Some(s) => AplConditionType::from_json_string(s),
            None => AplConditionType::Unset,
        };
        let op = match json.get_str("op") {
            Some(s) => AplConditionOp::from_json_string(s),
            None => AplConditionOp::Unset,
        };
        let mut conditions: Vec<AplCondition> = Vec::new();
        match json.get("conditions") {
            Some(node) => match node.as_array() {
                Some(items) => {
                    let mut i: usize = 0;
                    while i < items.len()
                        invariant
                            i <= items@.len(),
                            json.list_at("conditions"@) == Some(items@),
                            conditions@.len() == i,
                            forall|j: int| 0 <= j < i ==> (#[trigger] conditions[j]).reads(&items@[j]),
                        decreases items@.len() - i,
                    {
                        proof {
                            let fields = json->Object_0;
                            let k = crate::json::field_named(fields@, "conditions"@, 0);
                            crate::json::lemma_field_named(fields@, "conditions"@, 0);
                            vstd::std_specs::vec::axiom_vec_index_decreases(fields, k);
                            vstd::std_specs::vec::axiom_vec_index_decreases(*items, i as int);
                            assert(decreases_to!(json => fields));
                            assert(decreases_to!(fields => fields[k]));
                            assert(decreases_to!(fields[k] => fields[k].value));
                            assert(fields[k].value == *node);
                            assert(decreases_to!(node => items));
                            assert(decreases_to!(items => items[i as int]));
                        }
                        let item = AplCondition::from(&items[i]);
                        conditions.push(item);
                        i += 1;
                    }
                },
                None => {},
            },
            None => {},
        }
        let mut values: Vec<AplValue> = Vec::new();
        match json.get("values") {
            Some(node) => match node.as_array() {
                Some(items) => {
                    let mut i: usize = 0;
                    while i < items.len()
                        invariant
                            i <= items@.len(),
                            values@.len() == i,
                            forall|j: int| 0 <= j < i ==> (#[trigger] values@[j]).reads(&items@[j]),
                        decreases items@.len() - i,
                    {
                        let item = AplValue::from(&items[i]);
                        values.push(item);
                        i += 1;
                    }
                },
                None => {},
            },
            None => {},
        }
        AplCondition { condition_type, op, conditions, values }
    }
}

/// The action a rule list falls back on: the one named under
/// `defaultAction.action.key`, and Fireball where there is no such text.
pub open spec fn spec_default_action(apl: &Json) -> Action {
    if apl.has_member("defaultAction"@) && apl.member("defaultAction"@).has_member("action"@) {
        match apl.member("defaultAction"@).member("action"@).text_at("key"@) {
            Some(key) => spec_apl_key_to_action(key),
            None => Action::Fireball,
        }
    } else {
        Action::Fireball
    }
}

/// The action a rule list falls back on.
#[verifier::when_used_as_spec(spec_default_action)]
pub fn extract_default_action(apl_value: &Json) -> (r: Action)
    ensures
        r == spec_default_action(apl_value),
{
    match apl_value.get("defaultAction") {
        Some(da) => match da.get("action") {
            Some(action) => match action.get_str("key") {
                Some(key) => apl_key_to_action(key),
                None => Action::Fireball,
            },
            None => Action::Fireball,
        },
        None => Action::Fireball,
    }
}

/// The entries of an opener, as a rule list gives them under
/// `fixedSequence.action.sequence`, if it does.
pub open spec fn opener_entries(apl: &Json) -> Option<Seq<Json>> {
    if apl.has_member("fixedSequence"@) && apl.member("fixedSequence"@).has_member("action"@) {
        apl.member("fixedSequence"@).member("action"@).list_at("sequence"@)
    } else {
        None
    }
}

/// The actions of the first `n` entries that name one, in order.
pub open spec fn named_actions(entries: Seq<Json>, n: int) -> Seq<Action>
    decreases n,
{
    if n <= 0 {
        Seq::empty()
    } else {
        match entries[n - 1].text_at("key"@) {
            Some(key) => named_actions(entries, n - 1).push(spec_apl_key_to_action(key)),
            None => named_actions(entries, n - 1),
        }
    }
}

/// The opener of a rule list: one action for every entry that names one;
/// empty where the list gives no opener.
pub fn extract_fixed_sequence(apl_value: &Json) -> (r: Vec<Action>)
    ensures
        r@ == match opener_entries(apl_value) {
            Some(entries) => named_actions(entries, entries.len() as int),
            None => Seq::<Action>::empty(),
        },
{
    let mut r: Vec<Action> = Vec::new();
    match apl_value.get("fixedSequence") {
        Some(fs) => match fs.get("action") {
            Some(action) => match action.get("sequence") {
                Some(seq) => match seq.as_array() {
                    Some(items) => {
                        let mut i: usize = 0;
                        while i < items.len()
                            invariant
                                i <= items@.len(),
                                r@ == named_actions(items@, i as int),
                            decreases items@.len() - i,
                        {
                            match items[i].get_str("key") {
                                Some(key) => {
                                    r.push(apl_key_to_action(key));
                                },
                                None => {},
                            }
                            i += 1;
                        }
                    },
                    None => {},
                },
                None => {},
            },
            None => {},
        },
        None => {},
    }
    r
}

/// The opener a rule list gives; empty where it gives none.
pub open spec fn spec_fixed_sequence(apl: &Json) -> Seq<Action> {
    match opener_entries(apl) {
        Some(entries) => named_actions(entries, entries.len() as int),
        None => Seq::<Action>::empty(),
    }
}

/// Whether `mage` is the scripted mage of a sheet entry: at the start of
/// the opener and with the fallback of the entry's rule list, or of no
/// opener and Fireball where the entry has no rule list.
pub open spec fn mage_reads(mage: &ScriptedMage, player: &LegacyPlayer, recast_delay: i64) -> bool {
    &&& mage.stage == 0
    &&& mage.recast_delay == recast_delay
    &&& match player.apl {
        Some(apl) => mage.initial_sequence@ == spec_fixed_sequence(&apl) && mage.default_action
            == spec_default_action(&apl),
        None => mage.initial_sequence@.len() == 0 && mage.default_action == Action::Fireball,
    }
}

/// Whether `mages` are the scripted mages of a sheet, one per entry.
pub open spec fn team_reads(mages: Seq<AnyMage>, players: Seq<LegacyPlayer>, recast_delay: i64) -> bool {
    &&& mages.len() == players.len()
    &&& forall|i: int|
        0 <= i < mages.len() ==> (#[trigger] mages[i] matches AnyMage::Scripted(m) && mage_reads(
            &m,
            &players[i],
            recast_delay,
        ))
}

/// The scripted mage a rule list describes.
pub fn create_scripted_mage_from_apl(apl_value: &Json, timing: &Timing) -> (r: ScriptedMage)
    ensures
        r.stage == 0,
        r.initial_sequence@ == spec_fixed_sequence(apl_value),
        r.default_action == spec_default_action(apl_value),
        r.recast_delay == timing.recast_delay,
{
    let default_action = extract_default_action(apl_value);
    let fixed_sequence = extract_fixed_sequence(apl_value);
    ScriptedMage::new(fixed_sequence, default_action, timing.recast_delay)
}

/// The deciders of a team: each mage follows the rule list of the sheet,
/// and casts Fireball over and over where the sheet has none.
pub fn create_team_decider_from_players(players: &Vec<LegacyPlayer>, timing: &Timing) -> (r: TeamDecider)
    ensures
        team_reads(r.mages@, players@, timing.recast_delay),
{
    let mut mages: Vec<AnyMage> = Vec::new();
    let mut i: usize = 0;
    while i < players.len()
        invariant
            i <= players@.len(),
            mages@.len() == i,
            forall|j: int|
                0 <= j < i ==> (#[trigger] mages@[j] matches AnyMage::Scripted(m) && mage_reads(
                    &m,
                    &players@[j],
                    timing.recast_delay,
                )),
        decreases players@.len() - i,
    {
        let mage = match &players[i].apl {
            Some(apl) => create_scripted_mage_from_apl(apl, timing),
            None => ScriptedMage::new(Vec::new(), Action::Fireball, timing.recast_delay),
        };
        mages.push(AnyMage::Scripted(mage));
        i += 1;
    }
    TeamDecider::new(mages)
}

} // verus!
