//! Static game data: talents, spells, actions, buffs and the numeric tables
//! that a trial derives from a mage's talents before it starts.

use vstd::prelude::*;
use crate::text::{append, decimal, write_decimal};
use crate::units::HORIZON;

verus! {

/// The talents of the three mage trees, in the order of the talent table.
#[derive(Clone, Copy, Debug, PartialEq, Eq, Hash, Structural)]
pub enum Talent {
    // Arcane tree
    ArcaneSubtlety,
    ArcaneFocus,
    ImprovedArcaneMissiles,
    WandSpecialization,
    MagicAbsorbtion,
    ArcaneConcentration,
    MagicAttunement,
    ImprovedArcaneExplosion,
    ArcaneResiliance,
    ImprovedManaShield,
    ImprovedCounterspell,
    ArcaneMeditation,
    PresenceOfMind,
    ArcaneMind,
    ArcaneInstability,
    ArcanePower,
    // Fire tree
    ImprovedFireball,
    Impact,
    Ignite,
    FlameThrowing,
    ImprovedFireBlast,
    Incinerate,
    ImprovedFlamestrike,
    Pryoblast,
    BurningSoul,
    ImprovedScorch,
    ImprovedFireWard,
    MasterOfElements,
    CriticalMass,
    BlastWave,
    FirePower,
    Combustion,
    // Frost tree
    FrostWarding,
    ImprovedFrostbolt,
    ElementalPrecision,
    IceShards,
    Frostbite,
    ImprovedFrostNova,
    Permafrost,
    PiercingIce,
    ColdSnap,
    ImprovedBlizard,
    ArcticReach,
    FrostChanneling,
    Shatter,
    IceBlock,
    ImprovedConeOfCold,
    WintersChill,
    IceBarrier,
}

/// Number of talents in the table.
pub const NUM_TALENTS: usize = 49;

impl Talent {
    /// Position of the talent in the talent table.
    pub open spec fn ordinal(self) -> int {
        match self {
            Talent::ArcaneSubtlety => 0,
            Talent::ArcaneFocus => 1,
            Talent::ImprovedArcaneMissiles => 2,
            Talent::WandSpecialization => 3,
            Talent::MagicAbsorbtion => 4,
            Talent::ArcaneConcentration => 5,
            Talent::MagicAttunement => 6,
            Talent::ImprovedArcaneExplosion => 7,
            Talent::ArcaneResiliance => 8,
            Talent::ImprovedManaShield => 9,
            Talent::ImprovedCounterspell => 10,
            Talent::ArcaneMeditation => 11,
            Talent::PresenceOfMind => 12,
            Talent::ArcaneMind => 13,
            Talent::ArcaneInstability => 14,
            Talent::ArcanePower => 15,
            Talent::ImprovedFireball => 16,
            Talent::Impact => 17,
            Talent::Ignite => 18,
            Talent::FlameThrowing => 19,
            Talent::ImprovedFireBlast => 20,
            Talent::Incinerate => 21,
            Talent::ImprovedFlamestrike => 22,
            Talent::Pryoblast => 23,
            Talent::BurningSoul => 24,
            Talent::ImprovedScorch => 25,
            Talent::ImprovedFireWard => 26,
            Talent::MasterOfElements => 27,
            Talent::CriticalMass => 28,
            Talent::BlastWave => 29,
            Talent::FirePower => 30,
            Talent::Combustion => 31,
            Talent::FrostWarding => 32,
            Talent::ImprovedFrostbolt => 33,
            Talent::ElementalPrecision => 34,
            Talent::IceShards => 35,
            Talent::Frostbite => 36,
            Talent::ImprovedFrostNova => 37,
            Talent::Permafrost => 38,
            Talent::PiercingIce => 39,
            Talent::ColdSnap => 40,
            Talent::ImprovedBlizard => 41,
            Talent::ArcticReach => 42,
            Talent::FrostChanneling => 43,
            Talent::Shatter => 44,
            Talent::IceBlock => 45,
            Talent::ImprovedConeOfCold => 46,
            Talent::WintersChill => 47,
            Talent::IceBarrier => 48,
        }
    }

    pub fn index(self) -> (r: usize)
        ensures
            r == self.ordinal(),
            r < NUM_TALENTS,
    {
        match self {
            Talent::ArcaneSubtlety => 0,
            Talent::ArcaneFocus => 1,
            Talent::ImprovedArcaneMissiles => 2,
            Talent::WandSpecialization => 3,
            Talent::MagicAbsorbtion => 4,
            Talent::ArcaneConcentration => 5,
            Talent::MagicAttunement => 6,
            Talent::ImprovedArcaneExplosion => 7,
            Talent::ArcaneResiliance => 8,
            Talent::ImprovedManaShield => 9,
            Talent::ImprovedCounterspell => 10,
            Talent::ArcaneMeditation => 11,
            Talent::PresenceOfMind => 12,
            Talent::ArcaneMind => 13,
            Talent::ArcaneInstability => 14,
            Talent::ArcanePower => 15,
            Talent::ImprovedFireball => 16,
            Talent::Impact => 17,
            Talent::Ignite => 18,
            Talent::FlameThrowing => 19,
            Talent::ImprovedFireBlast => 20,
            Talent::Incinerate => 21,
            Talent::ImprovedFlamestrike => 22,
            Talent::Pryoblast => 23,
            Talent::BurningSoul => 24,
            Talent::ImprovedScorch => 25,
            Talent::ImprovedFireWard => 26,
            Talent::MasterOfElements => 27,
            Talent::CriticalMass => 28,
            Talent::BlastWave => 29,
            Talent::FirePower => 30,
            Talent::Combustion => 31,
            Talent::FrostWarding => 32,
            Talent::ImprovedFrostbolt => 33,
            Talent::ElementalPrecision => 34,
            Talent::IceShards => 35,
            Talent::Frostbite => 36,
            Talent::ImprovedFrostNova => 37,
            Talent::Permafrost => 38,
            Talent::PiercingIce => 39,
            Talent::ColdSnap => 40,
            Talent::ImprovedBlizard => 41,
            Talent::ArcticReach => 42,
            Talent::FrostChanneling => 43,
            Talent::Shatter => 44,
            Talent::IceBlock => 45,
            Talent::ImprovedConeOfCold => 46,
            Talent::WintersChill => 47,
            Talent::IceBarrier => 48,
        }
    }
}

/// Why a talent table was refused.
#[derive(Clone, Copy, Debug, PartialEq, Eq, Structural)]
pub enum TalentError {
    /// The table does not hold exactly one entry per talent.
    WrongLength { got: usize },
    /// The team has no mage at this position.
    IndexOutOfBounds { index: usize },
}

impl TalentError {
    /// What the fault reads as: how many entries the table held where one
    /// per talent was expected, or which position the team does not have.
    pub open spec fn text(self) -> Seq<char> {
        match self {
            TalentError::WrongLength { got } => "Expected 49 talents, got "@ + decimal(got as nat),
            TalentError::IndexOutOfBounds { index } => "Index "@ + decimal(index as nat)
                + " out of bounds"@,
        }
    }

    /// The fault in words.
    pub fn message(&self) -> (r: String)
        ensures
            r@ == self.text(),
    {
        let mut r = String::new();
        match self {
            TalentError::WrongLength { got } => {
                append(&mut r, "Expected 49 talents, got ");
                write_decimal(&mut r, *got);
            },
            TalentError::IndexOutOfBounds { index } => {
                append(&mut r, "Index ");
                write_decimal(&mut r, *index);
                append(&mut r, " out of bounds");
            },
        }
        assert(r@ =~= self.text());
        r
    }
}

/// Points spent in each talent by one mage.
#[derive(Debug, Clone, Copy)]
pub struct TalentPoints {
    points: [u8; 49],
}

/// The build a mage has unless told otherwise.
pub open spec fn default_talent_points() -> Seq<u8> {
    seq![
        2u8, 3, 0, 0, 0, 5, 0, 2, 0, 0, 0, 0, 0, 0, 0, 0,
        5, 0, 5, 2, 1, 2, 2, 1, 2, 3, 0, 3, 3, 1, 5, 1,
        0, 0, 3, 0, 0, 0, 0, 0, 0, 0, 0, 0, 0, 0, 0, 0, 0,
    ]
}

impl View for TalentPoints {
    type V = Seq<u8>;

    closed spec fn view(&self) -> Seq<u8> {
        self.points@
    }
}

impl TalentPoints {
    /// The default build.
    pub fn new() -> (r: TalentPoints)
        ensures
            r@ == default_talent_points(),
    {
        let points: [u8; 49] = [
            2, 3, 0, 0, 0, 5, 0, 2, 0, 0, 0, 0, 0, 0, 0, 0,
            5, 0, 5, 2, 1, 2, 2, 1, 2, 3, 0, 3, 3, 1, 5, 1,
            0, 0, 3, 0, 0, 0, 0, 0, 0, 0, 0, 0, 0, 0, 0, 0, 0,
        ];
        assert(points@ =~= default_talent_points());
        TalentPoints { points }
    }

    /// Points spent in `talent`.
    pub fn get(&self, talent: Talent) -> (r: u8)
        ensures
            r == self@[talent.ordinal()],
    {
        self.points[talent.index()]
    }

    /// Spends `points` in `talent`, leaving every other talent as it was.
    pub fn set(&mut self, talent: Talent, points: u8)
        ensures
            final(self)@ == old(self)@.update(talent.ordinal(), points),
    {
        self.points[talent.index()] = points;
        assert(self.points@ =~= old(self).points@.update(talent.ordinal(), points));
    }

    /// Reads a whole talent table.  It is accepted exactly when it holds one
    /// entry per talent, and then keeps every entry.
    pub fn from_vec(talents_data: Vec<u8>) -> (r: Result<TalentPoints, TalentError>)
        ensures
            talents_data@.len() == NUM_TALENTS ==> r is Ok && r->Ok_0@ == talents_data@,
            talents_data@.len() != NUM_TALENTS ==> r == Err::<TalentPoints, TalentError>(
                TalentError::WrongLength { got: talents_data@.len() as usize },
            ),
    {
        if talents_data.len() != NUM_TALENTS {
            return Err(TalentError::WrongLength { got: talents_data.len() });
        }
        let mut points: [u8; 49] = [0u8; 49];
        let mut i: usize = 0;
        while i < NUM_TALENTS
            invariant
                i <= NUM_TALENTS,
                talents_data@.len() == NUM_TALENTS,
                forall|j: int| 0 <= j < i ==> points@[j] == talents_data@[j],
            decreases NUM_TALENTS - i,
        {
            points[i] = talents_data[i];
            i += 1;
        }
        assert(points@ =~= talents_data@);
        Ok(TalentPoints { points })
    }
}

/// The talents of every mage of a team, by position.
#[derive(Debug, Clone)]
pub struct TeamTalentPoints {
    pub team: Vec<TalentPoints>,
}

impl TeamTalentPoints {
    /// A team of `n` mages, each with the default build.
    pub fn new(n: usize) -> (r: TeamTalentPoints)
        ensures
            r.team@.len() == n,
            forall|i: int| 0 <= i < n ==> (#[trigger] r.team@[i])@ == default_talent_points(),
    {
        let mut team: Vec<TalentPoints> = Vec::new();
        let mut i: usize = 0;
        while i < n
            invariant
                i <= n,
                team@.len() == i,
                forall|j: int| 0 <= j < i ==> (#[trigger] team@[j])@ == default_talent_points(),
            decreases n - i,
        {
            team.push(TalentPoints::new());
            i += 1;
        }
        TeamTalentPoints { team }
    }

    /// Replaces the talents of mage `i`.  Nothing changes unless `i` names a
    /// mage of the team and the table is complete.
    pub fn set_mage_talents(&mut self, i: usize, talents_data: Vec<u8>) -> (r: Result<(), TalentError>)
        ensures
            final(self).team@.len() == old(self).team@.len(),
            i >= old(self).team@.len() ==> {
                &&& r == Err::<(), TalentError>(TalentError::IndexOutOfBounds { index: i })
                &&& final(self).team@ == old(self).team@
            },
            i < old(self).team@.len() && talents_data@.len() != NUM_TALENTS ==> {
                &&& r == Err::<(), TalentError>(
                    TalentError::WrongLength { got: talents_data@.len() as usize },
                )
                &&& final(self).team@ == old(self).team@
            },
            i < old(self).team@.len() && talents_data@.len() == NUM_TALENTS ==> {
                &&& r is Ok
                &&& final(self).team@[i as int]@ == talents_data@
                &&& forall|j: int|
                    0 <= j < old(self).team@.len() && j != i ==> final(self).team@[j] == old(self).team@[j]
            },
    {
        if i >= self.team.len() {
            return Err(TalentError::IndexOutOfBounds { index: i });
        }
        match TalentPoints::from_vec(talents_data) {
            Ok(points) => {
                self.team[i] = points;
                Ok(())
            },
            Err(e) => Err(e),
        }
    }

    /// The talents of mage `i`, if the team has one there.
    pub fn get_mage_talents(&self, i: usize) -> (r: Option<TalentPoints>)
        ensures
            i < self.team@.len() ==> r == Some(self.team@[i as int]),
            i >= self.team@.len() ==> r is None,
    {
        if i < self.team.len() {
            Some(self.team[i])
        } else {
            None
        }
    }
}

/// The damaging abilities, in the order of the per-spell tables.
#[derive(Debug, Clone, Copy, PartialEq, Eq, Structural)]
pub enum Spell {
    Scorch,
    Pyroblast,
    Fireball,
    FireBlast,
    Frostbolt,
    PyroDot,
}

impl Spell {
    /// Position of the spell in the per-spell tables.
    pub open spec fn ordinal(self) -> int {
        match self {
            Spell::Scorch => 0,
            Spell::Pyroblast => 1,
            Spell::Fireball => 2,
            Spell::FireBlast => 3,
            Spell::Frostbolt => 4,
            Spell::PyroDot => 5,
        }
    }

    pub fn index(self) -> (r: usize)
        ensures
            r == self.ordinal(),
            r < NUM_SPELLS,
    {
        match self {
            Spell::Scorch => 0,
            Spell::Pyroblast => 1,
            Spell::Fireball => 2,
            Spell::FireBlast => 3,
            Spell::Frostbolt => 4,
            Spell::PyroDot => 5,
        }
    }

    pub open spec fn label(self) -> Seq<char> {
        match self {
            Spell::Fireball => "Fireball"@,
            Spell::Scorch => "Scorch"@,
            Spell::Pyroblast => "Pyroblast"@,
            Spell::FireBlast => "Fire Blast"@,
            Spell::Frostbolt => "Frostbolt"@,
            Spell::PyroDot => "Pyroblast DoT"@,
        }
    }

    /// The spell's display name.
    pub fn name(self) -> (r: &'static str)
        ensures
            r@ == self.label(),
    {
        match self {
            Spell::Fireball => "Fireball",
            Spell::Scorch => "Scorch",
            Spell::Pyroblast => "Pyroblast",
            Spell::FireBlast => "Fire Blast",
            Spell::Frostbolt => "Frostbolt",
            Spell::PyroDot => "Pyroblast DoT",
        }
    }
}

/// Everything a mage can be told to do next.
#[derive(Debug, Clone, Copy, PartialEq, Eq, Structural)]
pub enum Action {
    // Spells with a cast time or a global cooldown
    Scorch,
    Pyroblast,
    Fireball,
    FireBlast,
    Frostbolt,
    /// Waits out a global cooldown without casting anything.
    Gcd,
    // Instant effects off the global cooldown
    Combustion,
    Sapp,
    Toep,
    Zhc,
    Mqg,
    PowerInfusion,
    Berserking,
    ArcanePower,
    PresenceOfMind,
}

impl Default for Action {
    fn default() -> (r: Action)
        ensures
            r == Action::Gcd,
    {
        Action::Gcd
    }
}

impl Action {
    pub open spec fn spec_is_instant(self) -> bool {
        self == Action::Combustion || self == Action::Sapp || self == Action::Toep || self
            == Action::Zhc || self == Action::Mqg || self == Action::PowerInfusion || self
            == Action::Berserking || self == Action::Gcd
    }

    /// Whether the action takes effect the moment its cast ends, without
    /// sending a spell towards the target.
    #[verifier::when_used_as_spec(spec_is_instant)]
    pub fn is_instant(self) -> (r: bool)
        ensures
            r == self.spec_is_instant(),
    {
        match self {
            Action::Combustion
            | Action::Sapp
            | Action::Toep
            | Action::Zhc
            | Action::Mqg
            | Action::PowerInfusion
            | Action::Berserking
            | Action::Gcd => true,
            _ => false,
        }
    }

    pub open spec fn spec_triggers_gcd(&self) -> bool {
        *self == Action::Scorch || *self == Action::Pyroblast || *self == Action::Fireball || *self
            == Action::FireBlast || *self == Action::Frostbolt
    }

    /// Whether casting the action starts a global cooldown.
    #[verifier::when_used_as_spec(spec_triggers_gcd)]
    pub fn triggers_gcd(&self) -> (r: bool)
        ensures
            r == self.spec_triggers_gcd(),
    {
        match self {
            Action::Scorch
            | Action::Pyroblast
            | Action::Fireball
            | Action::FireBlast
            | Action::Frostbolt => true,
            _ => false,
        }
    }

    pub open spec fn spec_spell(self) -> Spell {
        match self {
            Action::Pyroblast => Spell::Pyroblast,
            Action::Fireball => Spell::Fireball,
            Action::FireBlast => Spell::FireBlast,
            Action::Frostbolt => Spell::Frostbolt,
            _ => Spell::Scorch,
        }
    }

    /// The spell an action sends towards the target.  An action without a
    /// spell of its own counts as Scorch.
    #[verifier::when_used_as_spec(spec_spell)]
    pub fn spell(self) -> (r: Spell)
        ensures
            r == self.spec_spell(),
    {
        match self {
            Action::Pyroblast => Spell::Pyroblast,
            Action::Fireball => Spell::Fireball,
            Action::FireBlast => Spell::FireBlast,
            Action::Frostbolt => Spell::Frostbolt,
            _ => Spell::Scorch,
        }
    }

    pub open spec fn label(self) -> Seq<char> {
        match self {
            Action::Fireball => "Fireball"@,
            Action::Scorch => "Scorch"@,
            Action::Pyroblast => "Pyroblast"@,
            Action::FireBlast => "Fire Blast"@,
            Action::Frostbolt => "Frostbolt"@,
            Action::Gcd => "GCD"@,
            Action::Combustion => "Combustion"@,
            Action::Sapp => "Sapp"@,
            Action::Toep => "ToEP"@,
            Action::Zhc => "ZHC"@,
            Action::Mqg => "MQG"@,
            Action::PowerInfusion => "Power Infusion"@,
            Action::Berserking => "Berserking"@,
            Action::ArcanePower => "Arcane Power"@,
            Action::PresenceOfMind => "Presence of Mind"@,
        }
    }

    /// The action's display name.
    pub fn name(self) -> (r: &'static str)
        ensures
            r@ == self.label(),
    {
        match self {
            Action::Fireball => "Fireball",
            Action::Scorch => "Scorch",
            Action::Pyroblast => "Pyroblast",
            Action::FireBlast => "Fire Blast",
            Action::Frostbolt => "Frostbolt",
            Action::Gcd => "GCD",
            Action::Combustion => "Combustion",
            Action::Sapp => "Sapp",
            Action::Toep => "ToEP",
            Action::Zhc => "ZHC",
            Action::Mqg => "MQG",
            Action::PowerInfusion => "Power Infusion",
            Action::Berserking => "Berserking",
            Action::ArcanePower => "Arcane Power",
            Action::PresenceOfMind => "Presence of Mind",
        }
    }
}

/// Consumables a mage may have taken before the fight.
#[derive(Debug, Copy, Clone, Eq, PartialEq, Hash, Structural)]
pub enum ConsumeBuff {
    GreaterArcaneElixir,
    ElixirOfGreaterFirepower,
    ElixirOfFrostPower,
    FlaskOfSupremePower,
    BlessedWizardOil,
    BrilliantWizardOil,
    StormwindGiftOfFriendship,
    InfallibleMind,
    VeryBerryCream,
    RunnTumTuberSurprise,
}

/// Buffs cast on a mage by the raid.
#[derive(Debug, Copy, Clone, Eq, PartialEq, Hash, Structural)]
pub enum RaidBuff {
    ArcaneIntellect,
    ImprovedMark,
    BlessingOfKings,
}

/// Buffs a mage brings from the outside world.
#[derive(Debug, Copy, Clone, Eq, PartialEq, Hash, Structural)]
pub enum WorldBuff {
    RallyingCryOfTheDragonslayer,
    SongflowerSerenade,
    DireMaulTribute,
    SpiritOfZandalar,
    SaygesDarkFortuneOfDamage,
    SoulRevival,
    TracesOfSilithyst,
}

pub const NUM_CONSUME_BUFFS: usize = 10;

pub const NUM_RAID_BUFFS: usize = 3;

pub const NUM_WORLD_BUFFS: usize = 7;

impl ConsumeBuff {
    pub open spec fn ordinal(self) -> int {
        match self {
            ConsumeBuff::GreaterArcaneElixir => 0,
            ConsumeBuff::ElixirOfGreaterFirepower => 1,
            ConsumeBuff::ElixirOfFrostPower => 2,
            ConsumeBuff::FlaskOfSupremePower => 3,
            ConsumeBuff::BlessedWizardOil => 4,
            ConsumeBuff::BrilliantWizardOil => 5,
            ConsumeBuff::StormwindGiftOfFriendship => 6,
            ConsumeBuff::InfallibleMind => 7,
            ConsumeBuff::VeryBerryCream => 8,
            ConsumeBuff::RunnTumTuberSurprise => 9,
        }
    }

    pub fn index(self) -> (r: usize)
        ensures
            r == self.ordinal(),
            r < NUM_CONSUME_BUFFS,
    {
        match self {
            ConsumeBuff::GreaterArcaneElixir => 0,
            ConsumeBuff::ElixirOfGreaterFirepower => 1,
            ConsumeBuff::ElixirOfFrostPower => 2,
            ConsumeBuff::FlaskOfSupremePower => 3,
            ConsumeBuff::BlessedWizardOil => 4,
            ConsumeBuff::BrilliantWizardOil => 5,
            ConsumeBuff::StormwindGiftOfFriendship => 6,
            ConsumeBuff::InfallibleMind => 7,
            ConsumeBuff::VeryBerryCream => 8,
            ConsumeBuff::RunnTumTuberSurprise => 9,
        }
    }
}

impl RaidBuff {
    pub open spec fn ordinal(self) -> int {
        match self {
            RaidBuff::ArcaneIntellect => 0,
            RaidBuff::ImprovedMark => 1,
            RaidBuff::BlessingOfKings => 2,
        }
    }

    pub fn index(self) -> (r: usize)
        ensures
            r == self.ordinal(),
            r < NUM_RAID_BUFFS,
    {
        match self {
            RaidBuff::ArcaneIntellect => 0,
            RaidBuff::ImprovedMark => 1,
            RaidBuff::BlessingOfKings => 2,
        }
    }
}

impl WorldBuff {
    pub open spec fn ordinal(self) -> int {
        match self {
            WorldBuff::RallyingCryOfTheDragonslayer => 0,
            WorldBuff::SongflowerSerenade => 1,
            WorldBuff::DireMaulTribute => 2,
            WorldBuff::SpiritOfZandalar => 3,
            WorldBuff::SaygesDarkFortuneOfDamage => 4,
            WorldBuff::SoulRevival => 5,
            WorldBuff::TracesOfSilithyst => 6,
        }
    }

    pub fn index(self) -> (r: usize)
        ensures
            r == self.ordinal(),
            r < NUM_WORLD_BUFFS,
    {
        match self {
            WorldBuff::RallyingCryOfTheDragonslayer => 0,
            WorldBuff::SongflowerSerenade => 1,
            WorldBuff::DireMaulTribute => 2,
            WorldBuff::SpiritOfZandalar => 3,
            WorldBuff::SaygesDarkFortuneOfDamage => 4,
            WorldBuff::SoulRevival => 5,
            WorldBuff::TracesOfSilithyst => 6,
        }
    }
}

/// Encounters with a rule of their own.
#[derive(Debug, Copy, Clone, Eq, PartialEq, Hash, Structural)]
pub enum BossType {
    Loatheb,
    Thaddius,
    /// Any other encounter.
    Other,
}

/// A mage's race.
#[derive(Debug, Copy, Clone, Eq, PartialEq, Hash, Structural)]
pub enum Racial {
    Human,
    Gnome,
    NightElf,
    Dwarf,
    Orc,
    Troll,
    Tauren,
    Undead,
    /// Any race without an effect on the simulation.
    Other,
}

impl Default for Racial {
    fn default() -> (r: Racial)
        ensures
            r == Racial::Other,
    {
        Racial::Other
    }
}

impl Racial {
    pub open spec fn spec_intellect_multiplier(self) -> u64 {
        if self == Racial::Gnome {
            1_050_000
        } else {
            1_000_000
        }
    }

    /// Multiplier on intellect, in parts per million: gnomes have five
    /// percent more.
    #[verifier::when_used_as_spec(spec_intellect_multiplier)]
    pub fn intellect_multiplier(self) -> (r: u64)
        ensures
            r == self.spec_intellect_multiplier(),
    {
        match self {
            Racial::Gnome => 1_050_000,
            _ => 1_000_000,
        }
    }

    pub open spec fn spec_base_intellect(self) -> u64 {
        match self {
            Racial::Gnome => 132_000_000_000,
            Racial::Human => 125_000_000_000,
            Racial::Troll => 121_000_000_000,
            Racial::Undead => 123_000_000_000,
            _ => 0,
        }
    }

    /// Intellect a mage of this race has before gear, in billionths.
    #[verifier::when_used_as_spec(spec_base_intellect)]
    pub fn base_intellect(self) -> (r: u64)
        ensures
            r == self.spec_base_intellect(),
    {
        match self {
            Racial::Gnome => 132_000_000_000,
            Racial::Human => 125_000_000_000,
            Racial::Troll => 121_000_000_000,
            Racial::Undead => 123_000_000_000,
            _ => 0,
        }
    }
}

/// The on-use trinkets.
#[derive(Debug, Clone, Copy, PartialEq, Eq, Hash, Structural)]
pub enum Buff {
    Sapp,
    Toep,
    Zhc,
    Mqg,
}

impl Buff {
    /// Position of the trinket in the per-trinket tables.
    pub open spec fn ordinal(self) -> int {
        match self {
            Buff::Sapp => 0,
            Buff::Toep => 1,
            Buff::Zhc => 2,
            Buff::Mqg => 3,
        }
    }

    pub fn index(self) -> (r: usize)
        ensures
            r == self.ordinal(),
            r < NUM_BUFFS,
    {
        match self {
            Buff::Sapp => 0,
            Buff::Toep => 1,
            Buff::Zhc => 2,
            Buff::Mqg => 3,
        }
    }
}

/// Whether trials keep an event log by default.
pub const LOG: bool = true;

pub const NUM_SPELLS: usize = 6;

pub const NUM_ACTIONS: usize = 12;

/// Length of the global cooldown, in ticks.
pub const GLOBAL_COOLDOWN: i64 = 1_500_000;

/// Ignite lasts this long after each refresh and ticks at this interval.
pub const IGNITE_TIME: i64 = 4_000_000;

pub const IGNITE_TICK: i64 = 2_000_000;

pub const IGNITE_STACK: u8 = 5;

pub const SCORCH_TIME: i64 = 30_000_000;

pub const SCORCH_STACK: u8 = 5;

pub const WC_TIME: i64 = 15_000_000;

pub const WC_STACK: u8 = 5;

pub const PER_WC: u64 = 20_000;

/// Curse of the Elements, as a multiplier in parts per million.
pub const COE_MULTIPLIER: u64 = 1_100_000;

/// Fire vulnerability added by each Scorch stack.
pub const SCORCH_MULTIPLIER: u64 = 30_000;

pub const FIRE_BLAST_COOLDOWN: i64 = 8_000_000;

pub const POWER_INFUSION: u64 = 200_000;

pub const ARCANE_POWER: u64 = 300_000;

/// Cast speed granted by the Mind Quickening Gem.
pub const MQG_HASTE: u64 = 330_000;

pub const NUM_BUFFS: usize = 4;

/// The first so many trinkets add spell power while active.
pub const NUM_DAMAGE_BUFFS: usize = 3;

pub const BUFF_DURATION: [i64; 4] = [20_000_000, 15_000_000, 20_000_000, 20_000_000];

pub const BUFF_COOLDOWN: [i64; 4] = [120_000_000, 90_000_000, 120_000_000, 300_000_000];

pub const PI_DURATION: i64 = 15_000_000;

pub const PI_COOLDOWN: i64 = 180_000_000;

pub const BERSERK_DURATION: i64 = 10_000_000;

pub const BERSERK_COOLDOWN: i64 = 180_000_000;

pub const AP_COOLDOWN: i64 = 180_000_000;

pub const AP_DURATION: i64 = 15_000_000;

pub const POM_COOLDOWN: i64 = 180_000_000;

/// Spell power a damage trinket adds while active, in billionths.
pub const BUFF_DAMAGE: [i64; 3] = [130_000_000_000, 175_000_000_000, 204_000_000_000];

/// Change of that bonus with every spell that lands while it is active.
pub const BUFF_PER_TICK: [i64; 3] = [0, 0, -17_000_000_000];

/// Charges of Combustion, and the crit chance each stack adds.
pub const COMBUSTIONS: u8 = 3;

pub const PER_COMBUSTION: u64 = 100_000;

pub const COMBUSTION_COOLDOWN: i64 = 180_000_000;

/// Share of the damage kept in each partial-resist tier.
pub const RES_AMOUNT: [u64; 4] = [1_000_000, 750_000, 500_000, 250_000];

/// Lower and upper end of each partial-resist tier, as chances.
pub const RES_THRESH: [u64; 4] = [0, 830_300, 941_500, 990_500];

pub const RES_THRESH_UL: [u64; 4] = [830_300, 941_500, 990_500, 1_000_000];

/// Average share of damage kept over all tiers.
pub const RESISTANCE_MODIFIER: u64 = 940_997;

pub const DMF_BUFF: u64 = 100_000;

pub const SR_BUFF: u64 = 100_000;

pub const TS_BUFF: u64 = 50_000;

pub const THADDIUS_BUFF: u64 = 1_900_000;

/// An Ignite refreshed with less than this left was refreshed late.
pub const DECISION_POINT: i64 = 2_000_000;

pub const DRAGONLING_DURATION: i64 = 60_000_000;

/// Spell power added while the dragonling's debuff is on the target.
pub const DRAGONLING_BUFF: i64 = 300_000_000_000;

pub const NIGHTFALL_PROC_PROB: u64 = 150_000;

pub const NIGHTFALL_VULN: u64 = 150_000;

pub const NIGHTFALL_DURATION: i64 = 5_000_000;

pub const UDC_MOD: u64 = 20_000;

/// Spells one mage can have in flight at once.
pub const MAX_QUEUED_SPELLS: usize = 4;

/// Refresh times remembered per debuff.
pub const MAX_DEBUFF_HISTORY: usize = 10;

pub const MAX_PI: usize = 4;

pub const PYRO_COUNT: u8 = 4;

pub const PYRO_TIMER: i64 = 3_000_000;

pub const T3_6P_CHANCE: u64 = 200_000;

pub const T3_6P_DAMAGE: u64 = 200_000_000_000;

pub const T3_6P_TIMER: i64 = 30_000_000;

pub const T2_8P_CHANCE: u64 = 100_000;

/// Opening Scorches each mage owes, by the number of mages.
pub const SCORCHES_BY_MAGES: [i32; 13] = [9000, 6, 3, 2, 2, 2, 1, 1, 1, 1, 1, 1, 1];

pub open spec fn spec_buff_cast_action(buff: Buff) -> Action {
    match buff {
        Buff::Sapp => Action::Sapp,
        Buff::Toep => Action::Toep,
        Buff::Zhc => Action::Zhc,
        Buff::Mqg => Action::Mqg,
    }
}

/// The action that uses a trinket.
#[verifier::when_used_as_spec(spec_buff_cast_action)]
pub fn buff_cast_action(buff: Buff) -> (r: Action)
    ensures
        r == spec_buff_cast_action(buff),
{
    match buff {
        Buff::Sapp => Action::Sapp,
        Buff::Toep => Action::Toep,
        Buff::Zhc => Action::Zhc,
        Buff::Mqg => Action::Mqg,
    }
}

/// Choices that shape the per-spell tables.
#[derive(Debug, Clone, Copy)]
pub struct ConstantsConfig {
    pub fireball_rank: u8,
    pub frostbolt_rank: u8,
    /// Use round base damage without a damage range.
    pub simple_spell: bool,
}

pub open spec fn default_constants_config() -> ConstantsConfig {
    ConstantsConfig { fireball_rank: 12, frostbolt_rank: 11, simple_spell: false }
}

impl Default for ConstantsConfig {
    fn default() -> (r: ConstantsConfig)
        ensures
            r == default_constants_config(),
    {
        ConstantsConfig { fireball_rank: 12, frostbolt_rank: 11, simple_spell: false }
    }
}

/// Tables derived once from a mage's talents; nothing changes them during a
/// trial.  Per-spell tables are indexed by [`Spell::ordinal`].
#[derive(Debug, Clone, Copy)]
pub struct Constants {
    /// Share of spell power added to a spell's damage, in parts per billion.
    pub sp_multiplier: [u64; 6],
    pub damage_multiplier: [u64; 6],
    pub spell_base: [u64; 6],
    pub spell_range: [u64; 6],
    pub is_pyro: [bool; 6],
    pub is_scorch: [bool; 6],
    pub is_fire: [bool; 6],
    /// Crit chance added by Incinerate.
    pub incin_bonus: [u64; 6],
    pub scorch_chance: u64,
    pub wc_chance: u64,
    pub can_pyro: bool,
    /// Cast time before haste and reaction delay.
    pub cast_time: [i64; 6],
    /// Time between the end of a cast and the impact.
    pub spell_travel: [i64; 6],
    pub fb_cooldown: i64,
    pub is_ignite: bool,
    /// Share of a fire crit that Ignite burns for.
    pub ignite_damage: u64,
    /// Extra damage of a fire crit.
    pub icrit_damage: u64,
    /// Extra damage of any other crit.
    pub crit_damage: u64,
    pub spell_trigger_t2_8p: [bool; 6],
}

/// Points spent in `t`, read from a talent table.
pub open spec fn talent_of(points: Seq<u8>, t: Talent) -> int {
    points[t.ordinal()] as int
}

/// Multiplier on fire damage from Fire Power and Arcane Instability.
pub open spec fn fire_multiplier(points: Seq<u8>) -> int {
    (1_000_000 + 20_000 * talent_of(points, Talent::FirePower)) * (1_000_000 + 10_000 * talent_of(
        points,
        Talent::ArcaneInstability,
    )) / 1_000_000
}

/// Multiplier on frost damage from Piercing Ice and Arcane Instability.
pub open spec fn frost_multiplier(points: Seq<u8>) -> int {
    (1_000_000 + 20_000 * talent_of(points, Talent::PiercingIce)) * (1_000_000 + 10_000 * talent_of(
        points,
        Talent::ArcaneInstability,
    )) / 1_000_000
}

fn school_multiplier(school: u8, instability: u8) -> (r: u64)
    ensures
        r == (1_000_000 + 20_000 * school as int) * (1_000_000 + 10_000 * instability as int)
            / 1_000_000,
{
    let a: u64 = 1_000_000 + 20_000 * (school as u64);
    let b: u64 = 1_000_000 + 10_000 * (instability as u64);
    assert(a * b <= 6_100_000 * 3_550_000) by (nonlinear_arith)
        requires
            a <= 6_100_000,
            b <= 3_550_000,
    ;
    a * b / 1_000_000
}

impl Constants {
    pub open spec fn base_table(cfg: ConstantsConfig) -> [u64; 6] {
        if cfg.simple_spell {
            [
                250_000_000_000,
                900_000_000_000,
                if cfg.fireball_rank == 11 { 561_000_000_000u64 } else { 750_000_000_000u64 },
                500_000_000_000,
                if cfg.frostbolt_rank == 10 {
                    440_000_000_000u64
                } else if cfg.frostbolt_rank == 1 {
                    20_000_000_000u64
                } else {
                    500_000_000_000u64
                },
                268_000_000_000,
            ]
        } else {
            [
                237_000_000_000,
                716_000_000_000,
                if cfg.fireball_rank == 11 { 561_000_000_000u64 } else { 596_000_000_000u64 },
                446_000_000_000,
                if cfg.frostbolt_rank == 10 {
                    440_000_000_000u64
                } else if cfg.frostbolt_rank == 1 {
                    20_000_000_000u64
                } else {
                    515_000_000_000u64
                },
                268_000_000_000,
            ]
        }
    }

    pub open spec fn range_table(cfg: ConstantsConfig) -> [u64; 6] {
        [
            if cfg.simple_spell { 0u64 } else { 43_000_000_000u64 },
            if cfg.simple_spell { 0u64 } else { 174_000_000_000u64 },
            if cfg.fireball_rank == 11 {
                154_000_000_000u64
            } else if cfg.simple_spell {
                0u64
            } else {
                164_000_000_000u64
            },
            if cfg.simple_spell { 0u64 } else { 78_000_000_000u64 },
            if cfg.frostbolt_rank == 10 {
                75_000_000_000u64
            } else if cfg.frostbolt_rank == 1 {
                2_000_000_000u64
            } else if cfg.simple_spell {
                0u64
            } else {
                40_000_000_000u64
            },
            0,
        ]
    }

    /// The tables of a mage with the given talent points.
    pub open spec fn derived(points: Seq<u8>, cfg: ConstantsConfig) -> Constants {
        let fire = fire_multiplier(points) as u64;
        let frost = frost_multiplier(points) as u64;
        let incinerate = (20_000 * talent_of(points, Talent::Incinerate)) as u64;
        Constants {
            sp_multiplier: [
                428_571_429,
                1_000_000_000,
                1_000_000_000,
                428_571_429,
                if cfg.frostbolt_rank == 1 { 407_142_857u64 } else { 814_285_714u64 },
                600_000_000,
            ],
            damage_multiplier: [fire, fire, fire, fire, frost, fire],
            spell_base: Self::base_table(cfg),
            spell_range: Self::range_table(cfg),
            is_pyro: [false, true, false, false, false, false],
            is_scorch: [true, false, false, false, false, false],
            is_fire: [true, true, true, true, false, true],
            incin_bonus: [incinerate, 0, 0, incinerate, 0, 0],
            scorch_chance: (330_000 * talent_of(points, Talent::ImprovedScorch)) as u64,
            wc_chance: (200_000 * talent_of(points, Talent::WintersChill)) as u64,
            can_pyro: talent_of(points, Talent::Pryoblast) > 0,
            cast_time: [
                1_500_000,
                6_000_000,
                (3_500_000 - 100_000 * talent_of(points, Talent::ImprovedFireball)) as i64,
                0,
                if cfg.frostbolt_rank == 1 {
                    1_500_000i64
                } else {
                    (3_000_000 - 100_000 * talent_of(points, Talent::ImprovedFrostbolt)) as i64
                },
                0,
            ],
            spell_travel: [0, 875_000, 875_000, 0, 750_000, 0],
            fb_cooldown: (8_000_000 - 500_000 * talent_of(points, Talent::ImprovedFireBlast)) as i64,
            is_ignite: talent_of(points, Talent::Ignite) > 0,
            ignite_damage: (40_000 * talent_of(points, Talent::Ignite)) as u64,
            icrit_damage: 500_000,
            crit_damage: (500_000 + 100_000 * talent_of(points, Talent::IceShards)) as u64,
            spell_trigger_t2_8p: [false, false, true, false, true, false],
        }
    }

    /// What the scheduler needs of a table: spells take no negative time to
    /// travel, no time beyond the horizon to cast or travel, and Scorch, the
    /// one spell cast below the global cooldown, no negative time to cast.
    pub open spec fn wf(self) -> bool {
        &&& forall|i: int| 0 <= i < 6 ==> 0 <= #[trigger] self.spell_travel[i] <= HORIZON
        &&& forall|i: int| 0 <= i < 6 ==> -HORIZON <= #[trigger] self.cast_time[i] <= HORIZON
        &&& 0 <= self.cast_time[0]
    }

    /// The tables for `talents` with the default ranks.
    pub fn new(talents: &TalentPoints) -> (k: Constants)
        ensures
            k == Constants::derived(talents@, default_constants_config()),
            k.wf(),
    {
        let cfg = ConstantsConfig::default();
        Constants::with_config(talents, &cfg)
    }

    /// The tables for `talents` with chosen ranks and damage ranges.
    pub fn with_config(talents: &TalentPoints, cfg: &ConstantsConfig) -> (k: Constants)
        ensures
            k == Constants::derived(talents@, *cfg),
            k.wf(),
    {
        let instability = talents.get(Talent::ArcaneInstability);
        let fire_mult = school_multiplier(talents.get(Talent::FirePower), instability);
        let frost_mult = school_multiplier(talents.get(Talent::PiercingIce), instability);
        let mut sp_multiplier: [u64; 6] = [
            428_571_429,
            1_000_000_000,
            1_000_000_000,
            428_571_429,
            814_285_714,
            600_000_000,
        ];
        let damage_multiplier: [u64; 6] = [
            fire_mult,
            fire_mult,
            fire_mult,
            fire_mult,
            frost_mult,
            fire_mult,
        ];
        let mut spell_base: [u64; 6] = [
            237_000_000_000,
            716_000_000_000,
            596_000_000_000,
            446_000_000_000,
            515_000_000_000,
            268_000_000_000,
        ];
        let mut spell_range: [u64; 6] = [
            43_000_000_000,
            174_000_000_000,
            164_000_000_000,
            78_000_000_000,
            40_000_000_000,
            0,
        ];
        if cfg.simple_spell {
            spell_base = [
                250_000_000_000,
                900_000_000_000,
                750_000_000_000,
                500_000_000_000,
                500_000_000_000,
                268_000_000_000,
            ];
            spell_range = [0, 0, 0, 0, 0, 0];
        }
        if cfg.fireball_rank == 11 {
            spell_base[2] = 561_000_000_000;
            spell_range[2] = 154_000_000_000;
        }
        if cfg.frostbolt_rank == 10 {
            spell_base[4] = 440_000_000_000;
            spell_range[4] = 75_000_000_000;
        } else if cfg.frostbolt_rank == 1 {
            spell_base[4] = 20_000_000_000;
            spell_range[4] = 2_000_000_000;
            sp_multiplier[4] = 407_142_857;
        }
        let mut cast_time: [i64; 6] = [
            1_500_000,
            6_000_000,
            3_500_000 - 100_000 * (talents.get(Talent::ImprovedFireball) as i64),
            0,
            3_000_000 - 100_000 * (talents.get(Talent::ImprovedFrostbolt) as i64),
            0,
        ];
        if cfg.frostbolt_rank == 1 {
            cast_time[4] = 1_500_000;
        }
        let spell_travel: [i64; 6] = [0, 875_000, 875_000, 0, 750_000, 0];
        let incinerate: u64 = 20_000 * (talents.get(Talent::Incinerate) as u64);
        let k = Constants {
            sp_multiplier,
            damage_multiplier,
            spell_base,
            spell_range,
            is_pyro: [false, true, false, false, false, false],
            is_scorch: [true, false, false, false, false, false],
            is_fire: [true, true, true, true, false, true],
            incin_bonus: [incinerate, 0, 0, incinerate, 0, 0],
            scorch_chance: 330_000 * (talents.get(Talent::ImprovedScorch) as u64),
            wc_chance: 200_000 * (talents.get(Talent::WintersChill) as u64),
            can_pyro: talents.get(Talent::Pryoblast) > 0,
            cast_time,
            spell_travel,
            fb_cooldown: FIRE_BLAST_COOLDOWN - 500_000 * (talents.get(Talent::ImprovedFireBlast) as i64),
            is_ignite: talents.get(Talent::Ignite) > 0,
            ignite_damage: 40_000 * (talents.get(Talent::Ignite) as u64),
            icrit_damage: 500_000,
            crit_damage: 500_000 + 100_000 * (talents.get(Talent::IceShards) as u64),
            spell_trigger_t2_8p: [false, false, true, false, true, false],
        };
        proof {
            let d = Constants::derived(talents@, *cfg);
            assert(k.sp_multiplier =~= d.sp_multiplier);
            assert(k.damage_multiplier =~= d.damage_multiplier);
            assert(k.spell_base =~= d.spell_base);
            assert(k.spell_range =~= d.spell_range);
            assert(k.is_pyro =~= d.is_pyro);
            assert(k.is_scorch =~= d.is_scorch);
            assert(k.is_fire =~= d.is_fire);
            assert(k.incin_bonus =~= d.incin_bonus);
            assert(k.cast_time =~= d.cast_time);
            assert(k.spell_travel =~= d.spell_travel);
            assert(k.spell_trigger_t2_8p =~= d.spell_trigger_t2_8p);
        }
        k
    }
}

} // verus!
