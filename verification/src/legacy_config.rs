//! Reading a team sheet: one entry per mage with gear, buffs and stats as a
//! front end hands them over, and what a trial is set up from.

use vstd::prelude::*;
use vstd::string::StrSliceExecFns;
use crate::apl::{create_team_decider_from_players, same_text};
use crate::constants::{default_constants_config, BossType, ConstantsConfig, Racial};
use crate::decisions::TeamDecider;
use crate::json::Json;
use crate::orchestration::{Buffs, Configuration, SimParams, Stats, Timing};
use crate::units::{Timer, MICROS};

verus! {

/// Buffs of one mage as ticked on the sheet; a box left out counts as not
/// ticked.
#[derive(Debug, Clone)]
pub struct LegacyBuffs {
    pub arcane_intellect: Option<bool>,
    pub imp_mark_of_the_wild: Option<bool>,
    pub blessing_of_kings: Option<bool>,
    pub rallying_cry: Option<bool>,
    pub songflower: Option<bool>,
    pub dire_maul_tribute: Option<bool>,
    pub spirit_of_zandalar: Option<bool>,
    pub flask_of_supreme_power: Option<bool>,
    pub infallible_mind: Option<bool>,
    pub gift_of_stormwind: Option<bool>,
    pub elixir_greater_arcane: Option<bool>,
    pub elixir_greater_firepower: Option<bool>,
    pub brilliant_wizard_oil: Option<bool>,
    pub blessed_wizard_oil: Option<bool>,
    pub very_berry_cream: Option<bool>,
    pub runn_tum_tuber: Option<bool>,
    pub moonkin_aura: Option<bool>,
    pub atiesh_mage: Option<usize>,
    pub atiesh_warlock: Option<usize>,
    pub dmf_dmg: Option<bool>,
    pub soul_revival: Option<bool>,
    pub traces_of_silithyst: Option<bool>,
}

/// Stats of one mage as written on the sheet: intellect and spell power in
/// billionths, crit and hit in millionths of a percent.
#[derive(Debug, Clone, Copy)]
pub struct LegacyStats {
    pub intellect: u64,
    pub sp: u64,
    pub crit: u64,
    pub hit: u64,
}

/// Trinkets and set bonuses of one mage.
#[derive(Debug, Clone, Copy)]
pub struct LegacyItems {
    pub sapp: Option<bool>,
    pub toep: Option<bool>,
    pub zhc: Option<bool>,
    pub mqg: Option<bool>,
    pub udc: Option<bool>,
}

/// One mage of the sheet.
#[derive(Debug)]
pub struct LegacyPlayer {
    pub name: Option<String>,
    pub race: Option<String>,
    pub talents: Vec<u8>,
    pub stats: LegacyStats,
    pub buffs: LegacyBuffs,
    pub has_pi: Option<bool>,
    pub is_target: Option<bool>,
    pub items: LegacyItems,
    /// The mage's rule list, if the sheet has one.
    pub apl: Option<Json>,
}

/// The whole sheet.  Times are in ticks.
#[derive(Debug)]
pub struct LegacyConfig {
    pub duration: Option<i64>,
    pub duration_variance: Option<i64>,
    pub curse_of_elements: Option<bool>,
    pub arcanite_dragonling: Option<i64>,
    pub nightfall1: Option<i64>,
    pub nightfall2: Option<i64>,
    pub nightfall3: Option<i64>,
    pub reaction_time: Option<i64>,
    pub player_delay: Option<i64>,
    pub boss: Option<String>,
    pub players: Vec<LegacyPlayer>,
    pub rng_seed: Option<u64>,
}

/// White space, as Unicode defines it.
pub open spec fn spec_is_space(c: char) -> bool {
    c == ' ' || ('\u{9}' <= c && c <= '\u{d}') || c == '\u{85}' || c == '\u{a0}' || c == '\u{1680}'
        || ('\u{2000}' <= c && c <= '\u{200a}') || c == '\u{2028}' || c == '\u{2029}' || c
        == '\u{202f}' || c == '\u{205f}' || c == '\u{3000}'
}

/// Whether the character is white space.
#[verifier::when_used_as_spec(spec_is_space)]
pub fn is_space(c: char) -> (r: bool)
    ensures
        r == spec_is_space(c),
{
    c == ' ' || ('\u{9}' <= c && c <= '\u{d}') || c == '\u{85}' || c == '\u{a0}' || c == '\u{1680}'
        || ('\u{2000}' <= c && c <= '\u{200a}') || c == '\u{2028}' || c == '\u{2029}' || c
        == '\u{202f}' || c == '\u{205f}' || c == '\u{3000}'
}

/// A letter from A to Z in lower case; any other character as it is.
pub open spec fn spec_lower(c: char) -> char {
    if 'A' <= c && c <= 'Z' {
        ((c as u32) + 32) as char
    } else {
        c
    }
}

/// The character in lower case, if it is a letter from A to Z.
#[verifier::when_used_as_spec(spec_lower)]
pub fn lower(c: char) -> (r: char)
    ensures
        r == spec_lower(c),
{
    match c {
        'A' => 'a',
        'B' => 'b',
        'C' => 'c',
        'D' => 'd',
        'E' => 'e',
        'F' => 'f',
        'G' => 'g',
        'H' => 'h',
        'I' => 'i',
        'J' => 'j',
        'K' => 'k',
        'L' => 'l',
        'M' => 'm',
        'N' => 'n',
        'O' => 'o',
        'P' => 'p',
        'Q' => 'q',
        'R' => 'r',
        'S' => 's',
        'T' => 't',
        'U' => 'u',
        'V' => 'v',
        'W' => 'w',
        'X' => 'x',
        'Y' => 'y',
        'Z' => 'z',
        _ => c,
    }
}

/// Where the text starts once leading white space is left out, looking
/// from `i` on.
pub open spec fn lead(s: Seq<char>, i: int) -> int
    decreases s.len() - i,
{
    if i < s.len() && spec_is_space(s[i]) {
        lead(s, i + 1)
    } else {
        i
    }
}

/// Where the text ends once trailing white space is left out, looking
/// back from `j` but not past `low`.
pub open spec fn tail(s: Seq<char>, j: int, low: int) -> int
    decreases j,
{
    if low < j && 0 < j && spec_is_space(s[j - 1]) {
        tail(s, j - 1, low)
    } else {
        j
    }
}

/// The text without the white space around it, in lower case.
pub open spec fn tidied(s: Seq<char>) -> Seq<char> {
    let from = lead(s, 0);
    let to = tail(s, s.len() as int, from);
    Seq::new((to - from) as nat, |i: int| spec_lower(s[from + i]))
}

/// The race a text names.  White space around the name and the case of
/// its letters do not matter; a text that names no race stands for
/// [`Racial::Other`].
pub open spec fn spec_racial_from_str(s: Seq<char>) -> Racial {
    let t = tidied(s);
    if t == "human"@ || t == "hum"@ {
        Racial::Human
    } else if t == "gnome"@ || t == "gno"@ {
        Racial::Gnome
    } else if t == "night elf"@ || t == "night-elf"@ || t == "nightelf"@ || t == "ne"@ {
        Racial::NightElf
    } else if t == "dwarf"@ || t == "dwa"@ {
        Racial::Dwarf
    } else if t == "orc"@ {
        Racial::Orc
    } else if t == "troll"@ {
        Racial::Troll
    } else if t == "tauren"@ {
        Racial::Tauren
    } else if t == "undead"@ || t == "forsaken"@ || t == "ud"@ {
        Racial::Undead
    } else {
        Racial::Other
    }
}

/// Whether the part of `s` from `from` to `to`, in lower case, reads `word`.
fn reads(s: &str, from: usize, to: usize, word: &str) -> (r: bool)
    requires
        from <= to <= s@.len(),
    ensures
        r == (Seq::new((to - from) as nat, |i: int| spec_lower(s@[from + i])) == word@),
{
    let ghost part = Seq::new((to - from) as nat, |i: int| spec_lower(s@[from + i]));
    let n = word.unicode_len();
    if to - from != n {
        assert(part.len() != word@.len());
        return false;
    }
    let mut i: usize = 0;
    while i < n
        invariant
            i <= n,
            n == word@.len(),
            n == to - from,
            from <= to <= s@.len(),
            part == Seq::new((to - from) as nat, |i: int| spec_lower(s@[from + i])),
            forall|j: int| 0 <= j < i ==> part[j] == word@[j],
        decreases n - i,
    {
        if lower(s.get_char(from + i)) != word.get_char(i) {
            assert(part[i as int] != word@[i as int]);
            return false;
        }
        i += 1;
    }
    assert(part =~= word@);
    true
}

/// Reads a race from its name.
pub fn racial_from_str(s: &str) -> (r: Racial)
    ensures
        r == spec_racial_from_str(s@),
{
    let n = s.unicode_len();
    let mut from: usize = 0;
    while from < n && is_space(s.get_char(from))
        invariant
            from <= n,
            n == s@.len(),
            lead(s@, from as int) == lead(s@, 0),
        decreases n - from,
    {
        from += 1;
    }
    let mut to: usize = n;
    while from < to && is_space(s.get_char(to - 1))
        invariant
            from <= to <= n,
            n == s@.len(),
            tail(s@, to as int, from as int) == tail(s@, n as int, from as int),
        decreases to,
    {
        to -= 1;
    }
    if reads(s, from, to, "human") || reads(s, from, to, "hum") {
        Racial::Human
    } else if reads(s, from, to, "gnome") || reads(s, from, to, "gno") {
        Racial::Gnome
    } else if reads(s, from, to, "night elf") || reads(s, from, to, "night-elf") || reads(
        s,
        from,
        to,
        "nightelf",
    ) || reads(s, from, to, "ne") {
        Racial::NightElf
    } else if reads(s, from, to, "dwarf") || reads(s, from, to, "dwa") {
        Racial::Dwarf
    } else if reads(s, from, to, "orc") {
        Racial::Orc
    } else if reads(s, from, to, "troll") {
        Racial::Troll
    } else if reads(s, from, to, "tauren") {
        Racial::Tauren
    } else if reads(s, from, to, "undead") || reads(s, from, to, "forsaken") || reads(
        s,
        from,
        to,
        "ud",
    ) {
        Racial::Undead
    } else {
        Racial::Other
    }
}

/// The boxes of the sheet that put a mage on a list.
#[derive(Debug, Clone, Copy, PartialEq, Eq, Structural)]
pub enum LegacyFlag {
    ArcaneIntellect,
    ImprovedMark,
    BlessingOfKings,
    RallyingCry,
    Songflower,
    DireMaulTribute,
    SpiritOfZandalar,
    DmfDamage,
    SoulRevival,
    TracesOfSilithyst,
    InfallibleMind,
    GiftOfStormwind,
    VeryBerryCream,
    RunnTumTuber,
    FlaskOfSupremePower,
    GreaterFirepower,
    GreaterArcane,
    BrilliantWizardOil,
    BlessedWizardOil,
    Sapp,
    Toep,
    Zhc,
    Mqg,
    Udc,
    Target,
    /// On no list at all.
    Nothing,
}

/// Whether a box is ticked.
pub open spec fn spec_ticked(b: Option<bool>) -> bool {
    b == Some(true)
}

/// Whether a box is ticked.
#[verifier::when_used_as_spec(spec_ticked)]
pub fn ticked(b: Option<bool>) -> (r: bool)
    ensures
        r == spec_ticked(b),
{
    match b {
        Some(x) => x,
        None => false,
    }
}

impl LegacyPlayer {
    pub open spec fn spec_has(&self, flag: LegacyFlag) -> bool {
        match flag {
            LegacyFlag::ArcaneIntellect => spec_ticked(self.buffs.arcane_intellect),
            LegacyFlag::ImprovedMark => spec_ticked(self.buffs.imp_mark_of_the_wild),
            LegacyFlag::BlessingOfKings => spec_ticked(self.buffs.blessing_of_kings),
            LegacyFlag::RallyingCry => spec_ticked(self.buffs.rallying_cry),
            LegacyFlag::Songflower => spec_ticked(self.buffs.songflower),
            LegacyFlag::DireMaulTribute => spec_ticked(self.buffs.dire_maul_tribute),
            LegacyFlag::SpiritOfZandalar => spec_ticked(self.buffs.spirit_of_zandalar),
            LegacyFlag::DmfDamage => spec_ticked(self.buffs.dmf_dmg),
            LegacyFlag::SoulRevival => spec_ticked(self.buffs.soul_revival),
            LegacyFlag::TracesOfSilithyst => spec_ticked(self.buffs.traces_of_silithyst),
            LegacyFlag::InfallibleMind => spec_ticked(self.buffs.infallible_mind),
            LegacyFlag::GiftOfStormwind => spec_ticked(self.buffs.gift_of_stormwind),
            LegacyFlag::VeryBerryCream => spec_ticked(self.buffs.very_berry_cream),
            LegacyFlag::RunnTumTuber => spec_ticked(self.buffs.runn_tum_tuber),
            LegacyFlag::FlaskOfSupremePower => spec_ticked(self.buffs.flask_of_supreme_power),
            LegacyFlag::GreaterFirepower => spec_ticked(self.buffs.elixir_greater_firepower),
            LegacyFlag::GreaterArcane => spec_ticked(self.buffs.elixir_greater_arcane),
            LegacyFlag::BrilliantWizardOil => spec_ticked(self.buffs.brilliant_wizard_oil),
            LegacyFlag::BlessedWizardOil => spec_ticked(self.buffs.blessed_wizard_oil),
            LegacyFlag::Sapp => spec_ticked(self.items.sapp),
            LegacyFlag::Toep => spec_ticked(self.items.toep),
            LegacyFlag::Zhc => spec_ticked(self.items.zhc),
            LegacyFlag::Mqg => spec_ticked(self.items.mqg),
            LegacyFlag::Udc => spec_ticked(self.items.udc),
            LegacyFlag::Target => spec_ticked(self.is_target),
            LegacyFlag::Nothing => false,
        }
    }

    /// Whether the mage's sheet has the box ticked.
    pub fn has(&self, flag: LegacyFlag) -> (r: bool)
        ensures
            r == self.spec_has(flag),
    {
        match flag {
            LegacyFlag::ArcaneIntellect => ticked(self.buffs.arcane_intellect),
            LegacyFlag::ImprovedMark => ticked(self.buffs.imp_mark_of_the_wild),
            LegacyFlag::BlessingOfKings => ticked(self.buffs.blessing_of_kings),
            LegacyFlag::RallyingCry => ticked(self.buffs.rallying_cry),
            LegacyFlag::Songflower => ticked(self.buffs.songflower),
            LegacyFlag::DireMaulTribute => ticked(self.buffs.dire_maul_tribute),
            LegacyFlag::SpiritOfZandalar => ticked(self.buffs.spirit_of_zandalar),
            LegacyFlag::DmfDamage => ticked(self.buffs.dmf_dmg),
            LegacyFlag::SoulRevival => ticked(self.buffs.soul_revival),
            LegacyFlag::TracesOfSilithyst => ticked(self.buffs.traces_of_silithyst),
            LegacyFlag::InfallibleMind => ticked(self.buffs.infallible_mind),
            LegacyFlag::GiftOfStormwind => ticked(self.buffs.gift_of_stormwind),
            LegacyFlag::VeryBerryCream => ticked(self.buffs.very_berry_cream),
            LegacyFlag::RunnTumTuber => ticked(self.buffs.runn_tum_tuber),
            LegacyFlag::FlaskOfSupremePower => ticked(self.buffs.flask_of_supreme_power),
            LegacyFlag::GreaterFirepower => ticked(self.buffs.elixir_greater_firepower),
            LegacyFlag::GreaterArcane => ticked(self.buffs.elixir_greater_arcane),
            LegacyFlag::BrilliantWizardOil => ticked(self.buffs.brilliant_wizard_oil),
            LegacyFlag::BlessedWizardOil => ticked(self.buffs.blessed_wizard_oil),
            LegacyFlag::Sapp => ticked(self.items.sapp),
            LegacyFlag::Toep => ticked(self.items.toep),
            LegacyFlag::Zhc => ticked(self.items.zhc),
            LegacyFlag::Mqg => ticked(self.items.mqg),
            LegacyFlag::Udc => ticked(self.items.udc),
            LegacyFlag::Target => ticked(self.is_target),
            LegacyFlag::Nothing => false,
        }
    }

    /// The mage's race; [`Racial::Other`] where the sheet names none.
    pub open spec fn racial(&self) -> Racial {
        match self.race {
            Some(s) => spec_racial_from_str(s@),
            None => Racial::Other,
        }
    }

    /// The mage's name; empty where the sheet gives none.
    pub open spec fn shown_name(&self) -> Seq<char> {
        match self.name {
            Some(s) => s@,
            None => Seq::<char>::empty(),
        }
    }
}

/// The positions among the first `n` mages whose sheet has the box ticked,
/// in order.
pub open spec fn flagged(players: Seq<LegacyPlayer>, flag: LegacyFlag, n: int) -> Seq<usize>
    decreases n,
{
    if n <= 0 {
        Seq::empty()
    } else if players[n - 1].spec_has(flag) {
        flagged(players, flag, n - 1).push((n - 1) as usize)
    } else {
        flagged(players, flag, n - 1)
    }
}

fn collect(players: &Vec<LegacyPlayer>, flag: LegacyFlag) -> (r: Vec<usize>)
    ensures
        r@ == flagged(players@, flag, players@.len() as int),
{
    let mut r: Vec<usize> = Vec::new();
    let mut i: usize = 0;
    while i < players.len()
        invariant
            i <= players@.len(),
            r@ == flagged(players@, flag, i as int),
        decreases players@.len() - i,
    {
        if players[i].has(flag) {
            r.push(i);
        }
        i += 1;
    }
    r
}

/// The lists a table holds, one per box and in the order of the boxes.
pub open spec fn table_of(players: Seq<LegacyPlayer>, flags: Seq<LegacyFlag>, table: Seq<Vec<usize>>) -> bool {
    &&& table.len() == flags.len()
    &&& forall|b: int|
        0 <= b < flags.len() ==> (#[trigger] table[b])@ == flagged(
            players,
            flags[b],
            players.len() as int,
        )
}

fn tabulate(players: &Vec<LegacyPlayer>, flags: &Vec<LegacyFlag>) -> (r: Vec<Vec<usize>>)
    ensures
        table_of(players@, flags@, r@),
{
    let mut r: Vec<Vec<usize>> = Vec::new();
    let mut b: usize = 0;
    while b < flags.len()
        invariant
            b <= flags@.len(),
            r@.len() == b,
            forall|x: int|
                0 <= x < b ==> (#[trigger] r@[x])@ == flagged(
                    players@,
                    flags@[x],
                    players@.len() as int,
                ),
        decreases flags@.len() - b,
    {
        r.push(collect(players, flags[b]));
        b += 1;
    }
    r
}

/// The boxes behind the lists of consumables, of raid buffs, of world buffs
/// and of trinkets, each in the order of its table.
pub open spec fn consume_flags() -> Seq<LegacyFlag> {
    seq![
        LegacyFlag::GreaterArcane,
        LegacyFlag::GreaterFirepower,
        LegacyFlag::Nothing,
        LegacyFlag::FlaskOfSupremePower,
        LegacyFlag::BlessedWizardOil,
        LegacyFlag::BrilliantWizardOil,
        LegacyFlag::GiftOfStormwind,
        LegacyFlag::InfallibleMind,
        LegacyFlag::VeryBerryCream,
        LegacyFlag::RunnTumTuber,
    ]
}

pub open spec fn raid_flags() -> Seq<LegacyFlag> {
    seq![LegacyFlag::ArcaneIntellect, LegacyFlag::ImprovedMark, LegacyFlag::BlessingOfKings]
}

pub open spec fn world_flags() -> Seq<LegacyFlag> {
    seq![
        LegacyFlag::RallyingCry,
        LegacyFlag::Songflower,
        LegacyFlag::DireMaulTribute,
        LegacyFlag::SpiritOfZandalar,
        LegacyFlag::DmfDamage,
        LegacyFlag::SoulRevival,
        LegacyFlag::TracesOfSilithyst,
    ]
}

pub open spec fn trinket_flags() -> Seq<LegacyFlag> {
    seq![LegacyFlag::Sapp, LegacyFlag::Toep, LegacyFlag::Zhc, LegacyFlag::Mqg]
}

/// The encounter a text names; any other text names none.
pub open spec fn spec_boss_named(name: Option<String>) -> BossType {
    match name {
        Some(s) => if s@ == "Loatheb"@ {
            BossType::Loatheb
        } else if s@ == "Thaddius"@ {
            BossType::Thaddius
        } else {
            BossType::Other
        },
        None => BossType::Other,
    }
}

fn boss_named(name: &Option<String>) -> (r: BossType)
    ensures
        r == spec_boss_named(*name),
{
    match name {
        Some(s) => {
            if same_text(s.as_str(), "Loatheb") {
                BossType::Loatheb
            } else if same_text(s.as_str(), "Thaddius") {
                BossType::Thaddius
            } else {
                BossType::Other
            }
        },
        None => BossType::Other,
    }
}

/// A proc period as the sheet gives it, if it gives one; never less than a
/// second.
pub open spec fn period_of(given: Option<i64>) -> Seq<i64> {
    match given {
        Some(t) => seq![if t < MICROS { MICROS } else { t }],
        None => Seq::<i64>::empty(),
    }
}

impl LegacyConfig {
    /// The proc periods of the sheet, in the order of the sheet.
    pub open spec fn periods(&self) -> Seq<i64> {
        period_of(self.nightfall1) + period_of(self.nightfall2) + period_of(self.nightfall3)
    }

    /// The timing the sheet asks for; what it leaves out is zero.
    pub open spec fn timing(&self) -> Timing {
        Timing {
            duration_mean: self.duration.unwrap_or(0),
            duration_sigma: self.duration_variance.unwrap_or(0),
            initial_delay: self.player_delay.unwrap_or(0),
            recast_delay: self.reaction_time.unwrap_or(0),
            reaction_time: self.reaction_time.unwrap_or(0),
        }
    }
}

impl SimParams {
    /// Whether the parameters are what the sheet says.  Each mage keeps
    /// the position the sheet gives; crit and hit chance turn from percent
    /// into shares; each list names the mages whose box is ticked; every
    /// mage with Power Infusion has one; nobody is varied or berserks; the
    /// target takes any number of debuffs.
    pub open spec fn reads(&self, cfg: &LegacyConfig, timing: Timing) -> bool {
        let n = cfg.players@.len();
        &&& self.timing == timing
        &&& self.consts_cfg == default_constants_config()
        &&& self.stats.spell_power@.len() == n
        &&& self.stats.crit_chance@.len() == n
        &&& self.stats.hit_chance@.len() == n
        &&& self.stats.intellect@.len() == n
        &&& self.buffs.racial@.len() == n
        &&& self.buffs.auras_mage_atiesh@.len() == n
        &&& self.buffs.auras_lock_atiesh@.len() == n
        &&& self.buffs.auras_boomkin@.len() == n
        &&& self.buffs.berserk@.len() == n
        &&& self.config.pi_count@.len() == n
        &&& self.config.name@.len() == n
        &&& forall|i: int|
            0 <= i < n ==> {
                let p = #[trigger] cfg.players@[i];
                &&& self.stats.spell_power@[i] == p.stats.sp
                &&& self.stats.crit_chance@[i] == p.stats.crit / 100
                &&& self.stats.hit_chance@[i] == p.stats.hit / 100
                &&& self.stats.intellect@[i] == p.stats.intellect
                &&& self.buffs.racial@[i] == p.racial()
                &&& self.buffs.auras_mage_atiesh@[i] == p.buffs.atiesh_mage.unwrap_or(0)
                &&& self.buffs.auras_lock_atiesh@[i] == p.buffs.atiesh_warlock.unwrap_or(0)
                &&& self.buffs.auras_boomkin@[i] == (if spec_ticked(p.buffs.moonkin_aura) {
                    1usize
                } else {
                    0usize
                })
                &&& self.buffs.berserk@[i] == 0
                &&& self.config.pi_count@[i] == (if spec_ticked(p.has_pi) {
                    1usize
                } else {
                    0usize
                })
                &&& self.config.name@[i]@ == p.shown_name()
            }
        &&& table_of(cfg.players@, consume_flags(), self.buffs.consumes@)
        &&& table_of(cfg.players@, raid_flags(), self.buffs.raid@)
        &&& table_of(cfg.players@, world_flags(), self.buffs.world@)
        &&& table_of(cfg.players@, trinket_flags(), self.config.buff_assignments@)
        &&& self.buffs.boss == spec_boss_named(cfg.boss)
        &&& self.config.boss == spec_boss_named(cfg.boss)
        &&& self.config.num_mages == n
        &&& self.config.target@ == flagged(cfg.players@, LegacyFlag::Target, n as int)
        &&& self.config.udc@ == flagged(cfg.players@, LegacyFlag::Udc, n as int)
        &&& self.config.vary@.len() == 0
        &&& self.config.t3_6p@.len() == 0
        &&& self.config.do_stat_weights
        &&& self.config.no_debuff_limit
        &&& self.config.nightfall@ == cfg.periods()
        &&& self.config.dragonling == (match cfg.arcanite_dragonling {
            Some(t) => Timer::In(t),
            None => Timer::Never,
        })
        &&& self.config.coe == spec_ticked(cfg.curse_of_elements)
    }
}

fn push_period(periods: &mut Vec<i64>, given: Option<i64>)
    ensures
        final(periods)@ == old(periods)@ + period_of(given),
{
    match given {
        Some(t) => {
            periods.push(if t < MICROS { MICROS } else { t });
            assert(periods@ =~= old(periods)@ + period_of(given));
        },
        None => {
            assert(periods@ =~= old(periods)@ + period_of(given));
        },
    }
}

/// Draws up the parameters of a trial from a sheet and a timing.
pub fn convert_legacy_to_simparams_internal(cfg: &LegacyConfig, timing: Timing) -> (r: SimParams)
    ensures
        r.reads(cfg, timing),
{
    let players = &cfg.players;
    let nm = players.len();
    let mut spell_power: Vec<u64> = Vec::new();
    let mut crit_chance: Vec<u64> = Vec::new();
    let mut hit_chance: Vec<u64> = Vec::new();
    let mut intellect: Vec<u64> = Vec::new();
    let mut racial: Vec<Racial> = Vec::new();
    let mut auras_mage_atiesh: Vec<usize> = Vec::new();
    let mut auras_lock_atiesh: Vec<usize> = Vec::new();
    let mut auras_boomkin: Vec<usize> = Vec::new();
    let mut berserk: Vec<u64> = Vec::new();
    let mut pi_count: Vec<usize> = Vec::new();
    let mut name: Vec<String> = Vec::new();
    let mut i: usize = 0;
    while i < nm
        invariant
            i <= nm,
            nm == players@.len(),
            players@ == cfg.players@,
            spell_power@.len() == i,
            crit_chance@.len() == i,
            hit_chance@.len() == i,
            intellect@.len() == i,
            racial@.len() == i,
            auras_mage_atiesh@.len() == i,
            auras_lock_atiesh@.len() == i,
            auras_boomkin@.len() == i,
            berserk@.len() == i,
            pi_count@.len() == i,
            name@.len() == i,
            forall|j: int|
                0 <= j < i ==> {
                    let p = #[trigger] cfg.players@[j];
                    &&& spell_power@[j] == p.stats.sp
                    &&& crit_chance@[j] == p.stats.crit / 100
                    &&& hit_chance@[j] == p.stats.hit / 100
                    &&& intellect@[j] == p.stats.intellect
                    &&& racial@[j] == p.racial()
                    &&& auras_mage_atiesh@[j] == p.buffs.atiesh_mage.unwrap_or(0)
                    &&& auras_lock_atiesh@[j] == p.buffs.atiesh_warlock.unwrap_or(0)
                    &&& auras_boomkin@[j] == (if spec_ticked(p.buffs.moonkin_aura) {
                        1usize
                    } else {
                        0usize
                    })
                    &&& berserk@[j] == 0
                    &&& pi_count@[j] == (if spec_ticked(p.has_pi) {
                        1usize
                    } else {
                        0usize
                    })
                    &&& name@[j]@ == p.shown_name()
                },
        decreases nm - i,
    {
        let p = &players[i];
        spell_power.push(p.stats.sp);
        crit_chance.push(p.stats.crit / 100);
        hit_chance.push(p.stats.hit / 100);
        intellect.push(p.stats.intellect);
        racial.push(
            match &p.race {
                Some(s) => racial_from_str(s.as_str()),
                None => Racial::Other,
            },
        );
        auras_mage_atiesh.push(
            match p.buffs.atiesh_mage {
                Some(x) => x,
                None => 0,
            },
        );
        auras_lock_atiesh.push(
            match p.buffs.atiesh_warlock {
                Some(x) => x,
                None => 0,
            },
        );
        auras_boomkin.push(if ticked(p.buffs.moonkin_aura) { 1 } else { 0 });
        berserk.push(0);
        pi_count.push(if ticked(p.has_pi) { 1 } else { 0 });
        name.push(
            match &p.name {
                Some(s) => s.clone(),
                None => String::new(),
            },
        );
        i += 1;
    }
    let consumes = tabulate(
        players,
        &vec![
            LegacyFlag::GreaterArcane,
            LegacyFlag::GreaterFirepower,
            LegacyFlag::Nothing,
            LegacyFlag::FlaskOfSupremePower,
            LegacyFlag::BlessedWizardOil,
            LegacyFlag::BrilliantWizardOil,
            LegacyFlag::GiftOfStormwind,
            LegacyFlag::InfallibleMind,
            LegacyFlag::VeryBerryCream,
            LegacyFlag::RunnTumTuber,
        ],
    );
    let raid = tabulate(
        players,
        &vec![LegacyFlag::ArcaneIntellect, LegacyFlag::ImprovedMark, LegacyFlag::BlessingOfKings],
    );
    let world = tabulate(
        players,
        &vec![
            LegacyFlag::RallyingCry,
            LegacyFlag::Songflower,
            LegacyFlag::DireMaulTribute,
            LegacyFlag::SpiritOfZandalar,
            LegacyFlag::DmfDamage,
            LegacyFlag::SoulRevival,
            LegacyFlag::TracesOfSilithyst,
        ],
    );
    let buff_assignments = tabulate(
        players,
        &vec![LegacyFlag::Sapp, LegacyFlag::Toep, LegacyFlag::Zhc, LegacyFlag::Mqg],
    );
    let boss = boss_named(&cfg.boss);
    let mut nightfall: Vec<i64> = Vec::new();
    push_period(&mut nightfall, cfg.nightfall1);
    push_period(&mut nightfall, cfg.nightfall2);
    push_period(&mut nightfall, cfg.nightfall3);
    assert(nightfall@ =~= cfg.periods());
    let dragonling = match cfg.arcanite_dragonling {
        Some(t) => Timer::In(t),
        None => Timer::Never,
    };
    SimParams {
        stats: Stats { spell_power, crit_chance, hit_chance, intellect },
        buffs: Buffs {
            consumes,
            raid,
            world,
            boss,
            auras_mage_atiesh,
            auras_lock_atiesh,
            auras_boomkin,
            racial,
            berserk,
        },
        timing,
        config: Configuration {
            num_mages: nm,
            target: collect(players, LegacyFlag::Target),
            vary: Vec::new(),
            do_stat_weights: true,
            no_debuff_limit: true,
            buff_assignments,
            pi_count,
            udc: collect(players, LegacyFlag::Udc),
            t3_6p: Vec::new(),
            nightfall,
            dragonling,
            boss,
            coe: ticked(cfg.curse_of_elements),
            name,
        },
        consts_cfg: ConstantsConfig::default(),
    }
}

/// Draws up from a sheet the parameters of a trial, with the timing the
/// sheet asks for, and the deciders of its mages.
pub fn convert_legacy_to_simparams_and_players_data(cfg: &LegacyConfig) -> (r: (SimParams, TeamDecider))
    ensures
        r.0.reads(cfg, cfg.timing()),
        crate::apl::team_reads(r.1.mages@, cfg.players@, cfg.timing().recast_delay),
{
    let timing = Timing {
        duration_mean: match cfg.duration {
            Some(x) => x,
            None => 0,
        },
        duration_sigma: match cfg.duration_variance {
            Some(x) => x,
            None => 0,
        },
        initial_delay: match cfg.player_delay {
            Some(x) => x,
            None => 0,
        },
        recast_delay: match cfg.reaction_time {
            Some(x) => x,
            None => 0,
        },
        reaction_time: match cfg.reaction_time {
            Some(x) => x,
            None => 0,
        },
    };
    let team = create_team_decider_from_players(&cfg.players, &timing);
    (convert_legacy_to_simparams_internal(cfg, timing), team)
}

} // verus!
