use mage_sim::constants::{
    buff_cast_action, Action, BossType, Buff, Constants, ConstantsConfig, ConsumeBuff, Racial,
    RaidBuff, Spell, Talent, TalentPoints, WorldBuff, BUFF_COOLDOWN, BUFF_DAMAGE, BUFF_DURATION,
    BUFF_PER_TICK, GLOBAL_COOLDOWN, RES_AMOUNT, RES_THRESH, RES_THRESH_UL, SCORCHES_BY_MAGES,
};
use mage_sim::units::{accrue, roll_below, roll_spread, scale, scale_fine, scale_if, Reading, Timer};

#[test]
fn the_default_tables_follow_the_default_talents() {
    let k = Constants::new(&TalentPoints::new());
    assert_eq!(
        k.sp_multiplier,
        [428_571_429, 1_000_000_000, 1_000_000_000, 428_571_429, 814_285_714, 600_000_000]
    );
    assert_eq!(k.damage_multiplier, [1_100_000, 1_100_000, 1_100_000, 1_100_000, 1_000_000, 1_100_000]);
    assert_eq!(
        k.spell_base,
        [237_000_000_000, 716_000_000_000, 596_000_000_000, 446_000_000_000, 515_000_000_000, 268_000_000_000]
    );
    assert_eq!(
        k.spell_range,
        [43_000_000_000, 174_000_000_000, 164_000_000_000, 78_000_000_000, 40_000_000_000, 0]
    );
    assert_eq!(k.is_pyro, [false, true, false, false, false, false]);
    assert_eq!(k.is_scorch, [true, false, false, false, false, false]);
    assert_eq!(k.is_fire, [true, true, true, true, false, true]);
    assert_eq!(k.incin_bonus, [40_000, 0, 0, 40_000, 0, 0]);
    assert_eq!(k.scorch_chance, 990_000);
    assert_eq!(k.wc_chance, 0);
    assert!(k.can_pyro);
    assert_eq!(k.cast_time, [1_500_000, 6_000_000, 3_000_000, 0, 3_000_000, 0]);
    assert_eq!(k.spell_travel, [0, 875_000, 875_000, 0, 750_000, 0]);
    assert_eq!(k.fb_cooldown, 7_500_000);
    assert!(k.is_ignite);
    assert_eq!(k.ignite_damage, 200_000);
    assert_eq!(k.icrit_damage, 500_000);
    assert_eq!(k.crit_damage, 500_000);
    assert_eq!(k.spell_trigger_t2_8p, [false, false, true, false, true, false]);
}

#[test]
fn talents_shape_the_tables() {
    let mut t = TalentPoints::from_vec(vec![0; 49]).unwrap();
    let k = Constants::new(&t);
    assert_eq!(k.damage_multiplier, [1_000_000; 6]);
    assert_eq!(k.cast_time, [1_500_000, 6_000_000, 3_500_000, 0, 3_000_000, 0]);
    assert!(!k.can_pyro && !k.is_ignite);
    assert_eq!(k.ignite_damage, 0);
    assert_eq!(k.fb_cooldown, 8_000_000);
    t.set(Talent::FirePower, 5);
    t.set(Talent::PiercingIce, 3);
    t.set(Talent::ArcaneInstability, 3);
    t.set(Talent::ImprovedFrostbolt, 5);
    t.set(Talent::IceShards, 5);
    t.set(Talent::WintersChill, 5);
    t.set(Talent::ImprovedFireBlast, 3);
    t.set(Talent::ImprovedFireball, 255);
    let k = Constants::new(&t);
    assert_eq!(k.damage_multiplier, [1_133_000, 1_133_000, 1_133_000, 1_133_000, 1_091_800, 1_133_000]);
    assert_eq!(k.cast_time, [1_500_000, 6_000_000, -22_000_000, 0, 2_500_000, 0]);
    assert_eq!(k.crit_damage, 1_000_000);
    assert_eq!(k.wc_chance, 1_000_000);
    assert_eq!(k.fb_cooldown, 6_500_000);
}

#[test]
fn ranks_and_round_numbers_shape_the_tables() {
    let t = TalentPoints::new();
    let simple = ConstantsConfig { simple_spell: true, ..ConstantsConfig::default() };
    let k = Constants::with_config(&t, &simple);
    assert_eq!(
        k.spell_base,
        [250_000_000_000, 900_000_000_000, 750_000_000_000, 500_000_000_000, 500_000_000_000, 268_000_000_000]
    );
    assert_eq!(k.spell_range, [0; 6]);
    let low = ConstantsConfig { fireball_rank: 11, frostbolt_rank: 10, simple_spell: false };
    let k = Constants::with_config(&t, &low);
    assert_eq!(k.spell_base[2], 561_000_000_000);
    assert_eq!(k.spell_range[2], 154_000_000_000);
    assert_eq!(k.spell_base[4], 440_000_000_000);
    assert_eq!(k.spell_range[4], 75_000_000_000);
    assert_eq!(k.sp_multiplier[4], 814_285_714);
    let first = ConstantsConfig { fireball_rank: 12, frostbolt_rank: 1, simple_spell: true };
    let k = Constants::with_config(&t, &first);
    assert_eq!(k.spell_base[4], 20_000_000_000);
    assert_eq!(k.spell_range[4], 2_000_000_000);
    assert_eq!(k.sp_multiplier[4], 407_142_857);
    assert_eq!(k.cast_time[4], 1_500_000);
    assert_eq!(k.spell_base[2], 750_000_000_000);
    let d = ConstantsConfig::default();
    assert_eq!((d.fireball_rank, d.frostbolt_rank, d.simple_spell), (12, 11, false));
}

#[test]
fn actions_know_their_kind() {
    let instants = [
        Action::Combustion,
        Action::Sapp,
        Action::Toep,
        Action::Zhc,
        Action::Mqg,
        Action::PowerInfusion,
        Action::Berserking,
        Action::Gcd,
    ];
    let spells = [Action::Scorch, Action::Pyroblast, Action::Fireball, Action::FireBlast, Action::Frostbolt];
    for a in instants {
        assert!(a.is_instant());
        assert!(!a.triggers_gcd());
    }
    for a in spells {
        assert!(!a.is_instant());
        assert!(a.triggers_gcd());
    }
    assert!(!Action::ArcanePower.is_instant() && !Action::ArcanePower.triggers_gcd());
    assert!(!Action::PresenceOfMind.is_instant() && !Action::PresenceOfMind.triggers_gcd());
    assert_eq!(Action::default(), Action::Gcd);
    assert_eq!(Action::Pyroblast.spell(), Spell::Pyroblast);
    assert_eq!(Action::FireBlast.spell(), Spell::FireBlast);
    assert_eq!(Action::Mqg.spell(), Spell::Scorch);
    assert_eq!(buff_cast_action(Buff::Sapp), Action::Sapp);
    assert_eq!(buff_cast_action(Buff::Toep), Action::Toep);
    assert_eq!(buff_cast_action(Buff::Zhc), Action::Zhc);
    assert_eq!(buff_cast_action(Buff::Mqg), Action::Mqg);
}

#[test]
fn names_read_as_on_the_sheet() {
    assert_eq!(Spell::FireBlast.name(), "Fire Blast");
    assert_eq!(Spell::PyroDot.name(), "Pyroblast DoT");
    assert_eq!(Spell::Scorch.name(), "Scorch");
    assert_eq!(Action::Gcd.name(), "GCD");
    assert_eq!(Action::Toep.name(), "ToEP");
    assert_eq!(Action::Zhc.name(), "ZHC");
    assert_eq!(Action::Mqg.name(), "MQG");
    assert_eq!(Action::PowerInfusion.name(), "Power Infusion");
    assert_eq!(Action::PresenceOfMind.name(), "Presence of Mind");
    assert_eq!(Action::Fireball.name(), "Fireball");
}

#[test]
fn every_key_has_its_place_in_its_table() {
    assert_eq!(Talent::ArcaneSubtlety.index(), 0);
    assert_eq!(Talent::ArcanePower.index(), 15);
    assert_eq!(Talent::ImprovedFireball.index(), 16);
    assert_eq!(Talent::Combustion.index(), 31);
    assert_eq!(Talent::FrostWarding.index(), 32);
    assert_eq!(Talent::IceBarrier.index(), 48);
    assert_eq!(Spell::Scorch.index(), 0);
    assert_eq!(Spell::PyroDot.index(), 5);
    assert_eq!(Buff::Sapp.index(), 0);
    assert_eq!(Buff::Mqg.index(), 3);
    assert_eq!(ConsumeBuff::GreaterArcaneElixir.index(), 0);
    assert_eq!(ConsumeBuff::RunnTumTuberSurprise.index(), 9);
    assert_eq!(RaidBuff::BlessingOfKings.index(), 2);
    assert_eq!(WorldBuff::SaygesDarkFortuneOfDamage.index(), 4);
    assert_eq!(WorldBuff::TracesOfSilithyst.index(), 6);
}

#[test]
fn races_differ_in_intellect_only() {
    assert_eq!(Racial::Gnome.intellect_multiplier(), 1_050_000);
    assert_eq!(Racial::Human.intellect_multiplier(), 1_000_000);
    assert_eq!(Racial::Gnome.base_intellect(), 132_000_000_000);
    assert_eq!(Racial::Human.base_intellect(), 125_000_000_000);
    assert_eq!(Racial::Troll.base_intellect(), 121_000_000_000);
    assert_eq!(Racial::Undead.base_intellect(), 123_000_000_000);
    assert_eq!(Racial::Orc.base_intellect(), 0);
    assert_eq!(Racial::default(), Racial::Other);
    assert_ne!(BossType::Loatheb, BossType::Other);
}

#[test]
fn the_fixed_numbers_are_what_the_rules_say() {
    assert_eq!(GLOBAL_COOLDOWN, 1_500_000);
    assert_eq!(BUFF_DURATION, [20_000_000, 15_000_000, 20_000_000, 20_000_000]);
    assert_eq!(BUFF_COOLDOWN, [120_000_000, 90_000_000, 120_000_000, 300_000_000]);
    assert_eq!(BUFF_DAMAGE, [130_000_000_000, 175_000_000_000, 204_000_000_000]);
    assert_eq!(BUFF_PER_TICK, [0, 0, -17_000_000_000]);
    assert_eq!(RES_AMOUNT, [1_000_000, 750_000, 500_000, 250_000]);
    assert_eq!(RES_THRESH, [0, 830_300, 941_500, 990_500]);
    assert_eq!(RES_THRESH_UL, [830_300, 941_500, 990_500, 1_000_000]);
    for tier in 0..3 {
        assert!(RES_THRESH_UL[tier] <= RES_THRESH_UL[tier + 1]);
        assert_eq!(RES_THRESH_UL[tier], RES_THRESH[tier + 1]);
    }
    assert_eq!(SCORCHES_BY_MAGES[0], 9000);
    assert_eq!(SCORCHES_BY_MAGES[12], 1);
}

#[test]
fn amounts_scale_round_down_and_saturate() {
    assert_eq!(scale(1_000_000, 1_500_000), 1_500_000);
    assert_eq!(scale(3, 500_000), 1);
    assert_eq!(scale(1, 999_999), 0);
    assert_eq!(scale(7, 0), 0);
    assert_eq!(scale(u64::MAX, 1_000_000), u64::MAX);
    assert_eq!(scale(u64::MAX, 1_000_001), u64::MAX);
    assert_eq!(scale(u64::MAX, 500_000), u64::MAX / 2);
    assert_eq!(scale_fine(100_000_000_000, 814_285_714), 81_428_571_400);
    assert_eq!(scale_fine(3, 500_000_000), 1);
    assert_eq!(scale_fine(u64::MAX, 1_000_000_001), u64::MAX);
    assert_eq!(scale_if(false, 10, 2_000_000), 10);
    assert_eq!(scale_if(true, 10, 2_000_000), 20);
    assert_eq!(accrue(2, 3), 5);
    assert_eq!(accrue(u64::MAX - 1, 3), u64::MAX);
}

#[test]
fn a_roll_is_a_fraction() {
    let half = 1u64 << 63;
    assert!(roll_below(0, 1));
    assert!(!roll_below(0, 0));
    assert!(roll_below(half, 500_001));
    assert!(!roll_below(half, 500_000));
    assert!(roll_below(half - 1, 500_000));
    assert!(roll_below(u64::MAX, 1_000_000));
    assert!(!roll_below(u64::MAX, 999_999));
    assert!(roll_below(2047, 1));
    assert_eq!(roll_spread(half, 43_000_000), 21_500_000);
    assert_eq!(roll_spread(0, 43_000_000), 0);
    assert_eq!(roll_spread(u64::MAX, 43_000_000), 42_999_999);
    assert_eq!(roll_spread(u64::MAX, u64::MAX), u64::MAX - 2048);
    assert_eq!(roll_spread(half, 0), 0);
}

#[test]
fn countdowns_order_with_never_last() {
    let never = Timer::Never;
    let soon = Timer::In(5);
    let due = Timer::In(0);
    let past = Timer::In(-3);
    assert!(never.is_never() && !soon.is_never());
    assert!(never.is_active() && soon.is_active() && !due.is_active() && !past.is_active());
    assert!(!never.is_ready() && due.is_ready() && past.is_ready());
    assert!(soon.at_most(never) && never.at_most(never) && !never.at_most(soon));
    assert!(past.at_most(due) && due.at_most(due) && !soon.at_most(due));
    assert_eq!(soon.earlier(never), soon);
    assert_eq!(never.earlier(past), past);
    assert_eq!(soon.later(never), never);
    assert_eq!(past.later(due), due);
    assert_eq!(soon.elapse(7), Timer::In(-2));
    assert_eq!(never.elapse(7), never);
    assert!(past.below(-2) && !past.below(-3) && !never.below(i64::MAX));
    assert_eq!(never.remaining(), Reading::Unbounded);
    assert_eq!(soon.remaining(), Reading::Exact(5));
    assert_eq!(past.remaining(), Reading::Exact(0));
    assert_eq!(Reading::whole(-3), Reading::Exact(-3_000_000));
    assert_eq!(Reading::flag(true), Reading::Exact(1_000_000));
    assert_eq!(Reading::flag(false), Reading::Exact(0));
    assert!(Reading::Exact(9).at_most(Reading::Unbounded));
    assert!(!Reading::Unbounded.at_most(Reading::Exact(9)));
}
