use mage_sim::constants::{Constants, Spell, TalentPoints};
use mage_sim::mechanics::{retained, Event, Rolls};
use mage_sim::orchestration::{LogType, SpellResult};
use mage_sim::state::State;
use mage_sim::units::Timer;

const NEVER_BELOW: u64 = u64::MAX;

fn roll_at(ppm: u64) -> u64 {
    let span: u128 = 1 << 53;
    let unit = ((ppm as u128) * span + 999_999) / 1_000_000;
    let unit = if unit >= span { span - 1 } else { unit };
    (unit as u64) << 11
}

fn arena(lanes: usize, duration: i64) -> State {
    let mut st = State::new(duration, lanes);
    st.meta.coe = 1_000_000;
    st.meta.vulnerability = 1_000_000;
    st
}

fn tables() -> Constants {
    Constants::new(&TalentPoints::new())
}

fn in_flight(spell: Spell, power: u64) -> State {
    let mut st = arena(1, 600_000_000);
    st.lanes[0].spell_type[0] = spell;
    st.lanes[0].spell_timer[0] = Timer::In(750_000);
    st.lanes[0].spell_power = power;
    st
}

fn plain_hit() -> Rolls {
    Rolls { hit: 0, base: 0, resist: 0, crit: NEVER_BELOW, debuff: NEVER_BELOW, nightfall: NEVER_BELOW }
}

#[test]
fn a_miss_frees_the_slot_and_deals_nothing() {
    let k = tables();
    let mut st = in_flight(Spell::Fireball, 600_000_000_000);
    let rolls = Rolls { hit: roll_at(990_000), crit: 0, ..plain_hit() };
    st.land_spell_rolled(&k, &rolls);
    assert_eq!(st.global.running_time, 750_000);
    assert_eq!(st.lanes[0].spell_timer[0], Timer::Never);
    assert_eq!(st.totals.total_damage, 0);
    assert_eq!(st.lanes[0].damage, 0);
    assert_eq!(st.boss.ignite_count, 0);
    assert_eq!(st.lanes[0].comb_stack, 0);
    assert!(st.damage_log.is_empty());
}

#[test]
fn a_roll_just_below_the_hit_chance_hits() {
    let k = tables();
    let mut st = in_flight(Spell::Frostbolt, 0);
    let rolls = Rolls { hit: roll_at(989_999), ..plain_hit() };
    st.land_spell_rolled(&k, &rolls);
    assert_eq!(st.totals.total_damage, 515_000_000_000);
}

#[test]
fn a_frostbolt_hits_for_base_range_and_spell_power() {
    let k = tables();
    let mut st = in_flight(Spell::Frostbolt, 600_000_000_000);
    let rolls = Rolls { base: roll_at(500_000), ..plain_hit() };
    st.land_spell_rolled(&k, &rolls);
    assert_eq!(st.totals.total_damage, 1_023_571_428_400);
    assert_eq!(st.lanes[0].damage, 1_023_571_428_400);
    assert_eq!(st.totals.player_damage, 0);
    assert_eq!(st.totals.ignite_damage, 0);
    assert_eq!(st.lanes[0].comb_stack, 0);
    assert_eq!(st.damage_log.len(), 1);
    assert_eq!(st.damage_log[0].time, 750_000);
    assert_eq!(st.damage_log[0].damage, 1_023_571_428_400);
    assert!(st.log.is_empty());
}

#[test]
fn a_fireball_is_resisted_in_part_and_scaled_by_curse_and_talents() {
    let k = tables();
    let mut st = in_flight(Spell::Fireball, 600_000_000_000);
    st.meta.coe = 1_100_000;
    let rolls = Rolls { base: roll_at(250_000), resist: roll_at(900_000), ..plain_hit() };
    st.land_spell_rolled(&k, &rolls);
    assert_eq!(st.totals.total_damage, 1_122_577_500_000);
    assert_eq!(st.lanes[0].damage, 1_122_577_500_000);
    assert_eq!(st.lanes[0].comb_stack, 1);
}

#[test]
fn a_fire_crit_is_entered_once_and_feeds_ignite() {
    let k = tables();
    let mut st = in_flight(Spell::Fireball, 600_000_000_000);
    let rolls = Rolls { crit: 0, ..plain_hit() };
    st.land_spell_rolled(&k, &rolls);
    assert_eq!(st.totals.total_damage, 1_973_400_000_000);
    assert_eq!(st.lanes[0].damage, 1_973_400_000_000);
    assert_eq!(st.totals.player_damage, 0);
    assert_eq!(st.boss.ignite_value, 394_680_000_000);
    assert_eq!(st.boss.ignite_count, 1);
    assert_eq!(st.boss.ignite_timer, Timer::In(4_000_001));
    assert_eq!(st.boss.tick_timer, Timer::In(2_000_000));
    assert_eq!(st.boss.ignite_multiplier, 1_000_000);
    assert!(st.boss.ignite_refresh_history.is_empty());
    assert!(st.lanes[0].crit_too_late);
    assert_eq!(st.damage_log[0].damage, 1_973_400_000_000);
}

#[test]
fn a_second_fire_crit_refreshes_ignite_and_adds_to_it() {
    let k = tables();
    let mut st = in_flight(Spell::Fireball, 600_000_000_000);
    st.boss.ignite_timer = Timer::In(3_750_000);
    st.boss.ignite_count = 1;
    st.boss.ignite_value = 1_000;
    st.boss.ignite_multiplier = 1_234_567;
    st.boss.tick_timer = Timer::In(1_750_000);
    let rolls = Rolls { crit: 0, ..plain_hit() };
    st.land_spell_rolled(&k, &rolls);
    assert_eq!(st.boss.ignite_value, 394_680_001_000);
    assert_eq!(st.boss.ignite_count, 2);
    assert_eq!(st.boss.ignite_timer, Timer::In(4_000_001));
    assert_eq!(st.boss.tick_timer, Timer::In(1_000_000));
    assert_eq!(st.boss.ignite_multiplier, 1_234_567);
    assert_eq!(st.boss.ignite_refresh_history, vec![750_000]);
    assert!(!st.lanes[0].crit_too_late);
}

#[test]
fn ignite_holds_five_crits_at_most() {
    let k = tables();
    let mut st = in_flight(Spell::Fireball, 600_000_000_000);
    st.boss.ignite_timer = Timer::In(3_750_000);
    st.boss.ignite_count = 5;
    st.boss.ignite_value = 77;
    st.boss.tick_timer = Timer::In(2_750_001);
    let rolls = Rolls { crit: 0, ..plain_hit() };
    st.land_spell_rolled(&k, &rolls);
    assert_eq!(st.boss.ignite_value, 77);
    assert_eq!(st.boss.ignite_count, 5);
    assert_eq!(st.boss.tick_timer, Timer::In(2_000_000));
    assert_eq!(st.totals.total_damage, 1_973_400_000_000);
}

#[test]
fn a_refresh_history_keeps_ten_readings() {
    let k = tables();
    let mut st = in_flight(Spell::Fireball, 600_000_000_000);
    st.boss.ignite_timer = Timer::In(3_750_000);
    st.boss.ignite_count = 1;
    st.boss.ignite_refresh_history = (1..=10).collect();
    let rolls = Rolls { crit: 0, ..plain_hit() };
    st.land_spell_rolled(&k, &rolls);
    assert_eq!(st.boss.ignite_refresh_history, vec![2, 3, 4, 5, 6, 7, 8, 9, 10, 750_000]);
}

#[test]
fn a_crit_outside_fire_adds_its_extra_to_the_total_only() {
    let k = tables();
    let mut st = in_flight(Spell::Frostbolt, 600_000_000_000);
    let rolls = Rolls { base: roll_at(500_000), crit: 0, ..plain_hit() };
    st.land_spell_rolled(&k, &rolls);
    assert_eq!(st.totals.total_damage, 1_023_571_428_400 + 511_785_714_200);
    assert_eq!(st.lanes[0].damage, 1_023_571_428_400);
    assert_eq!(st.totals.player_damage, 0);
    assert_eq!(st.boss.ignite_count, 0);
    assert_eq!(st.damage_log[0].damage, 1_023_571_428_400);

    let mut st = in_flight(Spell::Frostbolt, 600_000_000_000);
    st.meta.target_slots = vec![0];
    st.land_spell_rolled(&k, &rolls);
    assert_eq!(st.totals.player_damage, 511_785_714_200);
}

#[test]
fn every_multiplier_applies_in_its_turn() {
    let k = tables();
    let mut st = in_flight(Spell::Fireball, 600_000_000_000);
    st.meta.coe = 1_100_000;
    st.meta.vulnerability = 2_900_000;
    st.meta.dmf_slots = vec![0];
    st.meta.sr_slots = vec![0];
    st.meta.ts_slots = vec![0];
    st.meta.cleaner_slots = vec![0];
    st.boss.scorch_timer = Timer::In(10_000_000);
    st.boss.scorch_count = 3;
    st.boss.spell_vulnerability = Timer::In(3_000_000);
    st.lanes[0].pi_timer[1] = Timer::In(5_000_000);
    let mut twin = st.clone();
    st.land_spell_rolled(&k, &plain_hit());
    assert_eq!(st.totals.total_damage, 8_180_784_892_287);
    assert_eq!(st.lanes[0].damage, 8_180_784_892_287);

    let rolls = Rolls { crit: 0, ..plain_hit() };
    twin.land_spell_rolled(&k, &rolls);
    assert_eq!(twin.totals.total_damage, 12_516_600_885_198);
    assert_eq!(twin.lanes[0].damage, 12_516_600_885_198);
    assert_eq!(twin.boss.ignite_value, 2_503_320_177_039);
    assert_eq!(twin.boss.ignite_multiplier, 4_509_766);
}

#[test]
fn scorch_needs_a_second_hit_for_its_debuff() {
    let k = tables();
    let mut st = in_flight(Spell::Scorch, 0);
    st.land_spell_rolled(&k, &Rolls { debuff: roll_at(995_000), ..plain_hit() });
    assert_eq!(st.totals.total_damage, 260_700_000_000);
    assert_eq!(st.boss.scorch_count, 0);
    assert_eq!(st.boss.scorch_timer, Timer::In(-750_000));

    let mut st = in_flight(Spell::Scorch, 0);
    st.land_spell_rolled(&k, &Rolls { debuff: 0, ..plain_hit() });
    assert_eq!(st.boss.scorch_count, 1);
    assert_eq!(st.boss.scorch_timer, Timer::In(30_000_000));
    assert!(st.boss.scorch_refresh_history.is_empty());
}

#[test]
fn scorch_stacks_to_five_and_remembers_its_refreshes() {
    let k = tables();
    let mut st = in_flight(Spell::Scorch, 0);
    st.boss.scorch_timer = Timer::In(8_000_000);
    st.boss.scorch_count = 4;
    st.land_spell_rolled(&k, &Rolls { debuff: 0, ..plain_hit() });
    assert_eq!(st.boss.scorch_count, 5);
    assert_eq!(st.boss.scorch_refresh_history, vec![750_000]);
    assert_eq!(st.totals.total_damage, 291_984_000_000);
    st.lanes[0].spell_timer[1] = Timer::In(0);
    st.land_spell_rolled(&k, &Rolls { debuff: 0, ..plain_hit() });
    assert_eq!(st.boss.scorch_count, 5);
    assert_eq!(st.boss.scorch_refresh_history, vec![750_000, 750_000]);
}

#[test]
fn stacks_of_a_debuff_that_ran_out_are_gone() {
    let k = tables();
    let mut st = in_flight(Spell::Frostbolt, 0);
    st.boss.scorch_timer = Timer::In(700_000);
    st.boss.scorch_count = 5;
    st.land_spell_rolled(&k, &plain_hit());
    assert_eq!(st.boss.scorch_count, 0);
}

#[test]
fn a_trinkets_power_fades_with_every_spell() {
    let k = tables();
    let mut st = in_flight(Spell::Scorch, 600_000_000_000);
    st.lanes[0].buff_timer[2] = Timer::In(9_000_000);
    st.lanes[0].buff_ticks = [4, 5, 2];
    st.land_spell_rolled(&k, &plain_hit());
    assert_eq!(st.totals.total_damage, 623_700_000_363);
    assert_eq!(st.lanes[0].buff_ticks, [4, 5, 3]);
}

#[test]
fn spell_power_never_counts_below_nothing() {
    let k = tables();
    let mut st = in_flight(Spell::Scorch, 0);
    st.lanes[0].buff_timer[2] = Timer::In(9_000_000);
    st.lanes[0].buff_ticks = [0, 0, 100];
    st.land_spell_rolled(&k, &plain_hit());
    assert_eq!(st.totals.total_damage, 260_700_000_000);
    assert_eq!(st.lanes[0].buff_ticks, [0, 0, 101]);
}

#[test]
fn the_dragonling_adds_spell_power_for_a_minute() {
    let k = tables();
    let mut st = in_flight(Spell::Frostbolt, 0);
    st.boss.dragonling_start = Timer::In(500_000);
    st.land_spell_rolled(&k, &plain_hit());
    assert_eq!(st.totals.total_damage, 515_000_000_000 + 244_285_714_200);

    let mut st = in_flight(Spell::Frostbolt, 0);
    st.boss.dragonling_start = Timer::In(750_001);
    st.land_spell_rolled(&k, &plain_hit());
    assert_eq!(st.totals.total_damage, 515_000_000_000);
}

#[test]
fn combustion_raises_the_crit_chance_and_loses_a_charge_on_a_crit() {
    let k = tables();
    let mut st = in_flight(Spell::Fireball, 0);
    st.lanes[0].crit_chance = 100_000;
    st.lanes[0].comb_left = 1;
    st.lanes[0].comb_stack = 2;
    st.lanes[0].comb_cooldown = Timer::Never;
    st.land_spell_rolled(&k, &Rolls { crit: roll_at(299_999), ..plain_hit() });
    assert_eq!(st.lanes[0].comb_left, 0);
    assert_eq!(st.lanes[0].comb_stack, 3);
    assert_eq!(st.lanes[0].comb_cooldown, Timer::In(180_000_000));
    assert_eq!(st.boss.ignite_count, 1);

    let mut st = in_flight(Spell::Fireball, 0);
    st.lanes[0].crit_chance = 100_000;
    st.lanes[0].comb_left = 2;
    st.lanes[0].comb_stack = 2;
    st.lanes[0].comb_cooldown = Timer::Never;
    st.land_spell_rolled(&k, &Rolls { crit: roll_at(300_000), ..plain_hit() });
    assert_eq!(st.lanes[0].comb_left, 2);
    assert_eq!(st.lanes[0].comb_stack, 3);
    assert_eq!(st.lanes[0].comb_cooldown, Timer::Never);
    assert_eq!(st.boss.ignite_count, 0);
}

#[test]
fn incinerate_adds_to_the_crit_chance_of_scorch() {
    let k = tables();
    let mut st = in_flight(Spell::Scorch, 0);
    st.lanes[0].crit_chance = 100_000;
    st.land_spell_rolled(&k, &Rolls { crit: roll_at(139_999), ..plain_hit() });
    assert_eq!(st.boss.ignite_count, 1);
    let mut st = in_flight(Spell::Scorch, 0);
    st.lanes[0].crit_chance = 100_000;
    st.land_spell_rolled(&k, &Rolls { crit: roll_at(140_000), ..plain_hit() });
    assert_eq!(st.boss.ignite_count, 0);
}

#[test]
fn a_pyroblast_leaves_a_burn_where_debuffs_are_unlimited() {
    let k = tables();
    let mut st = in_flight(Spell::Pyroblast, 600_000_000_000);
    st.meta.no_debuff_limit = true;
    st.land_spell_rolled(&k, &plain_hit());
    assert_eq!(st.lanes[0].pyro_count, 4);
    assert_eq!(st.lanes[0].pyro_timer, Timer::In(3_000_000));
    assert_eq!(st.lanes[0].pyro_value, 172_700_000_000);

    let mut st = in_flight(Spell::Pyroblast, 600_000_000_000);
    st.land_spell_rolled(&k, &plain_hit());
    assert_eq!(st.lanes[0].pyro_count, 0);
    assert_eq!(st.lanes[0].pyro_timer, Timer::Never);

    let mut st = in_flight(Spell::Pyroblast, 600_000_000_000);
    st.meta.no_debuff_limit = true;
    st.meta.cleaner_slots = vec![0];
    st.lanes[0].pi_timer[0] = Timer::In(1_000_000);
    st.land_spell_rolled(&k, &plain_hit());
    assert_eq!(st.lanes[0].pyro_value, 211_384_800_000);
}

#[test]
fn a_burn_ticks_four_times() {
    let mut st = arena(1, 600_000_000);
    st.meta.no_debuff_limit = true;
    st.meta.target_slots = vec![0];
    st.boss.scorch_timer = Timer::In(20_000_000);
    st.boss.scorch_count = 1;
    st.lanes[0].pyro_timer = Timer::In(3_000_000);
    st.lanes[0].pyro_count = 2;
    st.lanes[0].pyro_value = 172_700_000_000;
    assert_eq!(st.next_event(), Some(Event::PyroTick));
    st.tick_pyro();
    assert_eq!(st.global.running_time, 3_000_000);
    assert_eq!(st.totals.total_damage, 195_669_100_000);
    assert_eq!(st.totals.player_damage, 195_669_100_000);
    assert_eq!(st.lanes[0].damage, 0);
    assert_eq!(st.lanes[0].pyro_count, 1);
    assert_eq!(st.lanes[0].pyro_timer, Timer::In(3_000_000));
    st.tick_pyro();
    assert_eq!(st.lanes[0].pyro_count, 0);
    assert_eq!(st.lanes[0].pyro_timer, Timer::Never);
    assert_eq!(st.totals.total_damage, 2 * 195_669_100_000);
    assert_eq!(st.next_event(), None);
}

#[test]
fn ignite_ticks_for_its_value_under_the_targets_debuffs() {
    let mut st = arena(1, 600_000_000);
    st.boss.ignite_timer = Timer::In(4_000_001);
    st.boss.ignite_value = 394_680_000_000;
    st.boss.ignite_count = 1;
    st.boss.tick_timer = Timer::In(2_000_000);
    st.boss.scorch_timer = Timer::In(20_000_000);
    st.boss.scorch_count = 2;
    st.boss.spell_vulnerability = Timer::In(2_500_000);
    st.tick_ignite_rolled(roll_at(960_000));
    assert_eq!(st.global.running_time, 2_000_000);
    assert_eq!(st.totals.ignite_damage, 264_613_206_000);
    assert_eq!(st.totals.total_damage, 0);
    assert_eq!(st.boss.tick_timer, Timer::In(2_000_000));
    assert_eq!(st.boss.ignite_timer, Timer::In(2_000_001));
    assert_eq!(st.damage_log.len(), 1);
    assert_eq!(st.damage_log[0].damage, 264_613_206_000);
    st.tick_ignite_rolled(0);
    assert_eq!(st.boss.tick_timer, Timer::Never);
    assert_eq!(st.boss.ignite_timer, Timer::In(1));
    assert_eq!(st.next_event(), None);
}

#[test]
fn an_ignite_that_ran_out_ticks_for_nothing() {
    let mut st = arena(1, 600_000_000);
    st.boss.ignite_timer = Timer::In(1_000_000);
    st.boss.ignite_value = 394_680_000_000;
    st.boss.tick_timer = Timer::In(1_000_000);
    st.tick_ignite_rolled(0);
    assert_eq!(st.totals.ignite_damage, 0);
    assert_eq!(st.boss.tick_timer, Timer::Never);
    assert!(st.damage_log.is_empty());
}

#[test]
fn nothing_lands_or_ticks_once_the_trial_is_over() {
    let k = tables();
    let mut st = in_flight(Spell::Fireball, 600_000_000_000);
    st.global.duration = 750_000;
    st.land_spell_rolled(&k, &Rolls { crit: 0, ..plain_hit() });
    assert_eq!(st.global.running_time, 750_000);
    assert_eq!(st.totals.total_damage, 0);
    assert_eq!(st.lanes[0].spell_timer[0], Timer::In(0));
    assert_eq!(st.boss.ignite_count, 0);

    let mut st = arena(1, 2_000_000);
    st.boss.ignite_timer = Timer::In(4_000_001);
    st.boss.ignite_value = 1_000_000;
    st.boss.tick_timer = Timer::In(2_000_000);
    st.tick_ignite_rolled(0);
    assert_eq!(st.totals.ignite_damage, 0);
    assert_eq!(st.boss.tick_timer, Timer::In(0));
}

#[test]
fn a_proc_check_rearms_its_source_and_may_open_the_window() {
    let mut st = arena(0, 600_000_000);
    st.boss.nightfall = vec![Timer::In(3_550_000), Timer::In(1_770_000)];
    st.meta.nightfall_period = vec![3_550_000, 1_770_000];
    assert_eq!(st.next_event(), Some(Event::Proc));
    st.proc_nightfall_rolled(roll_at(150_000));
    assert_eq!(st.global.running_time, 1_770_000);
    assert_eq!(st.boss.nightfall, vec![Timer::In(1_780_000), Timer::In(1_770_000)]);
    assert_eq!(st.boss.spell_vulnerability, Timer::In(-1_770_000));
    st.proc_nightfall_rolled(roll_at(149_999));
    assert_eq!(st.global.running_time, 3_540_000);
    assert_eq!(st.boss.nightfall, vec![Timer::In(10_000), Timer::In(1_770_000)]);
    assert_eq!(st.boss.spell_vulnerability, Timer::In(5_000_000));
}

#[test]
fn impacts_are_logged_where_the_log_is_kept() {
    let k = tables();
    let mut st = in_flight(Spell::Fireball, 600_000_000_000);
    st.log_enabled = true;
    st.meta.coe = 1_100_000;
    st.land_spell_rolled(&k, &Rolls { base: roll_at(250_000), resist: roll_at(900_000), ..plain_hit() });
    assert!(st.damage_log.is_empty());
    assert_eq!(st.log.len(), 1);
    let e = &st.log[0];
    assert_eq!(e.log_type, LogType::SpellImpact);
    assert_eq!(e.spell, Some(Spell::Fireball));
    assert_eq!(e.lane, Some(0));
    assert_eq!(e.value, 1_122_577_500_000);
    assert_eq!(e.value2, 280_644_375_000);
    assert_eq!(e.spell_result, SpellResult::Hit);
    assert_eq!(e.totals.total_damage, 1_122_577_500_000);
    assert_eq!(e.t, 750_000);

    let mut st = in_flight(Spell::Fireball, 600_000_000_000);
    st.log_enabled = true;
    st.land_spell_rolled(&k, &Rolls { hit: NEVER_BELOW, ..plain_hit() });
    assert_eq!(st.log[0].spell_result, SpellResult::Miss);
    assert_eq!(st.log[0].value, 0);
}

#[test]
fn the_resist_tiers_keep_their_shares() {
    assert_eq!(retained(0), 1_000_000);
    assert_eq!(retained(roll_at(830_299)), 1_000_000);
    assert_eq!(retained(roll_at(830_300)), 750_000);
    assert_eq!(retained(roll_at(941_499)), 750_000);
    assert_eq!(retained(roll_at(941_500)), 500_000);
    assert_eq!(retained(roll_at(990_499)), 500_000);
    assert_eq!(retained(roll_at(990_500)), 250_000);
    assert_eq!(retained(u64::MAX), 250_000);
}
