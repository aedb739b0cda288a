use mage_sim::constants::{Action, Buff, Constants, Spell, TalentPoints};
use mage_sim::mechanics::Event;
use mage_sim::orchestration::LogType;
use mage_sim::state::State;
use mage_sim::units::Timer;

fn arena(lanes: usize, duration: i64) -> State {
    let mut st = State::new(duration, lanes);
    st.meta.coe = 1_000_000;
    st.meta.vulnerability = 1_000_000;
    st
}

fn tables() -> Constants {
    Constants::new(&TalentPoints::new())
}

#[test]
fn fireball_takes_its_cast_time_after_the_delay() {
    let k = tables();
    let mut st = arena(1, 60_000_000);
    st.global.decision_gate = true;
    st.start_action(0, Action::Fireball, 50_000, &k);
    assert_eq!(st.lanes[0].cast_type, Action::Fireball);
    assert_eq!(st.lanes[0].cast_timer, Timer::In(3_050_000));
    assert_eq!(st.lanes[0].gcd_timer, Timer::In(0));
    assert!(!st.decision_gate());
}

#[test]
fn the_quickening_gem_shortens_a_fireball() {
    let k = tables();
    let mut st = arena(1, 60_000_000);
    st.lanes[0].buff_timer[3] = Timer::In(10_000_000);
    st.start_action(0, Action::Fireball, 0, &k);
    assert_eq!(st.lanes[0].cast_timer, Timer::In(2_255_639));
}

#[test]
fn berserking_shortens_a_fireball_by_the_mages_share() {
    let k = tables();
    let mut st = arena(1, 60_000_000);
    st.meta.berserk_slots = vec![100_000];
    st.lanes[0].berserk_timer = Timer::In(5_000_000);
    st.start_action(0, Action::Fireball, 0, &k);
    assert_eq!(st.lanes[0].cast_timer, Timer::In(2_727_272));
    let mut st = arena(1, 60_000_000);
    st.meta.berserk_slots = vec![100_000];
    st.lanes[0].berserk_timer = Timer::In(5_000_000);
    st.lanes[0].buff_timer[3] = Timer::In(5_000_000);
    st.start_action(0, Action::Fireball, 0, &k);
    assert_eq!(st.lanes[0].cast_timer, Timer::In(2_050_580));
}

#[test]
fn haste_never_takes_a_cast_below_the_global_cooldown() {
    let k = tables();
    let mut st = arena(1, 60_000_000);
    st.meta.berserk_slots = vec![3_000_000];
    st.lanes[0].berserk_timer = Timer::In(5_000_000);
    st.start_action(0, Action::Fireball, 200_000, &k);
    assert_eq!(st.lanes[0].cast_timer, Timer::In(1_700_000));
    assert_eq!(st.lanes[0].gcd_timer, Timer::In(0));
}

#[test]
fn scorch_is_not_hasted() {
    let k = tables();
    let mut st = arena(1, 60_000_000);
    st.lanes[0].buff_timer[3] = Timer::In(10_000_000);
    st.start_action(0, Action::Scorch, 100_000, &k);
    assert_eq!(st.lanes[0].cast_timer, Timer::In(1_600_000));
    assert_eq!(st.lanes[0].gcd_timer, Timer::In(0));
}

#[test]
fn fire_blast_costs_a_global_cooldown() {
    let k = tables();
    let mut st = arena(1, 60_000_000);
    st.start_action(0, Action::FireBlast, 0, &k);
    assert_eq!(st.lanes[0].cast_timer, Timer::In(1_500_000));
}

#[test]
fn waiting_takes_a_global_cooldown_whatever_the_delay() {
    let k = tables();
    let mut st = arena(1, 60_000_000);
    st.lanes[0].gcd_timer = Timer::In(-7);
    st.start_action(0, Action::Gcd, 900_000, &k);
    assert_eq!(st.lanes[0].cast_type, Action::Gcd);
    assert_eq!(st.lanes[0].cast_timer, Timer::In(1_500_000));
    assert_eq!(st.lanes[0].gcd_timer, Timer::In(-7));
}

#[test]
fn an_instant_takes_the_delay_only() {
    let k = tables();
    let mut st = arena(1, 60_000_000);
    st.lanes[0].gcd_timer = Timer::In(400_000);
    st.start_action(0, Action::Combustion, 120_000, &k);
    assert_eq!(st.lanes[0].cast_timer, Timer::In(120_000));
    assert_eq!(st.lanes[0].gcd_timer, Timer::In(0));
}

#[test]
fn a_short_cast_leaves_the_rest_of_the_global_cooldown() {
    let mut k = tables();
    k.cast_time[0] = 200_000;
    let mut st = arena(1, 60_000_000);
    st.start_action(0, Action::Scorch, 100_000, &k);
    assert_eq!(st.lanes[0].cast_timer, Timer::In(300_000));
    assert_eq!(st.lanes[0].gcd_timer, Timer::In(1_300_000));
    st.finish_cast(&k);
    assert_eq!(st.global.running_time, 300_000);
    assert_eq!(st.lanes[0].cast_type, Action::Gcd);
    assert_eq!(st.lanes[0].cast_timer, Timer::In(1_000_000));
    assert_eq!(st.lanes[0].gcd_timer, Timer::In(0));
    assert_eq!(st.lanes[0].cast_number, -1);
    assert!(!st.decision_gate());
    assert_eq!(st.lanes[0].spell_timer[0], Timer::In(0));
    assert_eq!(st.lanes[0].spell_type[0], Spell::Scorch);
}

#[test]
fn the_end_of_a_cast_puts_the_spell_in_flight_and_opens_the_gate() {
    let k = tables();
    let mut st = arena(2, 60_000_000);
    st.lanes[1].cast_timer = Timer::In(9_000_000);
    st.start_action(0, Action::Fireball, 0, &k);
    assert_eq!(st.next_event(), Some(Event::CastEnd));
    st.finish_cast(&k);
    assert_eq!(st.global.running_time, 3_000_000);
    assert_eq!(st.lanes[0].spell_type[0], Spell::Fireball);
    assert_eq!(st.lanes[0].spell_timer[0], Timer::In(875_000));
    assert_eq!(st.lanes[0].spell_timer[1], Timer::Never);
    assert_eq!(st.lanes[0].cast_timer, Timer::In(0));
    assert_eq!(st.lanes[0].cast_number, 0);
    assert_eq!(st.lanes[1].cast_timer, Timer::In(6_000_000));
    assert!(st.decision_gate());
}

#[test]
fn a_spell_is_lost_when_four_are_in_flight() {
    let k = tables();
    let mut st = arena(1, 60_000_000);
    st.lanes[0].spell_timer = [Timer::In(5_000_000); 4];
    st.lanes[0].spell_type = [Spell::Pyroblast; 4];
    st.start_action(0, Action::Fireball, 0, &k);
    st.finish_cast(&k);
    assert_eq!(st.lanes[0].spell_timer, [Timer::In(2_000_000); 4]);
    assert_eq!(st.lanes[0].spell_type, [Spell::Pyroblast; 4]);
    assert!(st.decision_gate());
}

#[test]
fn the_first_free_slot_takes_the_spell() {
    let k = tables();
    let mut st = arena(1, 60_000_000);
    st.lanes[0].spell_timer = [Timer::In(5_000_000), Timer::In(6_000_000), Timer::Never, Timer::Never];
    st.start_action(0, Action::Frostbolt, 0, &k);
    st.finish_cast(&k);
    assert_eq!(st.lanes[0].spell_type[2], Spell::Frostbolt);
    assert_eq!(st.lanes[0].spell_timer[2], Timer::In(750_000));
    assert_eq!(st.lanes[0].spell_timer[3], Timer::Never);
}

#[test]
fn fire_blast_starts_its_cooldown_when_its_cast_ends() {
    let k = tables();
    let mut st = arena(1, 60_000_000);
    st.start_action(0, Action::FireBlast, 0, &k);
    st.finish_cast(&k);
    assert_eq!(st.lanes[0].fb_cooldown, Timer::In(8_000_000));
    assert_eq!(st.lanes[0].spell_type[0], Spell::FireBlast);
    assert_eq!(st.lanes[0].spell_timer[0], Timer::In(0));
}

#[test]
fn an_action_without_a_spell_counts_as_scorch() {
    let k = tables();
    let mut st = arena(1, 60_000_000);
    st.start_action(0, Action::ArcanePower, 300_000, &k);
    assert_eq!(st.lanes[0].cast_timer, Timer::In(300_000));
    st.finish_cast(&k);
    assert_eq!(st.lanes[0].spell_type[0], Spell::Scorch);
    assert_eq!(st.lanes[0].spell_timer[0], Timer::In(0));
}

#[test]
fn combustion_gives_three_charges_and_holds_its_cooldown() {
    let k = tables();
    let mut st = arena(1, 60_000_000);
    st.start_action(0, Action::Combustion, 0, &k);
    st.finish_cast(&k);
    assert_eq!(st.lanes[0].comb_left, 3);
    assert_eq!(st.lanes[0].comb_stack, 1);
    assert_eq!(st.lanes[0].comb_cooldown, Timer::Never);
    assert_eq!(st.lanes[0].spell_timer, [Timer::Never; 4]);
    assert!(st.decision_gate());
}

#[test]
fn a_trinket_runs_cools_down_and_locks_the_others() {
    let k = tables();
    let mut st = arena(1, 600_000_000);
    st.lanes[0].buff_cooldown = [Timer::In(0), Timer::In(0), Timer::Never, Timer::In(50_000_000)];
    st.lanes[0].buff_ticks = [7, 8, 9];
    st.start_action(0, Action::Toep, 0, &k);
    st.finish_cast(&k);
    let l = &st.lanes[0];
    assert_eq!(l.buff_timer[Buff::Toep.index()], Timer::In(15_000_000));
    assert_eq!(l.buff_timer[Buff::Sapp.index()], Timer::In(0));
    assert_eq!(
        l.buff_cooldown,
        [Timer::In(15_000_000), Timer::In(90_000_000), Timer::Never, Timer::In(50_000_000)]
    );
    assert_eq!(l.buff_ticks, [7, 0, 9]);
}

#[test]
fn the_quickening_gem_resets_no_tick_count() {
    let k = tables();
    let mut st = arena(1, 600_000_000);
    st.lanes[0].buff_cooldown = [Timer::In(0); 4];
    st.lanes[0].buff_ticks = [1, 2, 3];
    st.start_action(0, Action::Mqg, 0, &k);
    st.finish_cast(&k);
    let l = &st.lanes[0];
    assert_eq!(l.buff_timer[3], Timer::In(20_000_000));
    assert_eq!(
        l.buff_cooldown,
        [Timer::In(20_000_000), Timer::In(20_000_000), Timer::In(20_000_000), Timer::In(300_000_000)]
    );
    assert_eq!(l.buff_ticks, [1, 2, 3]);
}

#[test]
fn power_infusion_uses_the_slot_that_is_ready_first() {
    let k = tables();
    let mut st = arena(1, 600_000_000);
    st.lanes[0].pi_cooldown = [Timer::Never, Timer::In(-5), Timer::In(-9), Timer::In(-9)];
    st.start_action(0, Action::PowerInfusion, 0, &k);
    st.finish_cast(&k);
    let l = &st.lanes[0];
    assert_eq!(l.pi_timer, [Timer::In(0), Timer::In(0), Timer::In(15_000_000), Timer::In(0)]);
    assert_eq!(
        l.pi_cooldown,
        [Timer::Never, Timer::In(-5), Timer::In(180_000_000), Timer::In(-9)]
    );
}

#[test]
fn berserking_runs_ten_seconds() {
    let k = tables();
    let mut st = arena(1, 600_000_000);
    st.start_action(0, Action::Berserking, 0, &k);
    st.finish_cast(&k);
    assert_eq!(st.lanes[0].berserk_timer, Timer::In(10_000_000));
    assert_eq!(st.lanes[0].berserk_cooldown, Timer::In(180_000_000));
}

#[test]
fn the_cast_count_saturates() {
    let k = tables();
    let mut st = arena(1, 600_000_000);
    st.lanes[0].cast_number = i32::MAX;
    st.start_action(0, Action::Gcd, 0, &k);
    st.finish_cast(&k);
    assert_eq!(st.lanes[0].cast_number, i32::MAX);
}

#[test]
fn casts_are_logged_where_the_log_is_kept() {
    let k = tables();
    let mut st = arena(1, 600_000_000);
    st.log_enabled = true;
    st.start_action(0, Action::Fireball, 40_000, &k);
    assert_eq!(st.log.len(), 1);
    assert_eq!(st.log[0].log_type, LogType::CastStart);
    assert_eq!(st.log[0].lane, Some(0));
    assert_eq!(st.log[0].action, Some(Action::Fireball));
    assert_eq!(st.log[0].t, 0);
    assert_eq!(st.log[0].mage.unwrap().cast_timer, Timer::In(3_040_000));
    st.finish_cast(&k);
    assert_eq!(st.log.len(), 2);
    assert_eq!(st.log[1].log_type, LogType::CastSuccess);
    assert_eq!(st.log[1].t, 3_040_000);
    assert_eq!(st.log[1].mage.unwrap().spell_timer[0], Timer::In(875_000));
    assert!(st.damage_log.is_empty());
}

#[test]
fn time_passes_on_every_countdown() {
    let mut st = arena(2, 600_000_000);
    st.boss.nightfall = vec![Timer::In(3_000_000), Timer::Never];
    st.meta.nightfall_period = vec![3_000_000, 4_000_000];
    st.boss.tick_timer = Timer::In(2_000_000);
    st.boss.ignite_timer = Timer::In(4_000_001);
    st.lanes[0].cast_timer = Timer::In(1_000_000);
    st.lanes[1].spell_timer[2] = Timer::In(1_500_000);
    st.lanes[1].pyro_timer = Timer::Never;
    st.subtime(1_000_000);
    assert_eq!(st.global.running_time, 1_000_000);
    assert_eq!(st.boss.nightfall, vec![Timer::In(2_000_000), Timer::Never]);
    assert_eq!(st.boss.tick_timer, Timer::In(1_000_000));
    assert_eq!(st.boss.ignite_timer, Timer::In(3_000_001));
    assert_eq!(st.boss.scorch_timer, Timer::In(-1_000_000));
    assert_eq!(st.boss.dragonling_start, Timer::In(-60_000_000));
    assert_eq!(st.lanes[0].cast_timer, Timer::In(0));
    assert_eq!(st.lanes[0].fb_cooldown, Timer::In(-1_000_000));
    assert_eq!(st.lanes[0].buff_cooldown, [Timer::Never; 4]);
    assert_eq!(st.lanes[1].cast_timer, Timer::Never);
    assert_eq!(st.lanes[1].spell_timer[2], Timer::In(500_000));
    assert_eq!(st.lanes[1].pi_timer, [Timer::In(-1_000_000); 4]);
}

#[test]
fn a_burn_only_runs_where_debuffs_are_unlimited() {
    let mut st = arena(1, 600_000_000);
    st.meta.no_debuff_limit = true;
    st.lanes[0].pyro_timer = Timer::In(3_000_000);
    st.lanes[0].pyro_count = 4;
    st.subtime(1_000_000);
    assert_eq!(st.lanes[0].pyro_timer, Timer::In(2_000_000));
}
