use mage_sim::constants::{Action, Constants, Spell, TalentPoints};
use mage_sim::mechanics::Event;
use mage_sim::state::State;
use mage_sim::units::Timer;
use rand::SeedableRng;
use rand_chacha::ChaCha8Rng;

const SECOND: i64 = 1_000_000;

fn tables() -> Constants {
    Constants::new(&TalentPoints::new())
}

fn flat_tables() -> Constants {
    let mut k = tables();
    k.spell_range = [0; 6];
    k
}

fn points(billionths: u64) -> f64 {
    billionths as f64 / 1e9
}

/// A state as it is made, with one Frostbolt of a mage with a hundred spell
/// power half a second from the target.
fn frostbolt_in_flight(crit_chance: u64) -> State {
    let mut st = State::new(30 * SECOND, 1);
    st.meta.coe = 1_000_000;
    st.meta.vulnerability = 1_000_000;
    st.lanes[0].hit_chance = 1_000_000;
    st.lanes[0].crit_chance = crit_chance;
    st.lanes[0].spell_power = 100_000_000_000;
    st.lanes[0].spell_type[0] = Spell::Frostbolt;
    st.lanes[0].spell_timer[0] = Timer::In(SECOND / 2);
    st
}

#[test]
fn a_cast_that_ends_as_a_spell_lands_is_handled_first() {
    let k = tables();
    let mut rng = ChaCha8Rng::seed_from_u64(0);
    let mut st = State::new(30 * SECOND, 1);
    st.lanes[0].cast_type = Action::Gcd;
    st.lanes[0].cast_timer = Timer::In(SECOND);
    st.lanes[0].spell_timer[0] = Timer::In(SECOND);
    st.step_one(&k, &mut rng);
    assert_eq!(st.global.running_time, SECOND);
    assert!(st.decision_gate());
    assert_eq!(st.lanes[0].cast_number, 0);
    assert_eq!(st.lanes[0].spell_timer[0], Timer::In(0));
    assert_eq!(st.totals.total_damage, 0);
}

#[test]
fn a_spell_that_lands_as_ignite_ticks_is_handled_first() {
    let k = tables();
    let mut rng = ChaCha8Rng::seed_from_u64(0);
    let mut st = State::new(30 * SECOND, 1);
    st.lanes[0].hit_chance = 0;
    st.lanes[0].spell_timer[0] = Timer::In(SECOND);
    st.boss.tick_timer = Timer::In(SECOND);
    st.step_one(&k, &mut rng);
    assert_eq!(st.lanes[0].spell_timer[0], Timer::Never);
    assert_eq!(st.boss.tick_timer, Timer::In(0));
    assert_eq!(st.totals.ignite_damage, 0);
    assert_eq!(st.global.running_time, SECOND);
}

#[test]
fn an_ignite_tick_due_with_a_proc_check_is_handled_first() {
    let k = tables();
    let mut rng = ChaCha8Rng::seed_from_u64(0);
    let mut st = State::new(30 * SECOND, 1);
    st.boss.tick_timer = Timer::In(SECOND);
    st.boss.nightfall = vec![Timer::In(SECOND)];
    st.meta.nightfall_period = vec![2 * SECOND];
    st.step_one(&k, &mut rng);
    assert_eq!(st.boss.tick_timer, Timer::Never);
    assert_eq!(st.boss.nightfall[0], Timer::In(0));
    assert_eq!(st.boss.spell_vulnerability, Timer::In(-SECOND));
    assert_eq!(st.global.running_time, SECOND);
}

#[test]
fn a_proc_check_due_with_a_burn_tick_is_handled_first() {
    let k = tables();
    let mut rng = ChaCha8Rng::seed_from_u64(0);
    let mut st = State::new(30 * SECOND, 1);
    st.meta.no_debuff_limit = true;
    st.boss.nightfall = vec![Timer::In(SECOND)];
    st.meta.nightfall_period = vec![2 * SECOND];
    st.lanes[0].pyro_timer = Timer::In(SECOND);
    st.lanes[0].pyro_count = 2;
    st.step_one(&k, &mut rng);
    assert_eq!(st.boss.nightfall[0], Timer::In(2 * SECOND));
    assert_eq!(st.lanes[0].pyro_timer, Timer::In(0));
    assert_eq!(st.lanes[0].pyro_count, 2);
    assert_eq!(st.totals.total_damage, 0);
    assert_eq!(st.next_event(), Some(Event::PyroTick));
}

#[test]
fn a_step_with_nothing_scheduled_changes_nothing() {
    let k = tables();
    let mut rng = ChaCha8Rng::seed_from_u64(0);
    let mut twin = ChaCha8Rng::seed_from_u64(0);
    let mut st = State::new(30 * SECOND, 2);
    st.step_one(&k, &mut rng);
    assert_eq!(st.global.running_time, 0);
    assert!(!st.decision_gate());
    assert_eq!(st.totals.total_damage, 0);
    assert_eq!(st.lanes[0].cast_number, -1);
    assert_eq!(st.lanes[1].cast_number, -1);
    assert_eq!(rand::RngCore::next_u64(&mut rng), rand::RngCore::next_u64(&mut twin));
}

#[test]
fn a_frostbolt_hits_for_base_and_its_share_of_spell_power() {
    let k = flat_tables();
    for seed in 0..20 {
        let mut rng = ChaCha8Rng::seed_from_u64(seed);
        let mut st = frostbolt_in_flight(0);
        st.land_spell(&k, &mut rng);
        assert!((points(st.lanes[0].damage) - 596.4285714).abs() < 1e-6);
        assert_eq!(st.totals.total_damage, st.lanes[0].damage);
        assert_eq!(st.totals.ignite_damage, 0);
        assert_eq!(st.global.running_time, SECOND / 2);
        assert_eq!(st.lanes[0].spell_timer[0], Timer::Never);
    }
}

#[test]
fn a_frostbolt_crit_adds_its_extra_once() {
    let k = flat_tables();
    for seed in 0..20 {
        let mut rng = ChaCha8Rng::seed_from_u64(seed);
        let mut st = frostbolt_in_flight(1_000_000);
        st.land_spell(&k, &mut rng);
        assert!((points(st.totals.total_damage) - 894.6428571).abs() < 1e-6);
        assert_eq!(st.boss.ignite_count, 0);
        assert_eq!(st.boss.ignite_value, 0);
        assert_eq!(st.lanes[0].spell_timer[0], Timer::Never);
    }
}

#[test]
fn a_fading_trinket_counts_as_it_stood_before_the_spell() {
    let k = flat_tables();
    for seed in 0..20 {
        let mut rng = ChaCha8Rng::seed_from_u64(seed);
        let mut st = frostbolt_in_flight(0);
        st.lanes[0].buff_timer[2] = Timer::In(10 * SECOND);
        st.lanes[0].buff_ticks[2] = 2;
        st.land_spell(&k, &mut rng);
        assert!((points(st.lanes[0].damage) - 734.8571428).abs() < 1e-6);
        assert_eq!(st.totals.total_damage, st.lanes[0].damage);
        assert_eq!(st.lanes[0].buff_ticks[2], 3);
        assert_eq!(st.lanes[0].buff_ticks[0], 0);
    }
}

#[test]
fn a_spell_that_misses_changes_nothing_but_its_slot() {
    let k = tables();
    for seed in 0..20 {
        let mut rng = ChaCha8Rng::seed_from_u64(seed);
        let mut st = frostbolt_in_flight(0);
        st.lanes[0].hit_chance = 0;
        st.lanes[0].spell_type[0] = Spell::Fireball;
        st.land_spell(&k, &mut rng);
        assert_eq!(st.totals.total_damage, 0);
        assert_eq!(st.lanes[0].damage, 0);
        assert_eq!(st.boss.ignite_count, 0);
        assert_eq!(st.boss.scorch_count, 0);
        assert_eq!(st.lanes[0].comb_stack, 0);
        assert_eq!(st.lanes[0].spell_timer[0], Timer::Never);
        assert_eq!(st.global.running_time, SECOND / 2);
    }
}

#[test]
fn a_fresh_mage_starts_an_action_without_a_berserking_share() {
    let k = tables();
    let mut st = State::new(30 * SECOND, 1);
    st.start_action(0, Action::Fireball, 0, &k);
    assert_eq!(st.lanes[0].cast_timer, Timer::In(3 * SECOND));
    st.lanes[0].berserk_timer = Timer::In(SECOND);
    st.start_action(0, Action::Scorch, 0, &k);
    assert_eq!(st.lanes[0].cast_timer, Timer::In(1_500_000));
    st.start_action(0, Action::Combustion, 7, &k);
    assert_eq!(st.lanes[0].cast_timer, Timer::In(7));
    assert!(st.lanes[0].berserks(Action::Fireball));
    assert!(!st.lanes[0].berserks(Action::Scorch));
    assert!(!st.lanes[0].berserks(Action::Gcd));
}

#[test]
fn handlers_with_nothing_to_handle_change_nothing() {
    let k = tables();
    let mut rng = ChaCha8Rng::seed_from_u64(3);
    let mut twin = ChaCha8Rng::seed_from_u64(3);
    let mut st = State::new(30 * SECOND, 2);
    st.lanes[1].cast_timer = Timer::In(SECOND);
    let before = format!("{:?}", st);
    st.proc_nightfall(&k, &mut rng);
    assert_eq!(format!("{:?}", st), before);
    let mut empty = State::new(30 * SECOND, 0);
    empty.boss.nightfall = vec![Timer::In(SECOND)];
    empty.meta.nightfall_period = vec![SECOND];
    let before = format!("{:?}", empty);
    empty.finish_cast(&k);
    empty.land_spell(&k, &mut rng);
    empty.tick_pyro();
    assert_eq!(format!("{:?}", empty), before);
    assert_eq!(rand::RngCore::next_u64(&mut rng), rand::RngCore::next_u64(&mut twin));
}

#[test]
fn a_burn_ticks_whether_or_not_debuffs_are_unlimited() {
    let k = tables();
    let mut rng = ChaCha8Rng::seed_from_u64(0);
    let mut st = State::new(30 * SECOND, 1);
    st.lanes[0].pyro_timer = Timer::In(SECOND);
    st.lanes[0].pyro_count = 2;
    st.lanes[0].pyro_value = 100_000_000_000;
    st.step_one(&k, &mut rng);
    assert_eq!(st.global.running_time, SECOND);
    assert_eq!(st.totals.total_damage, 110_000_000_000);
    assert_eq!(st.lanes[0].pyro_count, 1);
    assert_eq!(st.lanes[0].pyro_timer, Timer::In(3 * SECOND));
}

#[test]
fn a_trial_of_negative_length_is_over_before_it_begins() {
    let st = State::new(-5, 1);
    assert!(!st.in_progress());
    let read = |clock: i64, duration: i64| {
        let mut st = State::new(duration, 1);
        st.global.running_time = clock;
        mage_sim::decisions::AdaptiveMage::evaluate_value(
            &mage_sim::apl::AplValue {
                value_type: mage_sim::apl::AplValueType::SimTimePercent,
                vstr: String::new(),
                vfloat: 0,
                vint: 0,
            },
            &st,
            0,
            mage_sim::decisions::ValueContext::Float,
        )
    };
    assert_eq!(read(1, 3), mage_sim::units::Reading::Exact(33_333_333));
    assert_eq!(read(1, -3), mage_sim::units::Reading::Exact(-33_333_333));
    assert_eq!(read(-1, 3), mage_sim::units::Reading::Exact(-33_333_333));
    assert_eq!(read(-1, -3), mage_sim::units::Reading::Exact(33_333_333));
    assert_eq!(read(7, 0), mage_sim::units::Reading::Unbounded);
}

#[test]
fn a_proc_source_without_a_period_is_not_armed_again() {
    let k = tables();
    let mut rng = ChaCha8Rng::seed_from_u64(0);
    let mut st = State::new(30 * SECOND, 0);
    st.boss.nightfall = vec![Timer::In(SECOND), Timer::In(2 * SECOND)];
    st.meta.nightfall_period = vec![5 * SECOND];
    st.step_one(&k, &mut rng);
    assert_eq!(st.boss.nightfall, vec![Timer::In(5 * SECOND), Timer::In(SECOND)]);
    st.step_one(&k, &mut rng);
    assert_eq!(st.global.running_time, 2 * SECOND);
    assert_eq!(st.boss.nightfall, vec![Timer::In(4 * SECOND), Timer::In(0)]);
    st.step_one(&k, &mut rng);
    assert_eq!(st.global.running_time, 2 * SECOND);
    assert_eq!(st.boss.nightfall, vec![Timer::In(4 * SECOND), Timer::In(0)]);
}
