use mage_sim::orchestration::{
    series_length, summarize, DamageAccumulator, LogType, Timing,
};
use mage_sim::state::State;

fn finished() -> State {
    let mut st = State::new(40_000_000, 2);
    st.global.running_time = 40_100_000;
    st.totals.total_damage = 30_000_999_999_999;
    st.totals.ignite_damage = 5_000_000_001_000;
    st.lanes[0].damage = 20_000_999_999_999;
    st.lanes[1].damage = 10_000_000_000_000;
    st.damage_log = vec![
        DamageAccumulator { time: 100_000, damage: 1_000_000_000 },
        DamageAccumulator { time: 250_000, damage: 2_000_000_000 },
        DamageAccumulator { time: 250_001, damage: 4_000_000_000 },
        DamageAccumulator { time: 1_000_000, damage: 8_000_000_000 },
    ];
    st
}

#[test]
fn a_trial_is_summed_up_by_its_length() {
    let st = finished();
    let names = vec!["Ann".to_string(), "Bob".to_string(), "spare".to_string()];
    let r = summarize(&st, &names, 3);
    assert_eq!(r.iterations, 1);
    assert_eq!(r.t, 40_000_000);
    assert_eq!(r.dmg, 35_001);
    assert_eq!(r.dps, 875_025_000_024);
    assert_eq!(r.ignite_dmg, 5_000);
    assert_eq!(r.ignite_dps, 125_000_000_025);
    assert_eq!(r.players.len(), 2);
    assert_eq!(r.players[0].name, "Ann");
    assert_eq!(r.players[0].dmg, 20_000);
    assert_eq!(r.players[0].dps, 562_525_000_012);
    assert_eq!(r.players[0].ninetieth, 0);
    assert_eq!(r.players[1].name, "Bob");
    assert_eq!(r.players[1].dmg, 10_000);
    assert_eq!(r.players[1].dps, 312_500_000_012);
    assert!(r.log.is_empty());
    assert_eq!(r.damage_log, vec![0, 12_000_000_000, 14_000_000_000, 9_333_333_333]);
}

#[test]
fn a_trial_that_kept_a_log_has_no_damage_series() {
    let mut st = finished();
    st.log_enabled = true;
    st.log_cast(LogType::Wait, 1, mage_sim::constants::Action::Gcd);
    let names = vec!["Ann".to_string(), "Bob".to_string()];
    let r = summarize(&st, &names, 3);
    assert!(r.damage_log.is_empty());
    assert_eq!(r.log.len(), 1);
    assert_eq!(r.log[0].log_type, LogType::Wait);
    assert_eq!(r.log[0].lane, Some(1));
    assert_eq!(r.log[0].t, 40_100_000);
}

#[test]
fn a_trial_of_no_length_is_rated_over_one_tick() {
    let mut st = State::new(0, 0);
    st.totals.total_damage = 3;
    let r = summarize(&st, &vec![], 0);
    assert_eq!(r.t, 1);
    assert_eq!(r.dps, 3_000_000);
    assert_eq!(r.dmg, 0);
    assert!(r.players.is_empty());
    assert_eq!(r.damage_log, vec![0]);
}

#[test]
fn the_series_covers_the_shortest_trial() {
    let timing = |mean, sigma| Timing {
        duration_mean: mean,
        duration_sigma: sigma,
        initial_delay: 0,
        recast_delay: 0,
        reaction_time: 0,
    };
    assert_eq!(series_length(&timing(45_000_000, 5_000_000)), 160);
    assert_eq!(series_length(&timing(45_000_001, 5_000_000)), 161);
    assert_eq!(series_length(&timing(250_000, 0)), 1);
    assert_eq!(series_length(&timing(1, 0)), 1);
    assert_eq!(series_length(&timing(5, 5)), 0);
    assert_eq!(series_length(&timing(5, 9)), 0);
    assert_eq!(series_length(&timing(i64::MAX, i64::MIN)), 1_000_000_000);
}
