use mage_sim::constants::{BossType, ConstantsConfig, Racial};
use mage_sim::orchestration::{
    apply_buffs, has_idx, init_state, raise_listed, Buffs, Configuration, SetupError, SimParams, Stats,
    Timing,
};
use mage_sim::units::Timer;

fn nobody(lists: usize) -> Vec<Vec<usize>> {
    vec![vec![]; lists]
}

fn bare_buffs(mages: usize) -> Buffs {
    Buffs {
        consumes: nobody(10),
        raid: nobody(3),
        world: nobody(7),
        boss: BossType::Other,
        auras_mage_atiesh: vec![0; mages],
        auras_lock_atiesh: vec![0; mages],
        auras_boomkin: vec![0; mages],
        racial: vec![Racial::Other; mages],
        berserk: vec![0; mages],
    }
}

fn params(mages: usize) -> SimParams {
    let mut config = Configuration::new();
    config.num_mages = mages;
    config.pi_count = vec![0; mages];
    config.name = (0..mages).map(|i| format!("mage {}", i)).collect();
    SimParams {
        stats: Stats {
            spell_power: vec![600_000_000; mages],
            crit_chance: vec![242_000; mages],
            hit_chance: vec![970_000; mages],
            intellect: vec![300_000_000; mages],
        },
        buffs: bare_buffs(mages),
        timing: Timing {
            duration_mean: 45_000_000,
            duration_sigma: 0,
            initial_delay: 200_000,
            recast_delay: 50_000,
            reaction_time: 100_000,
        },
        config,
        consts_cfg: ConstantsConfig::default(),
    }
}

#[test]
fn a_list_names_the_lanes_it_holds() {
    let map = vec![vec![], vec![2, 0], vec![1]];
    assert!(!has_idx(&map, 0, 0));
    assert!(has_idx(&map, 1, 0));
    assert!(has_idx(&map, 1, 2));
    assert!(!has_idx(&map, 1, 1));
    assert!(has_idx(&map, 2, 1));
    assert!(!has_idx(&map, 3, 1));
}

#[test]
fn a_new_configuration_assigns_nothing() {
    let c = Configuration::new();
    assert_eq!(c.num_mages, 0);
    assert_eq!(c.buff_assignments, nobody(4));
    assert!(c.do_stat_weights);
    assert!(c.no_debuff_limit);
    assert!(c.coe);
    assert_eq!(c.dragonling, Timer::Never);
    assert_eq!(c.boss, BossType::Other);
    assert!(c.target.is_empty() && c.vary.is_empty() && c.pi_count.is_empty());
    assert!(c.udc.is_empty() && c.t3_6p.is_empty() && c.nightfall.is_empty() && c.name.is_empty());
}

#[test]
fn buffs_are_worked_into_the_stats() {
    let mut stats = Stats {
        spell_power: vec![600_000_000_000, 600_000_000_000],
        crit_chance: vec![180_000, 180_000],
        hit_chance: vec![80_000, 150_000],
        intellect: vec![300_000_000_000, 300_000_000_000],
    };
    let mut buffs = bare_buffs(2);
    buffs.racial = vec![Racial::Human, Racial::Gnome];
    buffs.raid = vec![vec![0, 1], vec![1], vec![0, 1]];
    buffs.consumes = vec![vec![1], vec![1], vec![], vec![1], vec![1], vec![1], vec![1], vec![1], vec![1], vec![1]];
    buffs.world = vec![vec![1], vec![1], vec![1], vec![1], vec![], vec![], vec![]];
    buffs.auras_lock_atiesh = vec![0, 2];
    apply_buffs(&mut stats, &buffs);
    assert_eq!(stats.intellect, vec![501_600_000_000, 742_757_400_000]);
    assert_eq!(stats.spell_power, vec![600_000_000_000, 600_000_000_000 + 344_000_000_000 + 66_000_000_000]);
    assert_eq!(stats.crit_chance, vec![180_000 + 62_000 + 84_302, 556_833]);
    assert_eq!(stats.hit_chance, vec![970_000, 990_000]);
}

#[test]
fn crit_chance_is_capped_at_certainty() {
    let mut stats = Stats {
        spell_power: vec![0],
        crit_chance: vec![400_000],
        hit_chance: vec![0],
        intellect: vec![0],
    };
    let mut buffs = bare_buffs(1);
    buffs.boss = BossType::Loatheb;
    buffs.auras_mage_atiesh = vec![1];
    buffs.auras_boomkin = vec![1];
    apply_buffs(&mut stats, &buffs);
    assert_eq!(stats.crit_chance, vec![1_000_000]);
    assert_eq!(stats.hit_chance, vec![890_000]);
    let mut stats = Stats { spell_power: vec![], crit_chance: vec![0], hit_chance: vec![], intellect: vec![0] };
    buffs.boss = BossType::Thaddius;
    apply_buffs(&mut stats, &buffs);
    assert_eq!(stats.crit_chance, vec![62_000 + 20_000 + 30_000]);
}

#[test]
fn a_trial_starts_at_the_first_action() {
    let mut p = params(3);
    p.config.buff_assignments = vec![vec![0], vec![], vec![2, 0], vec![1]];
    p.config.pi_count = vec![0, 2, 9];
    p.config.udc = vec![0, 2];
    p.config.target = vec![1];
    p.config.nightfall = vec![1_770_000, 100_000];
    p.config.dragonling = Timer::In(20_000_000);
    p.config.coe = true;
    p.config.no_debuff_limit = false;
    p.buffs.world[4] = vec![0, 1, 2];
    p.buffs.world[5] = vec![1];
    p.buffs.world[6] = vec![2];
    p.buffs.berserk = vec![0, 100_000, 0];
    p.buffs.boss = BossType::Thaddius;
    p.stats.hit_chance = vec![970_000, 980_000, 990_000];
    let st = init_state(&p, 45_000_000, &vec![400_000, 150_000, 900_000], true).unwrap();
    assert_eq!(st.global.running_time, 150_000);
    assert_eq!(st.global.duration, 45_000_000);
    assert!(!st.decision_gate());
    assert!(st.log_enabled);
    assert_eq!(st.lanes.len(), 3);
    assert_eq!(st.lanes[0].cast_timer, Timer::In(250_000));
    assert_eq!(st.lanes[1].cast_timer, Timer::In(0));
    assert_eq!(st.lanes[2].cast_timer, Timer::In(750_000));
    assert_eq!(st.lanes[1].hit_chance, 980_000);
    assert_eq!(st.lanes[1].crit_chance, 242_000);
    assert_eq!(st.lanes[1].spell_power, 600_000_000);
    let ready = Timer::In(-150_000);
    assert_eq!(st.lanes[0].buff_cooldown, [ready, Timer::Never, ready, Timer::Never]);
    assert_eq!(st.lanes[1].buff_cooldown, [Timer::Never, Timer::Never, Timer::Never, ready]);
    assert_eq!(st.lanes[2].buff_cooldown, [Timer::Never, Timer::Never, ready, Timer::Never]);
    assert_eq!(st.lanes[0].pi_cooldown, [Timer::Never; 4]);
    assert_eq!(st.lanes[1].pi_cooldown, [ready, ready, Timer::Never, Timer::Never]);
    assert_eq!(st.lanes[2].pi_cooldown, [ready; 4]);
    assert_eq!(st.lanes[0].berserk_cooldown, Timer::Never);
    assert_eq!(st.lanes[1].berserk_cooldown, ready);
    assert_eq!(st.lanes[0].fb_cooldown, ready);
    assert_eq!(st.lanes[0].spell_timer, [Timer::Never; 4]);
    assert_eq!(st.boss.nightfall, vec![Timer::In(1_620_000), Timer::In(0)]);
    assert_eq!(st.boss.dragonling_start, Timer::In(20_000_000));
    assert_eq!(st.boss.tick_timer, Timer::Never);
    assert_eq!(st.boss.ignite_timer, ready);
    assert_eq!(st.meta.nightfall_period, vec![1_770_000, 100_000]);
    assert_eq!(st.meta.cleaner_slots, vec![0, 2]);
    assert_eq!(st.meta.target_slots, vec![1]);
    assert_eq!(st.meta.dmf_slots, vec![0, 1, 2]);
    assert_eq!(st.meta.sr_slots, vec![1]);
    assert_eq!(st.meta.ts_slots, vec![2]);
    assert_eq!(st.meta.pi_count, vec![0, 2, 9]);
    assert_eq!(st.meta.berserk_slots, vec![0, 100_000, 0]);
    assert_eq!(st.meta.vulnerability, 2_900_000);
    assert_eq!(st.meta.coe, 1_100_000);
    assert!(!st.meta.no_debuff_limit);
    assert_eq!(st.meta.name, vec!["mage 0", "mage 1", "mage 2"]);
    assert_eq!(st.totals.total_damage, 0);
    assert_eq!(st.next_cast_lane(), Some(1));
}

#[test]
fn a_trial_without_mages_or_curse_starts_at_zero() {
    let mut p = params(0);
    p.config.coe = false;
    let st = init_state(&p, 0, &vec![], false).unwrap();
    assert_eq!(st.global.running_time, 0);
    assert_eq!(st.meta.coe, 1_000_000);
    assert_eq!(st.meta.vulnerability, 1_000_000);
    assert!(!st.in_progress());
    assert!(!st.log_enabled);
    assert_eq!(st.boss.dragonling_start, Timer::Never);
}

#[test]
fn a_faulty_setup_is_refused() {
    let offsets = vec![100_000, 200_000];
    let fault = |p: &SimParams, duration: i64, offsets: &Vec<i64>| init_state(p, duration, offsets, false).err();
    assert_eq!(fault(&params(2), 45_000_000, &offsets), None);

    let mut p = params(2);
    p.stats.crit_chance = vec![0];
    assert_eq!(fault(&p, 45_000_000, &offsets), Some(SetupError::StatsTooShort));
    let mut p = params(2);
    p.stats.hit_chance = vec![];
    assert_eq!(fault(&p, 45_000_000, &offsets), Some(SetupError::StatsTooShort));
    let mut p = params(2);
    p.stats.spell_power.pop();
    assert_eq!(fault(&p, -1, &vec![]), Some(SetupError::StatsTooShort));

    assert_eq!(fault(&params(2), 45_000_000, &vec![0]), Some(SetupError::OffsetsMismatch));
    assert_eq!(fault(&params(2), 45_000_000, &vec![0, 0, 0]), Some(SetupError::OffsetsMismatch));

    let mut p = params(2);
    p.config.pi_count = vec![1];
    assert_eq!(fault(&p, 45_000_000, &offsets), Some(SetupError::PiCountTooShort));

    let mut p = params(2);
    p.buffs.berserk = vec![0];
    assert_eq!(fault(&p, 45_000_000, &offsets), Some(SetupError::BerserkTooShort));
    p.buffs.berserk = vec![0, 0, 0];
    assert_eq!(fault(&p, 45_000_000, &offsets), None);

    let mut p = params(2);
    p.buffs.world = nobody(6);
    assert_eq!(fault(&p, 45_000_000, &offsets), Some(SetupError::WorldBuffsIncomplete));

    assert_eq!(fault(&params(2), -1, &offsets), None);
    assert!(!init_state(&params(2), -1, &offsets, false).unwrap().in_progress());
    assert_eq!(
        fault(&params(2), 1_000_000_000_000_001, &offsets),
        Some(SetupError::DurationOutOfRange)
    );
    assert_eq!(fault(&params(2), 1_000_000_000_000_000, &offsets), None);

    assert_eq!(fault(&params(2), 45_000_000, &vec![0, -1]), Some(SetupError::OffsetOutOfRange));
    assert_eq!(
        fault(&params(2), 45_000_000, &vec![1_000_000_000_000_001, 0]),
        Some(SetupError::OffsetOutOfRange)
    );

    let mut p = params(2);
    p.config.nightfall = vec![1_000_000, 0];
    assert_eq!(fault(&p, 45_000_000, &offsets), Some(SetupError::PeriodOutOfRange));
    p.config.nightfall = vec![1_000_000_000_000_001];
    assert_eq!(fault(&p, 45_000_000, &offsets), Some(SetupError::PeriodOutOfRange));
    p.config.nightfall = vec![1];
    assert_eq!(fault(&p, 45_000_000, &offsets), None);

    let mut p = params(2);
    p.config.dragonling = Timer::In(i64::MAX);
    assert_eq!(fault(&p, 45_000_000, &offsets), None);
}

#[test]
fn the_listed_mages_are_raised_by_a_step() {
    let mut values = vec![10, 20, u64::MAX - 1, 40];
    raise_listed(&mut values, &vec![2, 0, 7, 0], 15);
    assert_eq!(values, vec![25, 20, u64::MAX, 40]);
    raise_listed(&mut values, &vec![], 15);
    assert_eq!(values, vec![25, 20, u64::MAX, 40]);
}
