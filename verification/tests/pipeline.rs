use mage_sim::constants::{Constants, Spell, TalentPoints};
use mage_sim::mechanics::Rolls;
use mage_sim::state::State;
use mage_sim::units::Timer;
use rand::{Rng, RngCore, SeedableRng};
use rand_chacha::ChaCha8Rng;

fn fraction(roll: u64) -> f64 {
    (roll >> 11) as f64 / (1u64 << 53) as f64
}

fn points(billionths: u64) -> f64 {
    billionths as f64 / 1e9
}

fn share(millionths: u64) -> f64 {
    millionths as f64 / 1e6
}

fn close(got: u64, want: f64) -> bool {
    (points(got) - want).abs() <= 1e-6 + 1e-9 * want.abs()
}

struct Scene {
    st: State,
    rolls: Rolls,
    spell: Spell,
}

fn scene(rng: &mut ChaCha8Rng) -> Scene {
    let spells = [Spell::Scorch, Spell::Pyroblast, Spell::Fireball, Spell::FireBlast, Spell::Frostbolt];
    let spell = spells[rng.gen_range(0..5)];
    let mut st = State::new(600_000_000, 2);
    st.global.running_time = 100_000_000;
    st.meta.coe = if rng.gen_bool(0.5) { 1_100_000 } else { 1_000_000 };
    st.meta.vulnerability = if rng.gen_bool(0.3) { 2_900_000 } else { 1_000_000 };
    st.meta.no_debuff_limit = rng.gen_bool(0.5);
    let maybe = |rng: &mut ChaCha8Rng| if rng.gen_bool(0.5) { vec![1] } else { vec![0] };
    st.meta.dmf_slots = maybe(rng);
    st.meta.sr_slots = maybe(rng);
    st.meta.ts_slots = maybe(rng);
    st.meta.cleaner_slots = maybe(rng);
    st.meta.target_slots = maybe(rng);
    let running = |rng: &mut ChaCha8Rng| if rng.gen_bool(0.5) { Timer::In(rng.gen_range(1..9_000_000)) } else { Timer::In(-rng.gen_range(0..9_000_000)) };
    st.boss.scorch_timer = running(rng);
    st.boss.scorch_count = rng.gen_range(0..=5);
    st.boss.ignite_timer = running(rng);
    st.boss.ignite_count = rng.gen_range(0..=5);
    st.boss.ignite_value = rng.gen_range(0..900_000_000_000);
    st.boss.ignite_multiplier = rng.gen_range(1_000_000..3_000_000);
    st.boss.tick_timer = if st.boss.ignite_timer.is_active() { Timer::In(rng.gen_range(0..2_000_000)) } else { Timer::Never };
    st.boss.spell_vulnerability = running(rng);
    st.boss.dragonling_start = if rng.gen_bool(0.5) { Timer::In(rng.gen_range(40_000_000..120_000_000)) } else { Timer::Never };
    let l = &mut st.lanes[1];
    l.spell_type[2] = spell;
    l.spell_timer[2] = Timer::In(0);
    l.spell_power = rng.gen_range(0..1_500_000_000_000);
    l.hit_chance = 990_000;
    l.crit_chance = rng.gen_range(0..600_000);
    l.comb_left = rng.gen_range(0..=3);
    l.comb_stack = rng.gen_range(0..=5);
    l.comb_cooldown = Timer::Never;
    l.damage = rng.gen_range(0..10_000_000_000_000);
    for b in 0..3 {
        l.buff_timer[b] = running(rng);
        l.buff_ticks[b] = rng.gen_range(0..15);
    }
    l.pi_timer[rng.gen_range(0..4)] = running(rng);
    st.totals.total_damage = rng.gen_range(0..50_000_000_000_000);
    st.totals.player_damage = rng.gen_range(0..50_000_000_000_000);
    let rolls = Rolls {
        hit: rng.next_u64(),
        base: rng.next_u64(),
        resist: rng.next_u64(),
        crit: rng.next_u64(),
        debuff: rng.next_u64(),
        nightfall: rng.next_u64(),
    };
    Scene { st, rolls, spell }
}

/// What an impact should come to, worked out in floating point from the
/// rules of the game.
struct Outcome {
    total: f64,
    own: f64,
    player: f64,
    ignite_value: f64,
    ignite_count: u8,
    scorch_count: u8,
    comb_left: u8,
    burn: Option<f64>,
}

fn worked_out(scene: &Scene, k: &Constants) -> Outcome {
    let st = &scene.st;
    let l = &st.lanes[1];
    let sp = scene.spell.index();
    let rolls = &scene.rolls;
    let has = |list: &Vec<usize>| list.contains(&1);
    let (dmf, sr, ts, cleaner) =
        (has(&st.meta.dmf_slots), has(&st.meta.sr_slots), has(&st.meta.ts_slots), has(&st.meta.cleaner_slots));
    let target = st.meta.target_slots.len() == 2 || has(&st.meta.target_slots);
    let pi = l.pi_timer.iter().any(|t| t.is_active());
    let mut out = Outcome {
        total: points(st.totals.total_damage),
        own: points(l.damage),
        player: points(st.totals.player_damage),
        ignite_value: points(st.boss.ignite_value),
        ignite_count: st.boss.ignite_count,
        scorch_count: st.boss.scorch_count,
        comb_left: l.comb_left,
        burn: None,
    };
    if fraction(rolls.hit) >= 0.99 {
        return out;
    }
    let dragonling = match st.boss.dragonling_start {
        Timer::In(start) => 100_000_000 >= start && 100_000_000 < start + 60_000_000,
        Timer::Never => false,
    };
    let mut bonus = if dragonling { 300.0 } else { 0.0 };
    let worth = [130.0, 175.0, 204.0];
    let fade = [0.0, 0.0, -17.0];
    for b in 0..3 {
        if l.buff_timer[b].is_active() {
            bonus += worth[b] + l.buff_ticks[b] as f64 * fade[b];
        }
    }
    let power = (points(l.spell_power) + bonus).max(0.0);
    let mut damage = points(k.spell_base[sp]) + fraction(rolls.base) * points(k.spell_range[sp]) + points(k.sp_multiplier[sp]) * power;
    if k.is_fire[sp] {
        let r = fraction(rolls.resist);
        damage *= if r < 0.8303 { 1.0 } else if r < 0.9415 { 0.75 } else if r < 0.9905 { 0.5 } else { 0.25 };
    }
    damage *= share(st.meta.coe) * share(k.damage_multiplier[sp]);
    if k.is_fire[sp] && st.boss.scorch_timer.is_active() {
        damage *= 1.0 + 0.03 * st.boss.scorch_count as f64;
    }
    let carried = |mut x: f64| {
        if pi { x *= 1.2; }
        x
    };
    damage = carried(damage);
    if st.boss.spell_vulnerability.is_active() {
        damage *= 1.15;
    }
    if dmf { damage *= 1.1; }
    if sr { damage *= 1.1; }
    if ts { damage *= 1.05; }
    damage *= share(st.meta.vulnerability);
    if cleaner { damage *= 1.02; }

    let combustion = if k.is_fire[sp] && l.comb_left > 0 { 0.1 * l.comb_stack as f64 } else { 0.0 };
    let chance = (share(l.crit_chance) + combustion + share(k.incin_bonus[sp])).clamp(0.0, 1.0);
    let crit = fraction(rolls.crit) < chance;
    if crit && k.is_fire[sp] {
        if !st.boss.ignite_timer.is_active() {
            out.ignite_count = 0;
            out.ignite_value = 0.0;
        }
        if out.ignite_count < 5 {
            let mut add = 1.5 * share(k.ignite_damage) * damage;
            if cleaner { add *= 1.02; }
            out.ignite_value += add;
            out.ignite_count += 1;
        }
        let mut whole = 1.5 * damage;
        if cleaner { whole *= 1.02; }
        out.total += whole;
        out.own += whole;
        if out.comb_left > 0 { out.comb_left -= 1; }
    } else {
        out.total += damage;
        out.own += damage;
        if crit {
            let extra = share(k.crit_damage) * damage;
            out.total += extra;
            if target { out.player += extra; }
        }
    }
    if !st.boss.scorch_timer.is_active() {
        out.scorch_count = 0;
    }
    if k.is_scorch[sp] && fraction(rolls.debuff) < 0.99 {
        out.scorch_count = (out.scorch_count + 1).min(5);
    }
    if st.meta.no_debuff_limit && k.is_pyro[sp] {
        let mut tick = points(k.spell_base[5]) + points(k.sp_multiplier[5]) * power;
        tick *= share(k.damage_multiplier[5]);
        if pi { tick *= 1.2; }
        if dmf { tick *= 1.1; }
        if sr { tick *= 1.1; }
        if ts { tick *= 1.05; }
        if cleaner { tick *= 1.02; }
        out.burn = Some(tick / 4.0);
    }
    out
}

#[test]
fn impacts_come_to_what_the_rules_work_out_to() {
    let k = Constants::new(&TalentPoints::new());
    let mut rng = ChaCha8Rng::seed_from_u64(77);
    let mut crits = 0;
    let mut misses = 0;
    for _ in 0..20_000 {
        let scene = scene(&mut rng);
        let want = worked_out(&scene, &k);
        let mut st = scene.st.clone();
        st.land_spell_rolled(&k, &scene.rolls);
        assert!(close(st.totals.total_damage, want.total));
        assert!(close(st.lanes[1].damage, want.own));
        assert!(close(st.totals.player_damage, want.player));
        assert!(close(st.boss.ignite_value, want.ignite_value));
        assert_eq!(st.boss.ignite_count, want.ignite_count);
        assert_eq!(st.boss.scorch_count, want.scorch_count);
        assert_eq!(st.lanes[1].comb_left, want.comb_left);
        match want.burn {
            Some(tick) => {
                assert!(close(st.lanes[1].pyro_value, tick));
                assert_eq!(st.lanes[1].pyro_count, 4);
                assert_eq!(st.lanes[1].pyro_timer, Timer::In(3_000_000));
            }
            None => assert_eq!(st.lanes[1].pyro_timer, Timer::Never),
        }
        assert_eq!(st.lanes[1].spell_timer[2], Timer::Never);
        assert_eq!(st.lanes[0].damage, 0);
        assert!(st.totals.total_damage >= scene.st.totals.total_damage);
        assert!(st.lanes[1].damage >= scene.st.lanes[1].damage);
        if st.boss.ignite_count != scene.st.boss.ignite_count || st.boss.ignite_timer == Timer::In(4_000_001) {
            crits += 1;
        }
        if st.totals.total_damage == scene.st.totals.total_damage {
            misses += 1;
        }
    }
    assert!(crits > 2_000);
    assert!(misses > 100 && misses < 400);
}
