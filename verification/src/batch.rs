//! Gathering the results of many trials: sums and means, extremes, a
//! histogram of the damage per second, and the ninetieth percentile of each
//! mage.

use std::collections::HashMap;
use vstd::prelude::*;
use vstd::relations::{sorted_by, total_ordering};
use vstd::seq_lib::{lemma_sorted_unique, to_multiset_build, to_multiset_insert};
use crate::orchestration::{PlayerResult, SimulationResult};
use crate::units::{accrue, accrued, clamp_amount};

verus! {

/// What a batch of trials came to.  Rates are in billionths per second.
#[derive(Debug)]
pub struct SimulationsResult {
    pub iterations: i32,
    pub dps: u64,
    pub min_dps: u64,
    pub max_dps: u64,
    pub ignite_dps: u64,
    pub players: Vec<PlayerResult>,
    /// Trials by their damage per second in whole points, in bins of
    /// fifty, each bin under its lower end.
    pub histogram: HashMap<u32, u32>,
    pub damage_log: Vec<u64>,
    pub dps_sp: u64,
    pub dps_crit: u64,
    pub dps_hit: u64,
    pub dps_select: u64,
    pub dps90_sp: u64,
    pub dps90_crit: u64,
    pub dps90_hit: u64,
    pub dps90_select: u64,
}

/// Width of a histogram bin, in billionths per second.
pub const BIN_SIZE: u64 = 50_000_000_000;

/// The lower end of the bin a rate falls in, in whole points per second.
pub open spec fn spec_bin_of(dps: u64) -> u32 {
    if dps / BIN_SIZE * 50 > u32::MAX {
        u32::MAX
    } else {
        (dps / BIN_SIZE * 50) as u32
    }
}

#[verifier::when_used_as_spec(spec_bin_of)]
pub fn bin_of(dps: u64) -> (r: u32)
    ensures
        r == spec_bin_of(dps),
{
    let low: u64 = dps / BIN_SIZE * 50;
    if low > u32::MAX as u64 {
        u32::MAX
    } else {
        low as u32
    }
}

/// The order of rates.
pub open spec fn at_most() -> spec_fn(u64, u64) -> bool {
    |a: u64, b: u64| a <= b
}

/// The values in ascending order.
pub open spec fn ascending(values: Seq<u64>) -> Seq<u64> {
    values.sort_by(at_most())
}

proof fn lemma_at_most_orders()
    ensures
        total_ordering(at_most()),
{
    let leq = at_most();
    assert(vstd::relations::reflexive(leq));
    assert(vstd::relations::antisymmetric(leq));
    assert(vstd::relations::transitive(leq));
    assert(vstd::relations::strongly_connected(leq));
}

/// Sorts values in ascending order.
pub fn sorted(values: &Vec<u64>) -> (r: Vec<u64>)
    ensures
        r@ == ascending(values@),
{
    let mut r: Vec<u64> = Vec::new();
    let mut i: usize = 0;
    proof {
        assert(values@.take(0) =~= Seq::<u64>::empty());
    }
    while i < values.len()
        invariant
            i <= values@.len(),
            r@.len() == i,
            r@.to_multiset() == values@.take(i as int).to_multiset(),
            sorted_by(r@, at_most()),
        decreases values@.len() - i,
    {
        let v = values[i];
        let mut p: usize = 0;
        while p < r.len() && r[p] <= v
            invariant
                p <= r@.len(),
                forall|j: int| 0 <= j < p ==> r@[j] <= v,
            decreases r@.len() - p,
        {
            p += 1;
        }
        let ghost before = r@;
        r.insert(p, v);
        proof {
            to_multiset_insert(before, p as int, v);
            to_multiset_build(values@.take(i as int), v);
            assert(values@.take(i as int + 1) =~= values@.take(i as int).push(v));
            assert forall|a: int, b: int| 0 <= a < b < r@.len() implies at_most()(r@[a], r@[b]) by {
                if a < p && b > p {
                    assert(at_most()(before[a], before[b - 1]));
                } else if a < p && b < p {
                    assert(at_most()(before[a], before[b]));
                } else if a > p {
                    assert(at_most()(before[a - 1], before[b - 1]));
                } else if a == p {
                    assert(at_most()(before[p as int], before[b - 1]));
                }
            }
        }
        i += 1;
    }
    proof {
        assert(values@.take(values@.len() as int) =~= values@);
        lemma_at_most_orders();
        values@.lemma_sort_by_ensures(at_most());
        lemma_sorted_unique(r@, ascending(values@), at_most());
    }
    r
}

/// Where the ninetieth percentile stands among `n` values in ascending
/// order.
pub open spec fn spec_ninetieth_index(n: int) -> int {
    if (9 * n + 9) / 10 - 1 > n - 1 {
        n - 1
    } else {
        (9 * n + 9) / 10 - 1
    }
}

fn ninetieth_index(n: usize) -> (r: usize)
    requires
        n >= 1,
    ensures
        r == spec_ninetieth_index(n as int),
        r < n,
{
    let up: u128 = (9 * (n as u128) + 9) / 10;
    let at: u128 = up - 1;
    if at > (n as u128) - 1 {
        n - 1
    } else {
        at as usize
    }
}

/// The count of a bin after one more trial fell in it.
pub open spec fn counted(histogram: Map<u32, u32>, bin: u32) -> Map<u32, u32> {
    let so_far: u32 = if histogram.contains_key(bin) { histogram[bin] } else { 0 };
    histogram.insert(bin, if so_far < u32::MAX { (so_far + 1) as u32 } else { so_far })
}

/// A player's record with a rate of its own.
pub open spec fn rated(p: PlayerResult, dps: u64) -> PlayerResult {
    PlayerResult { dps, ..p }
}

impl SimulationsResult {
    /// The results of a batch before its first trial.
    pub fn new(iterations: i32) -> (r: SimulationsResult)
        ensures
            r.iterations == iterations,
            r.dps == 0 && r.min_dps == 0 && r.max_dps == 0 && r.ignite_dps == 0,
            r.players@.len() == 0,
            r.histogram@ == Map::<u32, u32>::empty(),
            r.damage_log@.len() == 0,
            r.dps_sp == 0 && r.dps_crit == 0 && r.dps_hit == 0 && r.dps_select == 0,
            r.dps90_sp == 0 && r.dps90_crit == 0 && r.dps90_hit == 0 && r.dps90_select == 0,
    {
        SimulationsResult {
            iterations,
            dps: 0,
            min_dps: 0,
            max_dps: 0,
            ignite_dps: 0,
            players: Vec::new(),
            histogram: HashMap::new(),
            damage_log: Vec::new(),
            dps_sp: 0,
            dps_crit: 0,
            dps_hit: 0,
            dps_select: 0,
            dps90_sp: 0,
            dps90_crit: 0,
            dps90_hit: 0,
            dps90_select: 0,
        }
    }

    /// Whether `self` is `before` with one more trial gathered in.  Rates
    /// add up; the extremes follow; the trial's bin counts one more; the
    /// first trial of a batch hands over its players and its damage series,
    /// every later one adds its rates to theirs.
    pub open spec fn gathered(&self, before: &SimulationsResult, trial: &SimulationResult, first: bool) -> bool {
        &&& self.iterations == before.iterations
        &&& self.dps == accrued(before.dps, trial.dps)
        &&& self.ignite_dps == accrued(before.ignite_dps, trial.ignite_dps)
        &&& self.min_dps == (if first || trial.dps < before.min_dps {
            trial.dps
        } else {
            before.min_dps
        })
        &&& self.max_dps == (if first || trial.dps > before.max_dps {
            trial.dps
        } else {
            before.max_dps
        })
        &&& self.histogram@ == counted(before.histogram@, spec_bin_of(trial.dps))
        &&& self.players@.len() == (if first {
            trial.players@.len()
        } else {
            before.players@.len()
        })
        &&& forall|j: int|
            0 <= j < self.players@.len() ==> #[trigger] self.players@[j] == (if first {
                trial.players@[j]
            } else if j < trial.players@.len() {
                rated(before.players@[j], accrued(before.players@[j].dps, trial.players@[j].dps))
            } else {
                before.players@[j]
            })
        &&& self.damage_log@.len() == (if first {
            trial.damage_log@.len()
        } else {
            before.damage_log@.len()
        })
        &&& forall|i: int|
            0 <= i < self.damage_log@.len() ==> #[trigger] self.damage_log@[i] == (if first {
                trial.damage_log@[i]
            } else if i < trial.damage_log@.len() {
                accrued(before.damage_log@[i], trial.damage_log@[i])
            } else {
                before.damage_log@[i]
            })
        &&& self.dps_sp == before.dps_sp && self.dps_crit == before.dps_crit && self.dps_hit
            == before.dps_hit && self.dps_select == before.dps_select
        &&& self.dps90_sp == before.dps90_sp && self.dps90_crit == before.dps90_crit
            && self.dps90_hit == before.dps90_hit && self.dps90_select == before.dps90_select
    }

    /// Gathers one more trial in.
    pub fn gather(&mut self, trial: &SimulationResult, first: bool)
        requires
            !first ==> old(self).players@.len() >= trial.players@.len(),
        ensures
            final(self).gathered(old(self), trial, first),
    {
        broadcast use vstd::std_specs::hash::group_hash_axioms;

        let ghost before = *self;
        self.dps = accrue(self.dps, trial.dps);
        self.ignite_dps = accrue(self.ignite_dps, trial.ignite_dps);
        if first || trial.dps < self.min_dps {
            self.min_dps = trial.dps;
        }
        if first || trial.dps > self.max_dps {
            self.max_dps = trial.dps;
        }
        let bin = bin_of(trial.dps);
        let so_far: u32 = match self.histogram.get(&bin) {
            Some(n) => *n,
            None => 0,
        };
        self.histogram.insert(bin, if so_far < u32::MAX { so_far + 1 } else { so_far });
        if first {
            let mut players: Vec<PlayerResult> = Vec::new();
            let mut j: usize = 0;
            while j < trial.players.len()
                invariant
                    j <= trial.players@.len(),
                    players@.len() == j,
                    forall|x: int| 0 <= x < j ==> #[trigger] players@[x] == trial.players@[x],
                decreases trial.players@.len() - j,
            {
                let p = &trial.players[j];
                players.push(
                    PlayerResult { dmg: p.dmg, dps: p.dps, ninetieth: p.ninetieth, name: p.name.clone() },
                );
                j += 1;
            }
            self.players = players;
            let mut series: Vec<u64> = Vec::new();
            let mut i: usize = 0;
            while i < trial.damage_log.len()
                invariant
                    i <= trial.damage_log@.len(),
                    series@.len() == i,
                    forall|x: int| 0 <= x < i ==> #[trigger] series@[x] == trial.damage_log@[x],
                decreases trial.damage_log@.len() - i,
            {
                series.push(trial.damage_log[i]);
                i += 1;
            }
            self.damage_log = series;
        } else {
            let mut j: usize = 0;
            let ghost stable = *self;
            while j < trial.players.len()
                invariant
                    j <= trial.players@.len(),
                    before.players@.len() >= trial.players@.len(),
                    self.players@.len() == before.players@.len(),
                    forall|x: int|
                        0 <= x < j ==> #[trigger] self.players@[x] == rated(
                            before.players@[x],
                            accrued(before.players@[x].dps, trial.players@[x].dps),
                        ),
                    forall|x: int|
                        j <= x < self.players@.len() ==> #[trigger] self.players@[x] == before.players@[x],
                    *self == (SimulationsResult { players: self.players, ..stable }),
                decreases trial.players@.len() - j,
            {
                let sum = accrue(self.players[j].dps, trial.players[j].dps);
                self.players[j].dps = sum;
                j += 1;
            }
            let mut i: usize = 0;
            let ghost stable = *self;
            while i < self.damage_log.len() && i < trial.damage_log.len()
                invariant
                    i <= self.damage_log@.len(),
                    i <= trial.damage_log@.len(),
                    self.damage_log@.len() == before.damage_log@.len(),
                    forall|x: int|
                        0 <= x < i ==> #[trigger] self.damage_log@[x] == accrued(
                            before.damage_log@[x],
                            trial.damage_log@[x],
                        ),
                    forall|x: int|
                        i <= x < self.damage_log@.len() ==> #[trigger] self.damage_log@[x]
                            == before.damage_log@[x],
                    *self == (SimulationsResult { damage_log: self.damage_log, ..stable }),
                decreases self.damage_log@.len() - i,
            {
                let sum = accrue(self.damage_log[i], trial.damage_log[i]);
                self.damage_log[i] = sum;
                i += 1;
            }
        }
    }

    /// Whether `self` is `before` with the batch settled: each of the
    /// first `mages` players has the ninetieth percentile of that mage's
    /// rates, and every sum has become a mean over the trials.
    pub open spec fn settled(&self, before: &SimulationsResult, rates: Seq<Vec<u64>>, mages: int) -> bool {
        let n = before.iterations as int;
        &&& self.iterations == before.iterations
        &&& self.dps == before.dps / (n as u64)
        &&& self.ignite_dps == before.ignite_dps / (n as u64)
        &&& self.min_dps == before.min_dps
        &&& self.max_dps == before.max_dps
        &&& self.histogram@ == before.histogram@
        &&& self.players@.len() == before.players@.len()
        &&& forall|j: int|
            0 <= j < self.players@.len() ==> #[trigger] self.players@[j] == (PlayerResult {
                dps: before.players@[j].dps / (n as u64),
                ninetieth: if j < mages {
                    ascending(rates[j]@)[spec_ninetieth_index(n)]
                } else {
                    before.players@[j].ninetieth
                },
                ..before.players@[j]
            })
        &&& self.damage_log@.len() == before.damage_log@.len()
        &&& forall|i: int|
            0 <= i < self.damage_log@.len() ==> #[trigger] self.damage_log@[i]
                == before.damage_log@[i] / (n as u64)
        &&& self.dps_sp == before.dps_sp && self.dps_crit == before.dps_crit && self.dps_hit
            == before.dps_hit && self.dps_select == before.dps_select
        &&& self.dps90_sp == before.dps90_sp && self.dps90_crit == before.dps90_crit
            && self.dps90_hit == before.dps90_hit && self.dps90_select == before.dps90_select
    }

    /// Settles a batch of at least one trial, given the rates of each mage
    /// trial by trial.
    pub fn settle(&mut self, rates: &Vec<Vec<u64>>)
        requires
            old(self).iterations >= 1,
            old(self).players@.len() >= rates@.len(),
            forall|j: int| 0 <= j < rates@.len() ==> (#[trigger] rates@[j])@.len() == old(self).iterations,
        ensures
            final(self).settled(old(self), rates@, rates@.len() as int),
    {
        let ghost before = *self;
        let n: u64 = self.iterations as u64;
        let at = ninetieth_index(self.iterations as usize);
        let mut j: usize = 0;
        let ghost stable = *self;
        while j < self.players.len()
            invariant
                j <= self.players@.len(),
                n == before.iterations,
                n >= 1,
                at == spec_ninetieth_index(before.iterations as int),
                at < before.iterations,
                before.players@.len() >= rates@.len(),
                forall|x: int| 0 <= x < rates@.len() ==> (#[trigger] rates@[x])@.len() == before.iterations,
                self.players@.len() == before.players@.len(),
                forall|x: int|
                    0 <= x < j ==> #[trigger] self.players@[x] == (PlayerResult {
                        dps: before.players@[x].dps / n,
                        ninetieth: if x < rates@.len() {
                            ascending(rates@[x]@)[at as int]
                        } else {
                            before.players@[x].ninetieth
                        },
                        ..before.players@[x]
                    }),
                forall|x: int|
                    j <= x < self.players@.len() ==> #[trigger] self.players@[x] == before.players@[x],
                *self == (SimulationsResult { players: self.players, ..stable }),
            decreases self.players@.len() - j,
        {
            if j < rates.len() {
                let order = sorted(&rates[j]);
                proof {
                    lemma_at_most_orders();
                    rates@[j as int]@.lemma_sort_by_ensures(at_most());
                    vstd::seq_lib::to_multiset_len(rates@[j as int]@);
                    vstd::seq_lib::to_multiset_len(order@);
                }
                self.players[j].ninetieth = order[at];
            }
            let mean = self.players[j].dps / n;
            self.players[j].dps = mean;
            j += 1;
        }
        self.dps = self.dps / n;
        self.ignite_dps = self.ignite_dps / n;
        let mut i: usize = 0;
        let ghost stable = *self;
        while i < self.damage_log.len()
            invariant
                i <= self.damage_log@.len(),
                n == before.iterations,
                n >= 1,
                self.damage_log@.len() == before.damage_log@.len(),
                forall|x: int| 0 <= x < i ==> #[trigger] self.damage_log@[x] == before.damage_log@[x] / n,
                forall|x: int|
                    i <= x < self.damage_log@.len() ==> #[trigger] self.damage_log@[x]
                        == before.damage_log@[x],
                *self == (SimulationsResult { damage_log: self.damage_log, ..stable }),
            decreases self.damage_log@.len() - i,
        {
            let mean = self.damage_log[i] / n;
            self.damage_log[i] = mean;
            i += 1;
        }
    }
}

/// The rate of a player, or the player's ninetieth percentile.
pub open spec fn figure(p: PlayerResult, percentile: bool) -> u64 {
    if percentile {
        p.ninetieth
    } else {
        p.dps
    }
}

/// The share of one mage under study in a figure of the whole batch: the
/// mage's figure times the number of trials, by the number of mages under
/// study.
pub open spec fn share_of(figure: u64, iterations: i32, targets: int) -> u64 {
    clamp_amount(figure as int * iterations as int / targets)
}

/// The shares of the first `n` mages under study together, saturated.
pub open spec fn weighed(
    players: Seq<PlayerResult>,
    targets: Seq<usize>,
    iterations: i32,
    percentile: bool,
    n: int,
) -> u64
    decreases n,
{
    if n <= 0 {
        0
    } else {
        accrued(
            weighed(players, targets, iterations, percentile, n - 1),
            share_of(
                figure(players[targets[n - 1] as int], percentile),
                iterations,
                targets.len() as int,
            ),
        )
    }
}

fn weigh_one(players: &Vec<PlayerResult>, targets: &Vec<usize>, iterations: i32, percentile: bool) -> (r: u64)
    requires
        iterations >= 0,
        targets@.len() > 0,
        forall|i: int| 0 <= i < targets@.len() ==> #[trigger] targets@[i] < players@.len(),
    ensures
        r == weighed(players@, targets@, iterations, percentile, targets@.len() as int),
{
    let mut sum: u64 = 0;
    let mut i: usize = 0;
    while i < targets.len()
        invariant
            i <= targets@.len(),
            iterations >= 0,
            targets@.len() > 0,
            forall|x: int| 0 <= x < targets@.len() ==> #[trigger] targets@[x] < players@.len(),
            sum == weighed(players@, targets@, iterations, percentile, i as int),
        decreases targets@.len() - i,
    {
        let p = &players[targets[i]];
        let x: u64 = if percentile { p.ninetieth } else { p.dps };
        assert(x as int * iterations as int <= u64::MAX as int * i32::MAX as int) by (nonlinear_arith)
            requires
                0 <= x as int <= u64::MAX as int,
                0 <= iterations as int <= i32::MAX as int,
        ;
        assert(0 <= x as int * iterations as int) by (nonlinear_arith)
            requires
                0 <= x as int,
                0 <= iterations as int,
        ;
        let wide: u128 = (x as u128) * (iterations as u128) / (targets.len() as u128);
        let part: u64 = if wide > u64::MAX as u128 { u64::MAX } else { wide as u64 };
        sum = accrue(sum, part);
        i += 1;
    }
    sum
}

impl SimulationsResult {
    /// Works out what the mages under study gain from more spell power,
    /// crit or hit: the figures of the batch as it is and of the batches
    /// run with one stat raised, each summed over the mages under study.
    pub fn weigh(
        &mut self,
        with_sp: &SimulationsResult,
        with_crit: &SimulationsResult,
        with_hit: &SimulationsResult,
        targets: &Vec<usize>,
    )
        requires
            old(self).iterations >= 0,
            targets@.len() > 0,
            forall|i: int|
                0 <= i < targets@.len() ==> {
                    &&& #[trigger] targets@[i] < old(self).players@.len()
                    &&& targets@[i] < with_sp.players@.len()
                    &&& targets@[i] < with_crit.players@.len()
                    &&& targets@[i] < with_hit.players@.len()
                },
        ensures
            *final(self) == (SimulationsResult {
                dps_select: weighed(old(self).players@, targets@, old(self).iterations, false, targets@.len() as int),
                dps_sp: weighed(with_sp.players@, targets@, old(self).iterations, false, targets@.len() as int),
                dps_crit: weighed(with_crit.players@, targets@, old(self).iterations, false, targets@.len() as int),
                dps_hit: weighed(with_hit.players@, targets@, old(self).iterations, false, targets@.len() as int),
                dps90_select: weighed(old(self).players@, targets@, old(self).iterations, true, targets@.len() as int),
                dps90_sp: weighed(with_sp.players@, targets@, old(self).iterations, true, targets@.len() as int),
                dps90_crit: weighed(with_crit.players@, targets@, old(self).iterations, true, targets@.len() as int),
                dps90_hit: weighed(with_hit.players@, targets@, old(self).iterations, true, targets@.len() as int),
                ..*old(self)
            }),
    {
        let n = self.iterations;
        self.dps_select = weigh_one(&self.players, targets, n, false);
        self.dps_sp = weigh_one(&with_sp.players, targets, n, false);
        self.dps_crit = weigh_one(&with_crit.players, targets, n, false);
        self.dps_hit = weigh_one(&with_hit.players, targets, n, false);
        self.dps90_select = weigh_one(&self.players, targets, n, true);
        self.dps90_sp = weigh_one(&with_sp.players, targets, n, true);
        self.dps90_crit = weigh_one(&with_crit.players, targets, n, true);
        self.dps90_hit = weigh_one(&with_hit.players, targets, n, true);
    }
}

} // verus!
