//! The configuration of a check: when and where it runs.

use super::shared::{RegionScheduleMode, RequestMethod};
use crate::config_store::Tick;
use crate::ids;
use crate::text;
use vstd::prelude::*;

verus! {

/// Valid intervals between the runs of a check.
#[derive(Clone, Copy, Debug, PartialEq, Eq, Structural)]
pub enum CheckInterval {
    OneMinute,
    FiveMinutes,
    TenMinutes,
    TwentyMinutes,
    ThirtyMinutes,
    SixtyMinutes,
}

/// The largest check interval.
pub const MAX_CHECK_INTERVAL_SECS: usize = 3600;

/// The namespace in which a subscription is given its seed.
pub const SUBSCRIPTION_ID_NAMESPACE: u128 = 31415926535897932384626433832795;

impl CheckInterval {
    /// The interval in seconds.
    pub open spec fn seconds(self) -> int {
        match self {
            CheckInterval::OneMinute => 60,
            CheckInterval::FiveMinutes => 300,
            CheckInterval::TenMinutes => 600,
            CheckInterval::TwentyMinutes => 1200,
            CheckInterval::ThirtyMinutes => 1800,
            CheckInterval::SixtyMinutes => 3600,
        }
    }

    /// The interval in seconds.
    pub fn secs(&self) -> (r: usize)
        ensures
            r == self.seconds(),
            60 <= r <= 3600,
    {
        match self {
            CheckInterval::OneMinute => 60,
            CheckInterval::FiveMinutes => 300,
            CheckInterval::TenMinutes => 600,
            CheckInterval::TwentyMinutes => 1200,
            CheckInterval::ThirtyMinutes => 1800,
            CheckInterval::SixtyMinutes => 3600,
        }
    }

    /// The interval of that many seconds, if it is a valid one.
    pub fn from_secs(secs: u64) -> (r: Option<CheckInterval>)
        ensures
            r matches Some(i) ==> i.seconds() == secs,
            r is None ==> forall|i: CheckInterval| #[trigger] i.seconds() != secs,
    {
        if secs == 60 {
            Some(CheckInterval::OneMinute)
        } else if secs == 300 {
            Some(CheckInterval::FiveMinutes)
        } else if secs == 600 {
            Some(CheckInterval::TenMinutes)
        } else if secs == 1200 {
            Some(CheckInterval::TwentyMinutes)
        } else if secs == 1800 {
            Some(CheckInterval::ThirtyMinutes)
        } else if secs == 3600 {
            Some(CheckInterval::SixtyMinutes)
        } else {
            None
        }
    }
}

/// The configuration of a single check.
#[derive(Debug, PartialEq, Eq)]
pub struct CheckConfig {
    /// The subscription that the check belongs to.
    pub subscription_id: u128,
    /// The interval between two runs.
    pub interval: CheckInterval,
    /// The time that a request may take, in milliseconds.
    pub timeout_ms: i64,
    /// The URL to check.
    pub url: String,
    /// The method of the request.
    pub request_method: RequestMethod,
    /// Further headers of the request.
    pub request_headers: Vec<(String, String)>,
    /// The body of the request.
    pub request_body: String,
    /// Whether the trace of the request may be sampled.
    pub trace_sampling: bool,
    /// The regions in which the check runs.
    pub active_regions: Option<Vec<String>>,
    /// How these regions take turns.
    pub region_schedule_mode: Option<RegionScheduleMode>,
}

/// The seconds of an hour at which a subscription's check runs.
pub open spec fn slots_of(subscription_id: u128, interval: CheckInterval) -> Seq<usize> {
    Seq::new(
        (3600int / interval.seconds()) as nat,
        |c: int| (subscription_id as int % interval.seconds() + interval.seconds() * c) as usize,
    )
}

/// A second of the hour is one at which the check runs.
pub open spec fn runs_at(subscription_id: u128, interval: CheckInterval, slot: int) -> bool {
    0 <= slot < 3600 && slot % interval.seconds() == subscription_id as int % interval.seconds()
}

/// Which of `regions` regions has its turn in a window.
pub open spec fn turn(seed: u128, window: int, regions: nat) -> int {
    (window + seed) % regions as int
}

/// The window that a second lies in.
pub open spec fn window_of(secs: i64, interval: CheckInterval) -> int {
    if secs < 0 {
        0
    } else {
        secs as int / interval.seconds()
    }
}

/// Regions take turns only where they are configured, and how.
pub open spec fn takes_turns(config: CheckConfig) -> bool {
    config.region_schedule_mode is Some && config.active_regions is Some
        && config.active_regions->0@.len() > 0
}

/// The check runs in a region, in the window of `secs`, with this seed.
pub open spec fn runs_in(config: CheckConfig, secs: i64, region: Seq<char>, seed: u128) -> bool {
    takes_turns(config) ==> {
        let regions = config.active_regions->0@;
        regions[turn(seed, window_of(secs, config.interval), regions.len())]@ == region
    }
}

/// The seed of a subscription.
pub open spec fn seed_of(subscription_id: u128) -> u128 {
    ids::named_id(SUBSCRIPTION_ID_NAMESPACE, ids::big_endian(subscription_id as int, 16))
}

impl CheckConfig {
    /// The seconds of an hour at which the check runs, the same for each
    /// subscription every time.
    pub fn slots(&self) -> (r: Vec<usize>)
        ensures
            r@ == slots_of(self.subscription_id, self.interval),
            forall|i: int| 0 <= i < r@.len() ==> (#[trigger] r@[i]) < 3600,
    {
        let interval_secs = self.interval.secs();
        let first_slot: usize = (self.subscription_id % interval_secs as u128) as usize;
        let pattern_count: usize = MAX_CHECK_INTERVAL_SECS / interval_secs;
        let mut slots: Vec<usize> = Vec::new();
        let mut c: usize = 0;
        proof {
            assert(interval_secs * pattern_count <= 3600) by (nonlinear_arith)
                requires
                    60 <= interval_secs <= 3600,
                    pattern_count == 3600usize / interval_secs,
            ;
        }
        while c < pattern_count
            invariant
                60 <= interval_secs <= 3600,
                interval_secs == self.interval.seconds(),
                first_slot == self.subscription_id as int % self.interval.seconds(),
                interval_secs * pattern_count <= 3600,
                pattern_count == 3600usize / interval_secs,
                c <= pattern_count,
                slots@.len() == c,
                forall|i: int|
                    0 <= i < c ==> #[trigger] slots@[i] == first_slot + interval_secs * i && slots@[i]
                        < 3600,
            decreases pattern_count - c,
        {
            proof {
                assert(interval_secs * c + interval_secs <= interval_secs * pattern_count)
                    by (nonlinear_arith)
                    requires
                        c + 1 <= pattern_count,
                        0 <= interval_secs,
                ;
            }
            slots.push(first_slot + interval_secs * c);
            c = c + 1;
        }
        proof {
            assert(slots@ =~= slots_of(self.subscription_id, self.interval));
        }
        slots
    }

    /// Whether the check runs in a region in the window of `secs`, given the
    /// subscription's seed.
    pub fn should_run_seeded(&self, secs: i64, current_region: &str, seed: u128) -> (r: bool)
        requires
            takes_turns(*self) ==> -self.interval.seconds() < secs && window_of(secs, self.interval)
                + seed <= u128::MAX,
        ensures
            r == runs_in(*self, secs, current_region@, seed),
    {
        if self.region_schedule_mode.is_none() {
            return true;
        }
        match &self.active_regions {
            None => true,
            Some(active_regions) => {
                if active_regions.len() == 0 {
                    return true;
                }
                let interval: u128 = self.interval.secs() as u128;
                let window: u128 = if secs < 0 {
                    0
                } else {
                    secs as u128 / interval
                };
                let index: u128 = (window + seed) % active_regions.len() as u128;
                text::text_eq(active_regions[index as usize].as_str(), current_region)
            },
        }
    }

    /// Whether the check runs in a region at a tick.
    pub fn should_run(&self, tick: Tick, current_region: &str) -> (r: bool)
        requires
            takes_turns(*self) ==> -self.interval.seconds() < tick.time.secs,
        ensures
            r == runs_in(*self, tick.time.secs, current_region@, seed_of(self.subscription_id)),
    {
        let seed = ids::id_of_name(
            SUBSCRIPTION_ID_NAMESPACE,
            ids::to_bytes(self.subscription_id).as_slice(),
        );
        self.should_run_seeded(tick.time.secs, current_region, seed)
    }
}

/// The slots of a check are exactly the seconds of the hour that leave the same
/// rest as its subscription does, and come in order.
pub proof fn law_slots_are_spread_over_the_hour(subscription_id: u128, interval: CheckInterval)
    ensures
        forall|slot: usize|
            slots_of(subscription_id, interval).contains(slot) <==> runs_at(
                subscription_id,
                interval,
                slot as int,
            ),
        forall|i: int, j: int|
            0 <= i < j < slots_of(subscription_id, interval).len() ==> slots_of(
                subscription_id,
                interval,
            )[i] < slots_of(subscription_id, interval)[j],
{
    let slots = slots_of(subscription_id, interval);
    let n = interval.seconds();
    let first = subscription_id as int % n;
    assert(n * (3600int / n) == 3600);
    assert forall|i: int| 0 <= i < slots.len() implies #[trigger] slots[i] == first + n * i && slots[i]
        < 3600 by {
        lemma_slot_in_hour(first, n, i);
    }
    assert forall|slot: usize| slots.contains(slot) implies runs_at(
        subscription_id,
        interval,
        slot as int,
    ) by {
        let i = slots.index_of(slot);
        assert(slots[i] == slot);
        lemma_slot_rest(first, n, i);
    }
    assert forall|slot: usize| runs_at(subscription_id, interval, slot as int) implies slots.contains(
        slot,
    ) by {
        let c = slot as int / n;
        lemma_slot_place(slot as int, n);
        assert(slots[c] == slot);
    }
    assert forall|i: int, j: int| 0 <= i < j < slots.len() implies slots[i] < slots[j] by {
        assert(n * i < n * j) by (nonlinear_arith)
            requires
                0 < n,
                i < j,
        ;
    }
}

proof fn lemma_slot_in_hour(first: int, n: int, i: int)
    requires
        0 < n <= 3600,
        n * (3600int / n) == 3600,
        0 <= first < n,
        0 <= i < 3600int / n,
    ensures
        0 <= first + n * i < 3600,
{
    assert(0 <= n * i && n * i + n <= n * (3600int / n)) by (nonlinear_arith)
        requires
            0 <= i,
            i + 1 <= 3600int / n,
            0 < n,
    ;
}

proof fn lemma_slot_rest(first: int, n: int, i: int)
    requires
        0 < n,
        0 <= first < n,
        0 <= i,
    ensures
        (first + n * i) % n == first,
{
    vstd::arithmetic::div_mod::lemma_mod_multiples_vanish(i, first, n);
    vstd::arithmetic::div_mod::lemma_small_mod(first as nat, n as nat);
    assert(n * i + first == first + n * i);
}

proof fn lemma_slot_place(slot: int, n: int)
    requires
        0 < n <= 3600,
        n * (3600int / n) == 3600,
        0 <= slot < 3600,
    ensures
        0 <= slot / n < 3600int / n,
        slot == slot % n + n * (slot / n),
{
    vstd::arithmetic::div_mod::lemma_fundamental_div_mod(slot, n);
    assert(0 <= slot / n < 3600int / n) by (nonlinear_arith)
        requires
            0 < n,
            n * (3600int / n) == 3600,
            0 <= slot < 3600,
            slot == n * (slot / n) + slot % n,
            0 <= slot % n < n,
    ;
}

/// Every stretch of one interval holds exactly one second at which the check runs,
/// so that a check runs once per interval.
pub proof fn law_one_run_per_interval(
    subscription_id: u128,
    interval: CheckInterval,
    start: int,
)
    requires
        0 <= start,
    ensures
        exists|t: int|
            start <= t < start + interval.seconds() && #[trigger] runs_at(
                subscription_id,
                interval,
                t % 3600,
            ),
        forall|t: int, u: int|
            start <= t < start + interval.seconds() && start <= u < start + interval.seconds()
                && #[trigger] runs_at(subscription_id, interval, t % 3600)
                && #[trigger] runs_at(subscription_id, interval, u % 3600) ==> t == u,
{
    let n = interval.seconds();
    let rest = subscription_id as int % n;
    let shift = (rest - start) % n;
    let t = start + shift;
    lemma_hour_keeps_rest(t, interval);
    vstd::arithmetic::div_mod::lemma_add_mod_noop_right(start, rest - start, n);
    assert(t % n == rest % n);
    assert(runs_at(subscription_id, interval, t % 3600));
    assert forall|t: int, u: int|
        start <= t < start + n && start <= u < start + n && #[trigger] runs_at(
            subscription_id,
            interval,
            t % 3600,
        ) && #[trigger] runs_at(subscription_id, interval, u % 3600) implies t == u by {
        lemma_hour_keeps_rest(t, interval);
        lemma_hour_keeps_rest(u, interval);
        vstd::arithmetic::div_mod::lemma_fundamental_div_mod(t, n);
        vstd::arithmetic::div_mod::lemma_fundamental_div_mod(u, n);
        let q = t / n - u / n;
        assert(t - u == n * q) by (nonlinear_arith)
            requires
                t == n * (t / n) + t % n,
                u == n * (u / n) + u % n,
                t % n == u % n,
                q == t / n - u / n,
        ;
        assert(q == 0) by (nonlinear_arith)
            requires
                -n < n * q < n,
                0 < n,
        ;
    }
}

/// An hour is a number of whole intervals.
pub proof fn lemma_hour_keeps_rest(t: int, interval: CheckInterval)
    ensures
        (t % 3600) % interval.seconds() == t % interval.seconds(),
{
    let n = interval.seconds();
    let k = 3600int / n;
    assert(3600 == n * k && k > 0);
    vstd::arithmetic::div_mod::lemma_mod_mod(t, n, k);
}

/// The regions of a check take turns: of any run of windows as long as the list of
/// regions, each region has exactly one.
pub proof fn law_regions_take_turns(seed: u128, window: int, regions: nat, index: int)
    requires
        0 <= window,
        0 <= index < regions,
    ensures
        exists|w: int|
            window <= w < window + regions && #[trigger] turn(seed, w, regions) == index,
        forall|v: int, w: int|
            window <= v < window + regions && window <= w < window + regions && #[trigger] turn(
                seed,
                v,
                regions,
            ) == #[trigger] turn(seed, w, regions) ==> v == w,
{
    let n = regions as int;
    let base = window + seed;
    let shift = (index - base) % n;
    vstd::arithmetic::div_mod::lemma_add_mod_noop_right(base, index - base, n);
    vstd::arithmetic::div_mod::lemma_small_mod(index as nat, regions);
    assert(turn(seed, window + shift, regions) == index) by {
        assert((window + shift) + seed == base + shift);
    }
    assert forall|v: int, w: int|
        window <= v < window + regions && window <= w < window + regions && #[trigger] turn(
            seed,
            v,
            regions,
        ) == #[trigger] turn(seed, w, regions) implies v == w by {
        let x = v + seed;
        let y = w + seed;
        vstd::arithmetic::div_mod::lemma_fundamental_div_mod(x, n);
        vstd::arithmetic::div_mod::lemma_fundamental_div_mod(y, n);
        let q = x / n - y / n;
        assert(x - y == n * q) by (nonlinear_arith)
            requires
                x == n * (x / n) + x % n,
                y == n * (y / n) + y % n,
                x % n == y % n,
                q == x / n - y / n,
        ;
        assert(q == 0) by (nonlinear_arith)
            requires
                -n < n * q < n,
                0 < n,
        ;
    }
}

/// Where regions take turns and no region is listed twice, a check runs in exactly
/// one of them at any time.
pub proof fn law_one_region_at_a_time(config: CheckConfig, secs: i64, seed: u128)
    requires
        takes_turns(config),
        0 <= secs,
        forall|i: int, j: int|
            0 <= i < j < config.active_regions->0@.len() ==> config.active_regions->0@[i]@
                != config.active_regions->0@[j]@,
    ensures
        exists|i: int|
            0 <= i < config.active_regions->0@.len() && runs_in(
                config,
                secs,
                #[trigger] config.active_regions->0@[i]@,
                seed,
            ) && forall|j: int|
                0 <= j < config.active_regions->0@.len() && runs_in(
                    config,
                    secs,
                    #[trigger] config.active_regions->0@[j]@,
                    seed,
                ) ==> j == i,
{
    let regions = config.active_regions->0@;
    let i = turn(seed, window_of(secs, config.interval), regions.len());
    assert(0 <= i < regions.len());
    assert(runs_in(config, secs, regions[i]@, seed));
    assert forall|j: int| 0 <= j < regions.len() && runs_in(config, secs, #[trigger] regions[j]@, seed) implies j
        == i by {
        if j < i {
            assert(regions[j]@ != regions[i]@);
        } else if i < j {
            assert(regions[i]@ != regions[j]@);
        }
    }
}

/// No region is listed twice.
pub open spec fn regions_differ(config: CheckConfig) -> bool {
    forall|i: int, j: int|
        0 <= i < j < config.active_regions->0@.len() ==> config.active_regions->0@[i]@
            != config.active_regions->0@[j]@
}

/// A check whose regions do not take turns runs in every region, at all times.
pub proof fn law_without_turns_every_region_runs(
    config: CheckConfig,
    secs: i64,
    region: Seq<char>,
    seed: u128,
)
    requires
        config.region_schedule_mode is None || config.active_regions is None
            || config.active_regions->0@.len() == 0,
    ensures
        runs_in(config, secs, region, seed),
{
}

/// Where regions take turns, a region that is not listed never runs a check.
pub proof fn law_unlisted_regions_do_not_run(
    config: CheckConfig,
    secs: i64,
    region: Seq<char>,
    seed: u128,
)
    requires
        config.region_schedule_mode is Some,
        config.active_regions is Some,
        config.active_regions->0@.len() > 0,
        forall|i: int|
            0 <= i < config.active_regions->0@.len() ==> (#[trigger] config.active_regions->0@[i])@
                != region,
    ensures
        !runs_in(config, secs, region, seed),
{
}

/// A region that has its turn keeps it from one multiple of the interval to the next:
/// whatever runs at one second of such a stretch runs at every other. Before the epoch
/// lies a part of the first stretch.
pub proof fn law_a_turn_lasts_one_interval(
    config: CheckConfig,
    k: int,
    s: i64,
    t: i64,
    region: Seq<char>,
    seed: u128,
)
    requires
        0 <= k,
        k * config.interval.seconds() <= s < (k + 1) * config.interval.seconds() || (k == 0
            && -config.interval.seconds() < s < 0),
        k * config.interval.seconds() <= t < (k + 1) * config.interval.seconds(),
    ensures
        runs_in(config, s, region, seed) <==> runs_in(config, t, region, seed),
{
    let n = config.interval.seconds();
    lemma_window(t as int, k, n);
    if s >= 0 {
        lemma_window(s as int, k, n);
    }
}

proof fn lemma_window(t: int, k: int, n: int)
    requires
        0 < n,
        k * n <= t < (k + 1) * n,
    ensures
        t / n == k,
{
    assert(t / n == k) by (nonlinear_arith)
        requires
            0 < n,
            k * n <= t < (k + 1) * n,
    ;
}

/// One interval later it is the next region's turn, and behind the last one comes the
/// first again.
pub proof fn law_the_next_interval_is_the_next_regions(
    config: CheckConfig,
    secs: i64,
    later: i64,
    i: int,
    seed: u128,
)
    requires
        takes_turns(config),
        regions_differ(config),
        0 <= secs,
        later == secs + config.interval.seconds(),
        0 <= i < config.active_regions->0@.len(),
        runs_in(config, secs, config.active_regions->0@[i]@, seed),
    ensures
        i + 1 < config.active_regions->0@.len() ==> runs_in(
            config,
            later,
            config.active_regions->0@[i + 1]@,
            seed,
        ),
        i + 1 == config.active_regions->0@.len() ==> runs_in(
            config,
            later,
            config.active_regions->0@[0]@,
            seed,
        ),
{
    lemma_turn_after(config, secs, later, 1, i, seed);
    let n = config.active_regions->0@.len() as int;
    if i + 1 < n {
        vstd::arithmetic::div_mod::lemma_small_mod((i + 1) as nat, n as nat);
    } else {
        vstd::arithmetic::div_mod::lemma_mod_self_0(n);
    }
}

/// Some intervals later it is the turn of the region as many places further on, counted
/// round.
proof fn lemma_turn_after(
    config: CheckConfig,
    secs: i64,
    later: i64,
    steps: int,
    i: int,
    seed: u128,
)
    requires
        takes_turns(config),
        regions_differ(config),
        0 <= secs,
        0 <= steps,
        later == secs + config.interval.seconds() * steps,
        0 <= i < config.active_regions->0@.len(),
        runs_in(config, secs, config.active_regions->0@[i]@, seed),
    ensures
        ({
            let n = config.active_regions->0@.len() as int;
            &&& 0 <= (i + steps) % n < n
            &&& runs_in(config, later, config.active_regions->0@[(i + steps) % n]@, seed)
        }),
{
    let regions = config.active_regions->0@;
    let n = regions.len() as int;
    let interval = config.interval.seconds();
    let window = window_of(secs, config.interval);
    let now = turn(seed, window, regions.len());
    if now < i {
        assert(regions[now]@ != regions[i]@);
    } else if i < now {
        assert(regions[i]@ != regions[now]@);
    }
    assert(0 <= interval * steps) by (nonlinear_arith)
        requires
            0 < interval,
            0 <= steps,
    ;
    assert(later as int / interval == secs as int / interval + steps) by {
        vstd::arithmetic::div_mod::lemma_hoist_over_denominator(
            secs as int,
            steps,
            interval as nat,
        );
        assert(interval * steps == steps * interval) by (nonlinear_arith);
    }
    vstd::arithmetic::div_mod::lemma_add_mod_noop_right(steps, window + seed, n);
    assert(window_of(later, config.interval) + seed == steps + (window + seed));
}

/// Of as many runs in a row as there are regions, an interval apart, each region has
/// exactly one.
pub proof fn law_each_region_has_one_run_of_each_round(
    config: CheckConfig,
    secs: i64,
    i: int,
    seed: u128,
)
    requires
        takes_turns(config),
        regions_differ(config),
        0 <= secs,
        secs + config.interval.seconds() * config.active_regions->0@.len() <= i64::MAX,
        0 <= i < config.active_regions->0@.len(),
    ensures
        exists|k: int|
            0 <= k < config.active_regions->0@.len() && #[trigger] runs_after(
                config,
                secs,
                k,
                config.active_regions->0@[i]@,
                seed,
            ),
        forall|j: int, k: int|
            0 <= j < config.active_regions->0@.len() && 0 <= k < config.active_regions->0@.len()
                && #[trigger] runs_after(config, secs, j, config.active_regions->0@[i]@, seed)
                && #[trigger] runs_after(config, secs, k, config.active_regions->0@[i]@, seed)
                ==> j == k,
{
    let regions = config.active_regions->0@;
    let n = regions.len() as int;
    let first = turn(seed, window_of(secs, config.interval), regions.len());
    assert(runs_in(config, secs, regions[first]@, seed));
    let steps = (i - first) % n;
    vstd::arithmetic::div_mod::lemma_add_mod_noop_right(first, i - first, n);
    vstd::arithmetic::div_mod::lemma_small_mod(i as nat, n as nat);
    assert((first + steps) % n == i);
    lemma_in_reach(config.interval.seconds(), steps, n);
    let then = (secs + config.interval.seconds() * steps) as i64;
    lemma_turn_after(config, secs, then, steps, first, seed);
    assert(runs_after(config, secs, steps, regions[i]@, seed));
    assert forall|j: int, k: int|
        0 <= j < n && 0 <= k < n && #[trigger] runs_after(config, secs, j, regions[i]@, seed)
            && #[trigger] runs_after(config, secs, k, regions[i]@, seed) implies j == k by {
        lemma_which_turn(config, secs, j, i, first, seed);
        lemma_which_turn(config, secs, k, i, first, seed);
        vstd::arithmetic::div_mod::lemma_fundamental_div_mod(first + j, n);
        vstd::arithmetic::div_mod::lemma_fundamental_div_mod(first + k, n);
        let q = (first + j) / n - (first + k) / n;
        assert(j - k == n * q) by (nonlinear_arith)
            requires
                first + j == n * ((first + j) / n) + i,
                first + k == n * ((first + k) / n) + i,
                q == (first + j) / n - (first + k) / n,
        ;
        assert(q == 0) by (nonlinear_arith)
            requires
                -n < n * q < n,
                0 < n,
        ;
    }
}

/// A check runs in a region so many intervals after a second.
pub open spec fn runs_after(
    config: CheckConfig,
    secs: i64,
    intervals: int,
    region: Seq<char>,
    seed: u128,
) -> bool {
    runs_in(config, (secs + config.interval.seconds() * intervals) as i64, region, seed)
}

proof fn lemma_in_reach(interval: int, steps: int, n: int)
    requires
        0 < interval,
        0 <= steps < n,
    ensures
        0 <= interval * steps <= interval * n,
{
    assert(0 <= interval * steps <= interval * n) by (nonlinear_arith)
        requires
            0 < interval,
            0 <= steps < n,
    ;
}

proof fn lemma_which_turn(
    config: CheckConfig,
    secs: i64,
    steps: int,
    i: int,
    first: int,
    seed: u128,
)
    requires
        takes_turns(config),
        regions_differ(config),
        0 <= secs,
        0 <= steps < config.active_regions->0@.len(),
        secs + config.interval.seconds() * config.active_regions->0@.len() <= i64::MAX,
        0 <= i < config.active_regions->0@.len(),
        0 <= first < config.active_regions->0@.len(),
        runs_in(config, secs, config.active_regions->0@[first]@, seed),
        runs_after(config, secs, steps, config.active_regions->0@[i]@, seed),
    ensures
        (first + steps) % config.active_regions->0@.len() as int == i,
{
    let regions = config.active_regions->0@;
    let n = regions.len() as int;
    lemma_in_reach(config.interval.seconds(), steps, n);
    let then = (secs + config.interval.seconds() * steps) as i64;
    lemma_turn_after(config, secs, then, steps, first, seed);
    let j = (first + steps) % n;
    let now = turn(seed, window_of(then, config.interval), regions.len());
    assert(regions[now]@ == regions[j]@ && regions[now]@ == regions[i]@);
    if i < j {
        assert(regions[i]@ != regions[j]@);
    } else if j < i {
        assert(regions[j]@ != regions[i]@);
    }
}

} // verus!
