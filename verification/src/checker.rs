//! Checks: how one is identified, and what its response means.

pub mod dns_resolution;
pub mod dummy_checker;
pub mod http_checker;
pub mod ip_filter;
pub mod isahc_checker;
pub mod reqwest_checker;

use crate::config_store::{tick_index, Tick};
use crate::ids;
use crate::text;
use crate::text::{decimal, law_written_numbers_are_read_back};
use crate::time::{utc_display, utc_text};
use crate::types::check_config::{
    lemma_hour_keeps_rest, runs_at, CheckConfig, CheckInterval,
};
use vstd::prelude::*;
use vstd::utf8::encode_utf8;

verus! {

/// The namespace in which the runs of checks are identified.
pub const CHECKER_RESULT_NAMESPACE: u128 = 0x67f0b2d5_e476_4f00_9b99_9e6b95c3b7e3;

/// How often a subscription's robots.txt is looked at, in minutes.
pub const ROBOTS_TXT_CHECK_INTERVAL_MINUTES: u128 = 1440;

/// What a run of a check is told by.
pub open spec fn run_key(config: CheckConfig, tick: Tick, retry_num: u16) -> Seq<char> {
    ids::hyphenated_form(config.subscription_id) + "-"@ + utc_text(tick.time.secs, tick.time.nanos)
        + "-"@ + decimal(retry_num as nat)
}

/// The identifier of a run of a check.
pub open spec fn trace_id_of(config: CheckConfig, tick: Tick, retry_num: u16) -> u128 {
    ids::named_id(CHECKER_RESULT_NAMESPACE, encode_utf8(run_key(config, tick, retry_num)))
}

/// The identifier of a run of a check: the same for the same tick, so that results of
/// one scheduled time can be told to be the same.
pub fn make_trace_id(config: &CheckConfig, tick: &Tick, retry_num: u16) -> (r: u128)
    requires
        tick.time.in_calendar(),
    ensures
        r == trace_id_of(*config, *tick, retry_num),
{
    let key = ids::to_hyphenated(config.subscription_id).concat("-").concat(
        utc_display(tick.time).as_str(),
    ).concat("-").concat(text::decimal_of(retry_num as u128).as_str());
    ids::id_of_name(CHECKER_RESULT_NAMESPACE, key.as_str().as_bytes())
}

/// The value of the `sentry-trace` header. A zero at its end says that the trace is
/// not to be sampled.
pub open spec fn trace_header(sampled: bool, trace_id: u128, span_id: u64) -> Seq<char> {
    let ids = ids::simple_form(trace_id) + "-"@ + ids::hex(span_id as int, 16);
    if sampled {
        ids
    } else {
        ids + "-0"@
    }
}

/// The value of the `sentry-trace` header.
pub fn make_trace_header(config: &CheckConfig, trace_id: u128, span_id: u64) -> (r: String)
    ensures
        r@ == trace_header(config.trace_sampling, trace_id, span_id),
{
    let ids = ids::to_simple(trace_id).concat("-").concat(
        ids::hex_text(span_id as u128, 16).as_str(),
    );
    if config.trace_sampling {
        ids
    } else {
        ids.concat("-0")
    }
}

/// The minute of the day that a second since the epoch falls on.
pub open spec fn minute_of_day(secs: i64) -> int {
    (secs as int % 86400) / 60
}

fn to_minute_of_day(secs: i64) -> (r: i32)
    ensures
        r == minute_of_day(secs),
        0 <= r < 1440,
{
    let second: u64 = if secs >= 0 {
        secs as u64 % 86400
    } else {
        86399 - (-(secs + 1)) as u64 % 86400
    };
    proof {
        assert(second == secs as int % 86400);
    }
    (second / 60) as i32
}

/// The minute of the day at which a subscription's robots.txt is looked at.
pub open spec fn robots_minute(subscription_id: u128) -> int {
    subscription_id as int % 1440
}

/// A run in a minute of the day is the one that looks at robots.txt: the first from
/// the subscription's minute on, which may be one of the next day.
pub open spec fn robots_due_at(subscription_id: u128, interval_minutes: int, minute: int) -> bool {
    (minute - robots_minute(subscription_id)) % 1440 < interval_minutes
}

/// Whether a run of a check looks at robots.txt. A checker that is far behind can miss
/// the run that would.
pub fn robots_due(config: &CheckConfig, tick: &Tick) -> (r: bool)
    ensures
        r == robots_due_at(
            config.subscription_id,
            config.interval.seconds() / 60,
            minute_of_day(tick.time.secs),
        ),
{
    let daily_minute_to_check: i32 = (config.subscription_id % ROBOTS_TXT_CHECK_INTERVAL_MINUTES)
        as i32;
    let current_minute: i32 = to_minute_of_day(tick.time.secs);
    let interval_in_minutes: i32 = (config.interval.secs() / 60) as i32;
    let minutes_since: i32 = if current_minute >= daily_minute_to_check {
        current_minute - daily_minute_to_check
    } else {
        current_minute + 1440 - daily_minute_to_check
    };
    minutes_since < interval_in_minutes
}

/// Of the runs of a day, one every `n` minutes from minute `first` on, exactly one
/// looks at robots.txt.
pub proof fn law_robots_once_a_day(subscription_id: u128, n: int, first: int)
    requires
        0 < n,
        1440int % n == 0,
        0 <= first < n,
    ensures
        exists|i: int|
            0 <= i < 1440int / n && #[trigger] robots_due_at(subscription_id, n, first + n * i),
        forall|i: int, j: int|
            0 <= i < 1440int / n && 0 <= j < 1440int / n && #[trigger] robots_due_at(
                subscription_id,
                n,
                first + n * i,
            ) && #[trigger] robots_due_at(subscription_id, n, first + n * j) ==> i == j,
{
    let d = robots_minute(subscription_id);
    let m = 1440int / n;
    vstd::arithmetic::div_mod::lemma_fundamental_div_mod(1440, n);
    assert(n * m == 1440);
    assert(0 < m && n <= 1440) by (nonlinear_arith)
        requires
            n * m == 1440,
            0 < n,
    ;
    let x = d - first + n - 1;
    let k = x / n;
    vstd::arithmetic::div_mod::lemma_fundamental_div_mod(x, n);
    assert(d <= first + n * k < d + n);
    assert(0 <= k <= m) by (nonlinear_arith)
        requires
            0 < n,
            n * m == 1440,
            0 <= first < n,
            0 <= d < 1440,
            d <= first + n * k < d + n,
    ;
    let i = if k < m {
        k
    } else {
        0
    };
    if k < m {
        assert(robots_due_at(subscription_id, n, first + n * i));
    } else {
        assert(n * k == 1440);
        assert(n * 0 == 0);
        assert(robots_due_at(subscription_id, n, first + n * i));
    }
    assert forall|i: int, j: int|
        0 <= i < m && 0 <= j < m && #[trigger] robots_due_at(subscription_id, n, first + n * i)
            && #[trigger] robots_due_at(subscription_id, n, first + n * j) implies i == j by {
        let a = first + n * i - d;
        let b = first + n * j - d;
        let turns = a / 1440 - b / 1440;
        assert(-n < a % 1440 - b % 1440 < n);
        assert(n * i - n * j == 1440 * turns + (a % 1440 - b % 1440));
        lemma_same_run(n, m, i, j, turns);
    }
}

proof fn lemma_same_run(n: int, m: int, i: int, j: int, turns: int)
    requires
        0 < n,
        n * m == 1440,
        0 <= i < m,
        0 <= j < m,
        -n < n * i - n * j - 1440 * turns < n,
    ensures
        i == j,
{
    let rest = i - j - m * turns;
    assert(n * rest == n * i - n * j - 1440 * turns) by (nonlinear_arith)
        requires
            rest == i - j - m * turns,
            n * m == 1440,
    ;
    assert(rest == 0) by (nonlinear_arith)
        requires
            -n < n * rest < n,
            0 < n,
    ;
    assert(turns == 0) by (nonlinear_arith)
        requires
            i - j == m * turns,
            -m < i - j < m,
    ;
}

/// A second of a day is one at which a check runs and looks at robots.txt.
pub open spec fn looks_at_robots(
    subscription_id: u128,
    interval: CheckInterval,
    day: int,
    secs: i64,
) -> bool {
    &&& day * 86400 <= secs < (day + 1) * 86400
    &&& runs_at(subscription_id, interval, tick_index(secs))
    &&& robots_due_at(subscription_id, interval.seconds() / 60, minute_of_day(secs))
}

/// On every day, the robots.txt of a subscription is looked at exactly once: of the
/// seconds of the day at which its check runs, one is due.
pub proof fn law_robots_once_every_day(subscription_id: u128, interval: CheckInterval, day: int)
    requires
        i64::MIN <= day * 86400,
        (day + 1) * 86400 <= i64::MAX,
    ensures
        exists|secs: i64| looks_at_robots(subscription_id, interval, day, secs),
        forall|s: i64, t: i64|
            #[trigger] looks_at_robots(subscription_id, interval, day, s)
                && #[trigger] looks_at_robots(subscription_id, interval, day, t) ==> s == t,
{
    let n = interval.seconds() / 60;
    let slot = first_of_day(subscription_id, interval, day);
    let first = slot / 60;
    let runs = 1440int / n;
    lemma_runs_of_day(interval);
    law_robots_once_a_day(subscription_id, n, first);
    let i = choose|i: int|
        0 <= i < runs && #[trigger] robots_due_at(subscription_id, n, first + n * i);
    lemma_run_of_day(subscription_id, interval, day, i);
    let secs = (day * 86400 + slot + interval.seconds() * i) as i64;
    assert(looks_at_robots(subscription_id, interval, day, secs));
    assert forall|s: i64, t: i64|
        #[trigger] looks_at_robots(subscription_id, interval, day, s)
            && #[trigger] looks_at_robots(subscription_id, interval, day, t) implies s == t by {
        let a = lemma_which_run(subscription_id, interval, day, s);
        let b = lemma_which_run(subscription_id, interval, day, t);
        lemma_run_of_day(subscription_id, interval, day, a);
        lemma_run_of_day(subscription_id, interval, day, b);
        assert(robots_due_at(subscription_id, n, first + n * a));
        assert(robots_due_at(subscription_id, n, first + n * b));
    }
}

/// By how many seconds the ticks of a day are off the clock: before the epoch their
/// count wraps round at a width that is no number of whole hours.
spec fn ticks_off(day: int) -> int {
    if day < 0 {
        16
    } else {
        0
    }
}

/// The second of a day at which a check runs first.
spec fn first_of_day(subscription_id: u128, interval: CheckInterval, day: int) -> int {
    (subscription_id as int % interval.seconds() - ticks_off(day)) % interval.seconds()
}

/// A day is a number of whole intervals.
proof fn lemma_runs_of_day(interval: CheckInterval)
    ensures
        ({
            let n = interval.seconds() / 60;
            &&& 0 < n
            &&& interval.seconds() == 60 * n
            &&& 1440int % n == 0
            &&& interval.seconds() * (1440int / n) == 86400
        }),
{
    let secs = interval.seconds();
    let n = secs / 60;
    assert(1440int % n == 0 && secs * (1440int / n) == 86400) by (nonlinear_arith)
        requires
            secs == 60 * n,
            n == 1 || n == 5 || n == 10 || n == 20 || n == 30 || n == 60,
    ;
}

/// The check runs at those seconds of a day that leave the same rest as the first.
proof fn lemma_runs_by_rest(subscription_id: u128, interval: CheckInterval, day: int, secs: i64)
    requires
        day * 86400 <= secs < (day + 1) * 86400,
    ensures
        runs_at(subscription_id, interval, tick_index(secs)) <==> (secs - day * 86400)
            % interval.seconds() == first_of_day(subscription_id, interval, day),
{
    let n = interval.seconds();
    let off = ticks_off(day);
    let within = secs - day * 86400;
    let rest = subscription_id as int % n;
    assert(tick_index(secs) == (secs + off) % 3600);
    lemma_hour_keeps_rest(secs + off, interval);
    lemma_runs_of_day(interval);
    let runs = 1440int / (n / 60);
    vstd::arithmetic::div_mod::lemma_mod_multiples_vanish(runs * day, within + off, n);
    assert(n * (runs * day) == day * 86400) by (nonlinear_arith)
        requires
            n * runs == 86400,
    ;
    assert((secs + off) % n == (within + off) % n);
    if (within + off) % n == rest {
        vstd::arithmetic::div_mod::lemma_add_mod_noop_right(-off, within + off, n);
    }
    if within % n == (rest - off) % n {
        vstd::arithmetic::div_mod::lemma_add_mod_noop_right(off, within, n);
        vstd::arithmetic::div_mod::lemma_add_mod_noop_right(off, rest - off, n);
        vstd::arithmetic::div_mod::lemma_small_mod(rest as nat, n as nat);
    }
}

/// The `i`th run of a day, and its minute.
proof fn lemma_run_of_day(subscription_id: u128, interval: CheckInterval, day: int, i: int)
    requires
        i64::MIN <= day * 86400,
        (day + 1) * 86400 <= i64::MAX,
        0 <= i < 1440int / (interval.seconds() / 60),
    ensures
        ({
            let slot = first_of_day(subscription_id, interval, day);
            let at = (day * 86400 + slot + interval.seconds() * i) as i64;
            &&& at == day * 86400 + slot + interval.seconds() * i
            &&& day * 86400 <= at < (day + 1) * 86400
            &&& runs_at(subscription_id, interval, tick_index(at))
            &&& minute_of_day(at) == slot / 60 + (interval.seconds() / 60) * i
        }),
{
    let slot = first_of_day(subscription_id, interval, day);
    let within = slot + interval.seconds() * i;
    let at = (day * 86400 + within) as i64;
    lemma_runs_of_day(interval);
    assert(interval.seconds() * i + interval.seconds() <= 86400) by (nonlinear_arith)
        requires
            i + 1 <= 1440int / (interval.seconds() / 60),
            interval.seconds() * (1440int / (interval.seconds() / 60)) == 86400,
            0 < interval.seconds(),
    ;
    assert(0 <= within < 86400) by (nonlinear_arith)
        requires
            within == slot + interval.seconds() * i,
            0 <= i,
            0 <= slot < interval.seconds(),
            interval.seconds() * i + interval.seconds() <= 86400,
    ;
    assert(at as int % 86400 == within);
    vstd::arithmetic::div_mod::lemma_mod_multiples_vanish(i, slot, interval.seconds());
    vstd::arithmetic::div_mod::lemma_small_mod(slot as nat, interval.seconds() as nat);
    lemma_runs_by_rest(subscription_id, interval, day, at);
    let n = interval.seconds() / 60;
    vstd::arithmetic::div_mod::lemma_hoist_over_denominator(slot, n * i, 60);
    assert(interval.seconds() * i == n * i * 60) by (nonlinear_arith)
        requires
            interval.seconds() == 60 * n,
    ;
}

/// Which run of a day a second is.
proof fn lemma_which_run(subscription_id: u128, interval: CheckInterval, day: int, secs: i64) -> (i:
    int)
    requires
        day * 86400 <= secs < (day + 1) * 86400,
        runs_at(subscription_id, interval, tick_index(secs)),
    ensures
        0 <= i < 1440int / (interval.seconds() / 60),
        secs == day * 86400 + first_of_day(subscription_id, interval, day) + interval.seconds()
            * i,
{
    let slot = first_of_day(subscription_id, interval, day);
    let within = secs - day * 86400;
    lemma_runs_by_rest(subscription_id, interval, day, secs);
    lemma_runs_of_day(interval);
    let i = within / interval.seconds();
    vstd::arithmetic::div_mod::lemma_fundamental_div_mod(within, interval.seconds());
    assert(0 <= i < 1440int / (interval.seconds() / 60)) by (nonlinear_arith)
        requires
            0 <= interval.seconds() * i + slot < interval.seconds() * (1440int / (
            interval.seconds() / 60)),
            0 <= slot < interval.seconds(),
    ;
    i
}

/// Two runs of one check at the same time and retry have the same identifier.
pub proof fn law_same_run_same_id(a: CheckConfig, b: CheckConfig, s: Tick, t: Tick, retry_num: u16)
    requires
        a.subscription_id == b.subscription_id,
        s.time == t.time,
    ensures
        trace_id_of(a, s, retry_num) == trace_id_of(b, t, retry_num),
{
}

/// A request that is not sampled says so at the end of its header, and else the header is
/// the same.
pub proof fn law_sampling_shows_at_the_end(trace_id: u128, span_id: u64)
    ensures
        trace_header(false, trace_id, span_id) == trace_header(true, trace_id, span_id) + "-0"@,
{
}

/// The minute of the day that comes some minutes behind a subscription's own.
pub open spec fn minutes_behind(subscription_id: u128, minutes: int) -> int {
    (subscription_id + minutes) % 1440
}

/// robots.txt is looked at from a subscription's own minute of the day on, for as long as
/// one interval lasts.
pub proof fn law_robots_from_an_own_minute_on(subscription_id: u128, interval: int, minute: int)
    requires
        0 <= interval <= 1440,
        0 <= minute < 1440,
    ensures
        robots_due_at(subscription_id, interval, minute) <==> exists|d: int|
            0 <= d < interval && #[trigger] minutes_behind(subscription_id, d) == minute,
{
    let id = subscription_id as int;
    if robots_due_at(subscription_id, interval, minute) {
        let d = (minute - robots_minute(subscription_id)) % 1440;
        assert(minutes_behind(subscription_id, d) == minute);
    }
    if exists|d: int|
        0 <= d < interval && #[trigger] minutes_behind(subscription_id, d) == minute {
        let d = choose|d: int|
            0 <= d < interval && #[trigger] minutes_behind(subscription_id, d) == minute;
        assert((id + d) % 1440 == minute);
    }
}

/// The minutes of a day are counted from its start.
pub proof fn law_minutes_count_through_the_day(secs: i64, day: int, minute: int, second: int)
    requires
        0 <= minute < 1440,
        0 <= second < 60,
        secs == 86400 * day + 60 * minute + second,
    ensures
        minute_of_day(secs) == minute,
{
}

/// The keys of two runs of a check at the same time differ when one is a retry of the
/// other.
pub proof fn law_retries_have_keys_of_their_own(config: CheckConfig, tick: Tick, a: u16, b: u16)
    requires
        a != b,
    ensures
        run_key(config, tick, a) != run_key(config, tick, b),
{
    let front = ids::hyphenated_form(config.subscription_id) + "-"@ + utc_text(
        tick.time.secs,
        tick.time.nanos,
    ) + "-"@;
    let x = run_key(config, tick, a);
    let y = run_key(config, tick, b);
    assert(x.skip(front.len() as int) =~= decimal(a as nat));
    assert(y.skip(front.len() as int) =~= decimal(b as nat));
    law_written_numbers_are_read_back(a);
    law_written_numbers_are_read_back(b);
}

/// The keys of runs of two subscriptions differ.
pub proof fn law_subscriptions_have_keys_of_their_own(
    a: CheckConfig,
    b: CheckConfig,
    s: Tick,
    t: Tick,
    n: u16,
    m: u16,
)
    requires
        a.subscription_id != b.subscription_id,
    ensures
        run_key(a, s, n) != run_key(b, t, m),
{
    let x = run_key(a, s, n);
    let y = run_key(b, t, m);
    ids::law_grouped_ids_are_unique(a.subscription_id, b.subscription_id);
    ids::law_grouped_ids_are_unique(b.subscription_id, a.subscription_id);
    assert(x.take(36) =~= ids::hyphenated_form(a.subscription_id));
    assert(y.take(36) =~= ids::hyphenated_form(b.subscription_id));
}

} // verus!
