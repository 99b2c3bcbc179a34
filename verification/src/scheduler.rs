//! Scheduling: from which second on, and which checks at each.

use crate::check_executor::ScheduledCheck;
use crate::config_store::{
    bucket_holds, keyed_by_subscription, law_store_is_kept_in_order, share, tick_index, ConfigStore,
    Tick,
};
use crate::text;
use crate::text::{i64_in, signed_decimal};
use crate::time::Timestamp;
use crate::types::check_config::{
    law_one_run_per_interval, runs_at, runs_in, seed_of, takes_turns, CheckConfig,
};
use std::sync::Arc;
use vstd::prelude::*;

verus! {

/// How many finished ticks are looked at together.
pub const HANDLE_BATCH_SIZE: usize = 1000;

/// The whole second that a point lies in.
pub open spec fn whole_second(at: Timestamp) -> Timestamp {
    Timestamp { secs: at.secs, nanos: 0 }
}

/// The point can be told in nanoseconds of 64 bits.
pub open spec fn fits_in_nanos(at: Timestamp) -> bool {
    i64::MIN <= at.in_nanos() <= i64::MAX
}

/// The nanoseconds that a saved progress denotes. One that cannot be read stands for
/// the present count of seconds.
pub open spec fn progress_in(saved: Seq<char>, now: Timestamp) -> int {
    match i64_in(saved) {
        Some(nanos) => nanos,
        None => now.secs as int,
    }
}

/// When the ticks start, in nanoseconds: one second after the saved progress, but
/// never in the future; and in the present second where there is none.
pub open spec fn start_nanos(saved: Option<Seq<char>>, now: Timestamp) -> int {
    let present = whole_second(now).in_nanos();
    match saved {
        Some(progress) => {
            let next = progress_in(progress, now) + 1_000_000_000;
            if next < present {
                next
            } else {
                present
            }
        },
        None => present,
    }
}

/// When the ticks start.
pub fn start_time(last_progress: &Option<String>, now: Timestamp) -> (r: Timestamp)
    requires
        now.in_calendar(),
        fits_in_nanos(now),
    ensures
        r.in_calendar(),
        r.in_nanos() == start_nanos(
            match last_progress {
                Some(s) => Some(s@),
                None => None,
            },
            now,
        ),
{
    let present = Timestamp { secs: now.secs, nanos: 0 };
    match last_progress {
        Some(progress) => {
            let nanos: i64 = match text::parse_i64(progress.as_str()) {
                Ok(nanos) => nanos,
                Err(_) => now.secs,
            };
            match Timestamp::from_nanos(nanos as i128 + 1_000_000_000) {
                Some(next) => if next.nanos_since_epoch() < present.nanos_since_epoch() {
                    next
                } else {
                    present
                },
                None => present,
            }
        },
        None => present,
    }
}

/// The tick at so many seconds after the start.
pub open spec fn tick_at(start: Timestamp, seconds: int) -> Tick {
    let secs = (start.secs + seconds) as i64;
    Tick { index: tick_index(secs) as usize, time: Timestamp { secs, nanos: start.nanos } }
}

/// The tick at some nanoseconds after the start.
pub fn tick_after(start: Timestamp, elapsed_nanos: u64) -> (r: Option<Tick>)
    requires
        start.in_calendar(),
    ensures
        r matches Some(tick) ==> tick.wf() && tick.time.in_calendar() && tick.time.in_nanos()
            == start.in_nanos() + elapsed_nanos && tick.index == tick_index(tick.time.secs),
        r is None <==> start.in_nanos() + elapsed_nanos >= (crate::time::LAST_SECOND + 1)
            * 1_000_000_000,
        r is Some && elapsed_nanos as int % 1_000_000_000 == 0 ==> r == Some(
            tick_at(start, elapsed_nanos as int / 1_000_000_000),
        ),
{
    match Timestamp::from_nanos(start.nanos_since_epoch() + elapsed_nanos as i128) {
        Some(time) => Some(Tick::from_time(time)),
        None => None,
    }
}

/// A configuration runs at a tick in a region.
pub open spec fn is_due(config: Arc<CheckConfig>, tick: Tick, region: Seq<char>) -> bool {
    runs_in(*config, tick.time.secs, region, seed_of(config.subscription_id))
}

/// The configurations of a bucket that run in a region, in order.
pub open spec fn due(
    bucket: Seq<Arc<CheckConfig>>,
    tick: Tick,
    region: Seq<char>,
) -> Seq<Arc<CheckConfig>> {
    bucket.filter(|config: Arc<CheckConfig>| is_due(config, tick, region))
}

/// No configuration whose regions take turns is asked for one before the turns begin.
pub open spec fn can_take_turns(bucket: Seq<Arc<CheckConfig>>, tick: Tick) -> bool {
    forall|i: int|
        0 <= i < bucket.len() && takes_turns(*#[trigger] bucket[i])
            ==> -bucket[i].interval.seconds() < tick.time.secs
}

/// The checks of a tick.
#[derive(Debug)]
pub struct TickSchedule {
    /// The checks that run.
    pub checks: Vec<ScheduledCheck>,
    /// How many configurations there are at the tick.
    pub total_configs: usize,
    /// How many of them do not run in this region.
    pub skipped_configs: usize,
}

/// The checks that run at a tick in a region: those of the tick's second whose turn it
/// is there, each for the first time.
pub fn schedule_checks(store: &ConfigStore, tick: Tick, region: &str) -> (r: TickSchedule)
    requires
        store.wf(),
        tick.wf(),
        can_take_turns(store.bucket(tick.index as int), tick),
    ensures
        r.checks@.len() == due(store.bucket(tick.index as int), tick, region@).len(),
        forall|i: int|
            0 <= i < r.checks@.len() ==> (#[trigger] r.checks@[i]).at() == tick
                && r.checks@[i].of() == *due(store.bucket(tick.index as int), tick, region@)[i]
                && r.checks@[i].retries() == 0,
        r.total_configs == store.bucket(tick.index as int).len(),
        r.skipped_configs == r.total_configs - r.checks@.len(),
{
    let configs = store.get_configs(tick);
    let mut checks: Vec<ScheduledCheck> = Vec::new();
    let mut i: usize = 0;
    while i < configs.len()
        invariant
            can_take_turns(configs@, tick),
            i <= configs@.len(),
            checks@.len() == due(configs@.take(i as int), tick, region@).len(),
            checks@.len() <= i,
            forall|j: int|
                0 <= j < checks@.len() ==> (#[trigger] checks@[j]).at() == tick && checks@[j].of()
                    == *due(configs@.take(i as int), tick, region@)[j] && checks@[j].retries() == 0,
        decreases configs.len() - i,
    {
        let config = &configs[i];
        proof {
            let next = configs@.take(i + 1);
            assert(next.drop_last() =~= configs@.take(i as int));
            reveal(Seq::filter);
        }
        if config.should_run(tick, region) {
            checks.push(ScheduledCheck::new(tick, share(config)));
        }
        i = i + 1;
    }
    proof {
        assert(configs@.take(i as int) =~= configs@);
    }
    let total_configs = configs.len();
    let skipped_configs = total_configs - checks.len();
    TickSchedule { checks, total_configs, skipped_configs }
}

/// The progress that is saved once a tick and all before it are done.
pub fn progress_text(tick: &Tick) -> (r: String)
    requires
        fits_in_nanos(tick.time),
    ensures
        r@ == signed_decimal(tick.time.in_nanos()),
{
    text::signed_decimal_of(tick.time.nanos_since_epoch() as i64)
}

/// Which of the ticks that are waited for together says how far they are: the last,
/// since it can only be done after the others.
pub fn latest_of_batch(ticks: &Vec<Tick>) -> (r: Option<Tick>)
    ensures
        r == (if ticks@.len() == 0 {
            None::<Tick>
        } else {
            Some(ticks@.last())
        }),
{
    if ticks.len() == 0 {
        None
    } else {
        Some(ticks[ticks.len() - 1])
    }
}

/// What is done where the progress could not be saved.
#[derive(Clone, Copy, Debug, PartialEq, Eq, Structural)]
pub enum SaveAction {
    Continue,
    Reconnect,
    Abort,
}

/// What is done about a progress that could not be saved.
pub fn after_save_fault(is_timeout: bool, is_connection_dropped: bool) -> (r: SaveAction)
    ensures
        r == (if is_timeout {
            SaveAction::Continue
        } else if is_connection_dropped {
            SaveAction::Reconnect
        } else {
            SaveAction::Abort
        }),
{
    if is_timeout {
        SaveAction::Continue
    } else if is_connection_dropped {
        SaveAction::Reconnect
    } else {
        SaveAction::Abort
    }
}

/// A scheduler that starts again goes on with the second after the last one that was
/// saved, unless that is still to come: no second is skipped and none is repeated.
pub proof fn law_restart_resumes(last: Timestamp, now: Timestamp)
    requires
        last.in_calendar(),
        now.in_calendar(),
        fits_in_nanos(last),
        last.in_nanos() + 1_000_000_000 <= whole_second(now).in_nanos(),
    ensures
        start_nanos(Some(signed_decimal(last.in_nanos())), now) == last.in_nanos() + 1_000_000_000,
{
    text::law_written_integers_are_read_back(last.in_nanos());
}

/// The ticks never start in the future.
pub proof fn law_start_is_not_in_the_future(saved: Option<Seq<char>>, now: Timestamp)
    requires
        now.in_calendar(),
    ensures
        start_nanos(saved, now) <= now.in_nanos(),
{
}

/// A check is scheduled at a tick iff its configuration is there and runs at the tick's
/// second and in the region.
pub proof fn law_scheduled_iff_due_here(
    bucket: Seq<Arc<CheckConfig>>,
    configs: Map<u128, Arc<CheckConfig>>,
    tick: Tick,
    region: Seq<char>,
    subscription_id: u128,
)
    requires
        keyed_by_subscription(configs),
        bucket_holds(bucket, configs, tick.index as int),
        configs.contains_key(subscription_id),
    ensures
        due(bucket, tick, region).contains(configs[subscription_id]) <==> runs_at(
            subscription_id,
            configs[subscription_id].interval,
            tick.index as int,
        ) && is_due(configs[subscription_id], tick, region),
{
    let config = configs[subscription_id];
    lemma_due(bucket, tick, region, config);
    if bucket.contains(config) {
        let i = bucket.index_of(config);
        assert(bucket[i] == config);
    }
}

/// Of a tick nothing is scheduled that is not there any more.
pub proof fn law_nothing_else_is_scheduled(
    bucket: Seq<Arc<CheckConfig>>,
    configs: Map<u128, Arc<CheckConfig>>,
    tick: Tick,
    region: Seq<char>,
    config: Arc<CheckConfig>,
)
    requires
        bucket_holds(bucket, configs, tick.index as int),
        due(bucket, tick, region).contains(config),
    ensures
        configs.contains_key(config.subscription_id),
        configs[config.subscription_id] == config,
{
    lemma_due(bucket, tick, region, config);
    let i = bucket.index_of(config);
    assert(bucket[i] == config);
}

/// The ticks follow each other second by second: each second from the start on, to the
/// end of the calendar, is that of exactly one tick, and of the second of the hour that
/// it falls on.
pub proof fn law_every_second_has_one_tick(start: Timestamp, secs: i64)
    requires
        start.in_calendar(),
        start.secs <= secs <= crate::time::LAST_SECOND,
    ensures
        tick_at(start, secs - start.secs).time == (Timestamp { secs, nanos: start.nanos }),
        tick_at(start, secs - start.secs).index == tick_index(secs),
        tick_at(start, secs - start.secs).wf(),
        forall|k: int|
            0 <= k <= crate::time::LAST_SECOND - start.secs && (#[trigger] tick_at(
                start,
                k,
            )).time.secs == secs ==> k == secs - start.secs,
{
}

/// What is scheduled at a tick is each configuration of the store that runs at the
/// tick's second and in the region, each once, and no other.
pub proof fn law_each_due_check_is_scheduled_once(store: ConfigStore, tick: Tick, region: Seq<char>)
    requires
        store.wf(),
        tick.wf(),
    ensures
        ({
            let scheduled = due(store.bucket(tick.index as int), tick, region);
            &&& forall|i: int|
                0 <= i < scheduled.len() ==> store.view().contains_key(
                    (#[trigger] scheduled[i]).subscription_id,
                ) && store.view()[scheduled[i].subscription_id] == scheduled[i]
            &&& forall|i: int, j: int|
                0 <= i < j < scheduled.len() ==> scheduled[i].subscription_id
                    != scheduled[j].subscription_id
            &&& forall|id: u128| #[trigger]
                store.view().contains_key(id) ==> (scheduled.contains(store.view()[id]) <==> runs_at(
                    id,
                    store.view()[id].interval,
                    tick.index as int,
                ) && is_due(store.view()[id], tick, region))
        }),
{
    let bucket = store.bucket(tick.index as int);
    let scheduled = due(bucket, tick, region);
    law_store_is_kept_in_order(store, tick.index as int);
    lemma_due_distinct(bucket, tick, region);
    assert forall|i: int| 0 <= i < scheduled.len() implies store.view().contains_key(
        (#[trigger] scheduled[i]).subscription_id,
    ) && store.view()[scheduled[i].subscription_id] == scheduled[i] by {
        assert(scheduled.contains(scheduled[i]));
        law_nothing_else_is_scheduled(bucket, store.view(), tick, region, scheduled[i]);
    }
    assert forall|id: u128| #[trigger] store.view().contains_key(id) implies (scheduled.contains(
        store.view()[id],
    ) <==> runs_at(id, store.view()[id].interval, tick.index as int) && is_due(
        store.view()[id],
        tick,
        region,
    )) by {
        law_scheduled_iff_due_here(bucket, store.view(), tick, region, id);
    }
}

/// A check comes up at the tick so many seconds after the start.
pub open spec fn comes_up(config: CheckConfig, start: Timestamp, seconds: int) -> bool {
    runs_at(config.subscription_id, config.interval, tick_at(start, seconds).index as int)
}

/// As long as a configuration stays in the store, its check comes up at exactly one of
/// the ticks of every interval: there it is scheduled where it runs in the region, and at
/// the other ticks it is scheduled nowhere. Ticks before the epoch are left out.
pub proof fn law_one_tick_per_interval(
    store: ConfigStore,
    start: Timestamp,
    from: int,
    subscription_id: u128,
)
    requires
        store.wf(),
        store.view().contains_key(subscription_id),
        start.in_calendar(),
        0 <= from,
        0 <= start.secs + from,
        start.secs + from + store.view()[subscription_id].interval.seconds()
            <= crate::time::LAST_SECOND,
    ensures
        ({
            let config = store.view()[subscription_id];
            let until = from + config.interval.seconds();
            &&& exists|k: int| from <= k < until && #[trigger] comes_up(*config, start, k)
            &&& forall|j: int, k: int|
                from <= j < until && from <= k < until && #[trigger] comes_up(*config, start, j)
                    && #[trigger] comes_up(*config, start, k) ==> j == k
            &&& forall|k: int, region: Seq<char>|
                from <= k < until ==> (#[trigger] due(
                    store.bucket(tick_at(start, k).index as int),
                    tick_at(start, k),
                    region,
                ).contains(config) <==> comes_up(*config, start, k) && is_due(
                    config,
                    tick_at(start, k),
                    region,
                ))
        }),
{
    let config = store.view()[subscription_id];
    let until = from + config.interval.seconds();
    let first = start.secs + from;
    law_store_is_kept_in_order(store, 0);
    law_one_run_per_interval(subscription_id, config.interval, first);
    let t = choose|t: int|
        first <= t < first + config.interval.seconds() && #[trigger] runs_at(
            subscription_id,
            config.interval,
            t % 3600,
        );
    assert(comes_up(*config, start, t - start.secs));
    assert forall|j: int, k: int|
        from <= j < until && from <= k < until && #[trigger] comes_up(*config, start, j)
            && #[trigger] comes_up(*config, start, k) implies j == k by {
        assert(runs_at(subscription_id, config.interval, (start.secs + j) % 3600));
        assert(runs_at(subscription_id, config.interval, (start.secs + k) % 3600));
    }
    assert forall|k: int, region: Seq<char>| from <= k < until implies (#[trigger] due(
        store.bucket(tick_at(start, k).index as int),
        tick_at(start, k),
        region,
    ).contains(config) <==> comes_up(*config, start, k) && is_due(
        config,
        tick_at(start, k),
        region,
    )) by {
        law_each_due_check_is_scheduled_once(store, tick_at(start, k), region);
    }
}

proof fn lemma_due_distinct(bucket: Seq<Arc<CheckConfig>>, tick: Tick, region: Seq<char>)
    requires
        forall|i: int, j: int|
            0 <= i < j < bucket.len() ==> bucket[i].subscription_id != bucket[j].subscription_id,
    ensures
        forall|i: int, j: int|
            0 <= i < j < due(bucket, tick, region).len() ==> due(
                bucket,
                tick,
                region,
            )[i].subscription_id != due(bucket, tick, region)[j].subscription_id,
    decreases bucket.len(),
{
    reveal(Seq::filter);
    if bucket.len() > 0 {
        let rest = bucket.drop_last();
        let kept = due(rest, tick, region);
        let all = due(bucket, tick, region);
        lemma_due_distinct(rest, tick, region);
        assert forall|i: int, j: int| 0 <= i < j < all.len() implies all[i].subscription_id
            != all[j].subscription_id by {
            assert(all[i] == kept[i]);
            if j < kept.len() {
                assert(all[j] == kept[j]);
            } else {
                assert(kept.contains(kept[i]));
                lemma_due(rest, tick, region, kept[i]);
                let at = rest.index_of(kept[i]);
                assert(bucket[at] == kept[i]);
                assert(bucket[bucket.len() - 1] == all[j]);
            }
        }
    }
}

proof fn lemma_due(
    bucket: Seq<Arc<CheckConfig>>,
    tick: Tick,
    region: Seq<char>,
    config: Arc<CheckConfig>,
)
    ensures
        due(bucket, tick, region).contains(config) <==> bucket.contains(config) && is_due(
            config,
            tick,
            region,
        ),
    decreases bucket.len(),
{
    reveal(Seq::filter);
    if bucket.len() > 0 {
        let rest = bucket.drop_last();
        let kept = due(rest, tick, region);
        let all = due(bucket, tick, region);
        lemma_due(rest, tick, region, config);
        if all.contains(config) {
            let i = all.index_of(config);
            if i < kept.len() {
                assert(kept[i] == config);
                let j = rest.index_of(config);
                assert(bucket[j] == config);
            } else {
                assert(bucket[bucket.len() - 1] == config);
            }
        }
        if bucket.contains(config) && is_due(config, tick, region) {
            let j = bucket.index_of(config);
            if j < rest.len() {
                assert(rest[j] == config);
                let i = kept.index_of(config);
                assert(all[i] == config);
            } else {
                assert(all[kept.len() as int] == config);
            }
        }
    }
}

/// Without a saved progress, or with one that is still to come, the ticks start with the
/// present second, at its beginning.
pub proof fn law_a_first_start_is_the_present_second(saved: Option<Timestamp>, now: Timestamp)
    requires
        now.in_calendar(),
        saved matches Some(last) ==> fits_in_nanos(last) && last.in_calendar()
            && whole_second(now).in_nanos() < last.in_nanos() + 1_000_000_000,
    ensures
        ({
            let start = start_nanos(
                match saved {
                    Some(last) => Some(signed_decimal(last.in_nanos())),
                    None => None,
                },
                now,
            );
            start % 1_000_000_000 == 0 && start <= now.in_nanos() < start + 1_000_000_000
        }),
{
    if let Some(last) = saved {
        text::law_written_integers_are_read_back(last.in_nanos());
    }
}

/// Progress that cannot be read counts as the seconds of the present, taken for
/// nanoseconds; the ticks then start a second behind that, and never behind the present.
pub proof fn law_unreadable_progress_starts_early(saved: Seq<char>, now: Timestamp)
    requires
        now.in_calendar(),
        text::i64_in(saved) is None,
    ensures
        ({
            let start = start_nanos(Some(saved), now);
            let early = now.secs + 1_000_000_000;
            let present = now.secs * 1_000_000_000;
            start <= early && start <= present && (start == early || start == present)
        }),
{
}

} // verus!
