//! The configurations of all checks, by the second at which each runs.

use crate::text;
use crate::time::Timestamp;
use crate::types::check_config::{
    law_slots_are_spread_over_the_hour, runs_at, slots_of, CheckConfig, MAX_CHECK_INTERVAL_SECS,
};
use std::collections::HashMap;
use std::sync::Arc;
use vstd::prelude::*;

verus! {

/// A second of the hour, and the time at which it came.
#[derive(Clone, Copy, Debug, PartialEq, Eq, Structural)]
pub struct Tick {
    pub index: usize,
    pub time: Timestamp,
}

/// The second of the hour that a second since the epoch falls on. Before the epoch
/// the count wraps round at the width of 64 bits.
pub open spec fn tick_index(secs: i64) -> int {
    if secs >= 0 {
        secs as int % 3600
    } else {
        (secs + 0x1_0000_0000_0000_0000) % 3600
    }
}

impl Tick {
    /// The tick lies within the hour.
    pub open spec fn wf(self) -> bool {
        self.index < 3600
    }

    /// A tick of any second, not necessarily that of the time.
    pub fn new(index: usize, time: Timestamp) -> (r: Tick)
        ensures
            r == (Tick { index, time }),
    {
        Tick { index, time }
    }

    /// The tick of a time.
    pub fn from_time(time: Timestamp) -> (r: Tick)
        ensures
            r.time == time,
            r.index == tick_index(time.secs),
            r.wf(),
    {
        let seconds: u64 = time.secs as u64;
        proof {
            let secs = time.secs;
            assert(secs < 0 ==> secs as u64 == secs + 0x1_0000_0000_0000_0000) by (bit_vector);
        }
        let index: u64 = seconds % 3600;
        Tick { index: index as usize, time }
    }

    /// The tick in words.
    pub fn describe(&self) -> (r: String)
        ensures
            r@ == "Tick(slot: "@ + text::decimal(self.index as nat) + ", ts: "@
                + text::signed_decimal(self.time.secs as int) + ")"@,
    {
        "Tick(slot: ".to_owned().concat(text::decimal_of(self.index as u128).as_str()).concat(
            ", ts: ",
        ).concat(text::signed_decimal_of(self.time.secs).as_str()).concat(")")
    }

    /// The time of the tick.
    pub fn time(&self) -> (r: Timestamp)
        ensures
            r == self.time,
    {
        self.time
    }
}

/// A point on tokio's clock.
#[verifier::external_type_specification]
#[verifier::external_body]
pub struct ExInstant(tokio::time::Instant);

/// `tokio::time::Instant::now`: the present point on the clock, whatever it is.
#[verifier::external_body]
pub(crate) fn now() -> (r: tokio::time::Instant) {
    tokio::time::Instant::now()
}

/// Cloning an `Arc` gives another handle to the same value.
#[verifier::external_body]
pub(crate) fn share<T>(value: &Arc<T>) -> (r: Arc<T>)
    ensures
        r == *value,
{
    value.clone()
}

/// The checks of one second of the hour.
pub type TickBucket = Vec<Arc<CheckConfig>>;

/// The checks of each second of the hour.
pub type TickBuckets = Vec<TickBucket>;

/// All check configurations, by subscription and by the second at which each runs.
#[derive(Debug)]
pub struct ConfigStore {
    tick_buckets: TickBuckets,
    configs: HashMap<u128, Arc<CheckConfig>>,
    last_update: Option<tokio::time::Instant>,
}

/// A bucket holds exactly the configurations that run at its second, each once.
pub open spec fn bucket_holds(
    bucket: Seq<Arc<CheckConfig>>,
    configs: Map<u128, Arc<CheckConfig>>,
    slot: int,
) -> bool {
    &&& forall|i: int|
        0 <= i < bucket.len() ==> {
            let c = #[trigger] bucket[i];
            configs.contains_key(c.subscription_id) && configs[c.subscription_id] == c && runs_at(
                c.subscription_id,
                c.interval,
                slot,
            )
        }
    &&& forall|id: u128|
        #[trigger] configs.contains_key(id) && runs_at(id, configs[id].interval, slot)
            ==> bucket.contains(configs[id])
    &&& forall|i: int, j: int|
        0 <= i < j < bucket.len() ==> bucket[i].subscription_id != bucket[j].subscription_id
}

/// When a store last changed: at an instant, if it changed then, else when it had before.
pub open spec fn changed_at(
    changed: bool,
    now: tokio::time::Instant,
    before: Option<tokio::time::Instant>,
) -> Option<tokio::time::Instant> {
    if changed {
        Some(now)
    } else {
        before
    }
}

/// Each configuration stands under its own subscription.
pub open spec fn keyed_by_subscription(configs: Map<u128, Arc<CheckConfig>>) -> bool {
    forall|id: u128| #[trigger] configs.contains_key(id) ==> configs[id].subscription_id == id
}

fn add_to_bucket(
    bucket: &mut TickBucket,
    config: Arc<CheckConfig>,
    configs: Ghost<Map<u128, Arc<CheckConfig>>>,
    slot: Ghost<int>,
)
    requires
        bucket_holds(old(bucket)@, configs@, slot@),
        keyed_by_subscription(configs@),
        !configs@.contains_key(config.subscription_id),
        runs_at(config.subscription_id, config.interval, slot@),
    ensures
        bucket_holds(final(bucket)@, configs@.insert(config.subscription_id, config), slot@),
{
    let ghost before = bucket@;
    let ghost new = configs@.insert(config.subscription_id, config);
    bucket.push(config);
    proof {
        let after = bucket@;
        assert(after[before.len() as int] == config);
        assert forall|id: u128|
            #[trigger] new.contains_key(id) && runs_at(id, new[id].interval, slot@) implies after.contains(
            new[id],
        ) by {
            if id == config.subscription_id {
                assert(after[before.len() as int] == new[id]);
            } else {
                assert(configs@.contains_key(id));
                let i = before.index_of(configs@[id]);
                assert(after[i] == new[id]);
            }
        }
        assert forall|i: int| 0 <= i < after.len() implies ({
            let c = #[trigger] after[i];
            new.contains_key(c.subscription_id) && new[c.subscription_id] == c && runs_at(
                c.subscription_id,
                c.interval,
                slot@,
            )
        }) by {
            if i < before.len() {
                assert(after[i] == before[i]);
            }
        }
        assert forall|i: int, j: int| 0 <= i < j < after.len() implies after[i].subscription_id
            != after[j].subscription_id by {
            assert(after[i] == before[i]);
            if j < before.len() {
                assert(after[j] == before[j]);
            }
        }
    }
}

fn remove_from_bucket(
    bucket: &mut TickBucket,
    subscription_id: u128,
    configs: Ghost<Map<u128, Arc<CheckConfig>>>,
    slot: Ghost<int>,
)
    requires
        bucket_holds(old(bucket)@, configs@, slot@),
        keyed_by_subscription(configs@),
        configs@.contains_key(subscription_id),
    ensures
        bucket_holds(final(bucket)@, configs@.remove(subscription_id), slot@),
{
    let ghost before = bucket@;
    let ghost rest = configs@.remove(subscription_id);
    let mut i: usize = 0;
    while i < bucket.len() && bucket[i].subscription_id != subscription_id
        invariant
            i <= bucket@.len(),
            bucket@ == before,
            forall|j: int| 0 <= j < i ==> before[j].subscription_id != subscription_id,
        decreases bucket.len() - i,
    {
        i = i + 1;
    }
    if i < bucket.len() {
        bucket.remove(i);
        proof {
            let after = bucket@;
            assert(after =~= before.remove(i as int));
            assert forall|id: u128|
                #[trigger] rest.contains_key(id) && runs_at(id, rest[id].interval, slot@) implies after.contains(
                rest[id],
            ) by {
                assert(configs@.contains_key(id));
                let k = before.index_of(configs@[id]);
                assert(before[k] == rest[id]);
                if k < i {
                    assert(after[k] == before[k]);
                } else {
                    assert(k != i);
                    assert(after[k - 1] == before[k]);
                }
            }
            assert forall|k: int| 0 <= k < after.len() implies ({
                let c = #[trigger] after[k];
                rest.contains_key(c.subscription_id) && rest[c.subscription_id] == c && runs_at(
                    c.subscription_id,
                    c.interval,
                    slot@,
                )
            }) by {
                if k < i {
                    assert(after[k] == before[k]);
                } else {
                    assert(after[k] == before[k + 1]);
                    assert(before[i as int].subscription_id != before[k + 1].subscription_id);
                }
            }
            assert forall|x: int, y: int| 0 <= x < y < after.len() implies after[x].subscription_id
                != after[y].subscription_id by {
                let bx = if x < i {
                    x
                } else {
                    x + 1
                };
                let by = if y < i {
                    y
                } else {
                    y + 1
                };
                assert(after[x] == before[bx]);
                assert(after[y] == before[by]);
                assert(before[bx].subscription_id != before[by].subscription_id);
            }
        }
    } else {
        proof {
            assert forall|id: u128|
                #[trigger] rest.contains_key(id) && runs_at(id, rest[id].interval, slot@) implies before.contains(
                rest[id],
            ) by {
                assert(configs@.contains_key(id));
            }
            assert forall|k: int| 0 <= k < before.len() implies ({
                let c = #[trigger] before[k];
                rest.contains_key(c.subscription_id) && rest[c.subscription_id] == c && runs_at(
                    c.subscription_id,
                    c.interval,
                    slot@,
                )
            }) by {
                assert(before[k].subscription_id != subscription_id);
            }
        }
    }
}

/// A bucket is untouched by a configuration that does not run at its second.
proof fn lemma_bucket_untouched(
    bucket: Seq<Arc<CheckConfig>>,
    configs: Map<u128, Arc<CheckConfig>>,
    config: Arc<CheckConfig>,
    slot: int,
)
    requires
        keyed_by_subscription(configs),
        !configs.contains_key(config.subscription_id),
        !runs_at(config.subscription_id, config.interval, slot),
    ensures
        bucket_holds(bucket, configs, slot) <==> bucket_holds(
            bucket,
            configs.insert(config.subscription_id, config),
            slot,
        ),
{
    let id = config.subscription_id;
    let more = configs.insert(id, config);
    if bucket_holds(bucket, configs, slot) {
        assert forall|k: u128|
            #[trigger] more.contains_key(k) && runs_at(k, more[k].interval, slot) implies bucket.contains(
            more[k],
        ) by {
            assert(configs.contains_key(k));
        }
    }
    if bucket_holds(bucket, more, slot) {
        assert forall|k: u128|
            #[trigger] configs.contains_key(k) && runs_at(k, configs[k].interval, slot) implies bucket.contains(
            configs[k],
        ) by {
            assert(more.contains_key(k));
        }
    }
}

impl ConfigStore {
    /// The configurations by subscription.
    pub closed spec fn view(&self) -> Map<u128, Arc<CheckConfig>> {
        self.configs@
    }

    /// The checks of a second of the hour.
    pub closed spec fn bucket(&self, slot: int) -> Seq<Arc<CheckConfig>> {
        self.tick_buckets@[slot]@
    }

    /// When the store last changed.
    pub closed spec fn updated(&self) -> Option<tokio::time::Instant> {
        self.last_update
    }

    /// Every configuration stands under its subscription and in exactly the buckets of
    /// the seconds at which it runs.
    pub closed spec fn wf(&self) -> bool {
        &&& self.tick_buckets@.len() == 3600
        &&& keyed_by_subscription(self.configs@)
        &&& forall|slot: int|
            0 <= slot < 3600 ==> bucket_holds(
                #[trigger] self.tick_buckets@[slot]@,
                self.configs@,
                slot,
            )
    }

    /// An empty store.
    pub fn new() -> (r: ConfigStore)
        ensures
            r.wf(),
            r.view() == Map::<u128, Arc<CheckConfig>>::empty(),
            r.updated() is None,
    {
        broadcast use vstd::std_specs::hash::group_hash_axioms;

        let mut tick_buckets: TickBuckets = Vec::new();
        let mut i: usize = 0;
        while i < MAX_CHECK_INTERVAL_SECS
            invariant
                i <= 3600,
                tick_buckets@.len() == i,
                forall|slot: int| 0 <= slot < i ==> (#[trigger] tick_buckets@[slot])@.len() == 0,
            decreases 3600 - i,
        {
            tick_buckets.push(Vec::new());
            i = i + 1;
        }
        ConfigStore { tick_buckets, configs: HashMap::new(), last_update: None }
    }

    /// Adds a configuration, in place of the one that its subscription had. The store
    /// changed at the present instant.
    pub fn add_config(&mut self, config: Arc<CheckConfig>)
        requires
            old(self).wf(),
        ensures
            final(self).wf(),
            final(self).view() == old(self).view().insert(config.subscription_id, config),
            final(self).updated() is Some,
    {
        self.add_config_at(config, now());
    }

    /// Adds a configuration at an instant, in place of the one that its subscription had.
    pub fn add_config_at(&mut self, config: Arc<CheckConfig>, now: tokio::time::Instant)
        requires
            old(self).wf(),
        ensures
            final(self).wf(),
            final(self).view() == old(self).view().insert(config.subscription_id, config),
            final(self).updated() == Some(now),
    {
        broadcast use vstd::std_specs::hash::group_hash_axioms;

        if self.configs.contains_key(&config.subscription_id) {
            self.remove_config_at(config.subscription_id, now);
        }
        let ghost id = config.subscription_id;
        let ghost before = self.configs@;
        let ghost after = before.insert(id, config);
        self.configs.insert(config.subscription_id, share(&config));
        let slots = config.slots();
        proof {
            law_slots_are_spread_over_the_hour(id, config.interval);
        }
        let mut i: usize = 0;
        while i < slots.len()
            invariant
                i <= slots@.len(),
                slots@ == slots_of(id, config.interval),
                id == config.subscription_id,
                !before.contains_key(id),
                after == before.insert(id, config),
                keyed_by_subscription(before),
                self.configs@ == after,
                self.tick_buckets@.len() == 3600,
                forall|slot: usize|
                    slots@.contains(slot) <==> runs_at(id, config.interval, slot as int),
                forall|a: int, b: int| 0 <= a < b < slots@.len() ==> slots@[a] < slots@[b],
                forall|slot: int|
                    0 <= slot < 3600 ==> bucket_holds(
                        #[trigger] self.tick_buckets@[slot]@,
                        if slots@.take(i as int).contains(slot as usize) {
                            after
                        } else {
                            before
                        },
                        slot,
                    ),
            decreases slots.len() - i,
        {
            let slot = slots[i];
            let ghost buckets = self.tick_buckets@;
            proof {
                assert(slots@.contains(slot));
                if slots@.take(i as int).contains(slot) {
                    let j = slots@.take(i as int).index_of(slot);
                    assert(slots@[j] == slot);
                    assert(slots@[j] < slots@[i as int]);
                }
                assert(bucket_holds(buckets[slot as int]@, before, slot as int));
            }
            add_to_bucket(
                &mut self.tick_buckets[slot],
                share(&config),
                Ghost(before),
                Ghost(slot as int),
            );
            proof {
                let done = slots@.take(i as int);
                let next = slots@.take(i + 1);
                assert(next =~= done.push(slot));
                assert forall|s: int| 0 <= s < 3600 implies bucket_holds(
                    #[trigger] self.tick_buckets@[s]@,
                    if next.contains(s as usize) {
                        after
                    } else {
                        before
                    },
                    s,
                ) by {
                    if s == slot {
                        assert(next[i as int] == slot);
                    } else {
                        assert(self.tick_buckets@[s] == buckets[s]);
                        if next.contains(s as usize) {
                            let j = next.index_of(s as usize);
                            assert(done[j] == s as usize);
                        }
                        if done.contains(s as usize) {
                            let j = done.index_of(s as usize);
                            assert(next[j] == s as usize);
                        }
                    }
                }
            }
            i = i + 1;
        }
        proof {
            assert(slots@.take(i as int) =~= slots@);
            assert forall|s: int| 0 <= s < 3600 implies bucket_holds(
                #[trigger] self.tick_buckets@[s]@,
                after,
                s,
            ) by {
                if !slots@.contains(s as usize) {
                    assert(!runs_at(id, config.interval, s as usize as int));
                    lemma_bucket_untouched(self.tick_buckets@[s]@, before, config, s);
                }
            }
        }
        self.last_update = Some(now);
    }

    /// Removes the configuration of a subscription, if it has one. Then the store changed
    /// at the present instant.
    pub fn remove_config(&mut self, subscription_id: u128)
        requires
            old(self).wf(),
        ensures
            final(self).wf(),
            final(self).view() == old(self).view().remove(subscription_id),
            old(self).view().contains_key(subscription_id) ==> final(self).updated() is Some,
            !old(self).view().contains_key(subscription_id) ==> final(self).updated() == old(
                self,
            ).updated(),
    {
        self.remove_config_at(subscription_id, now());
    }

    /// Removes the configuration of a subscription at an instant, if it has one.
    pub fn remove_config_at(&mut self, subscription_id: u128, now: tokio::time::Instant)
        requires
            old(self).wf(),
        ensures
            final(self).wf(),
            final(self).view() == old(self).view().remove(subscription_id),
            final(self).updated() == changed_at(
                old(self).view().contains_key(subscription_id),
                now,
                old(self).updated(),
            ),
    {
        broadcast use vstd::std_specs::hash::group_hash_axioms;

        let ghost id = subscription_id;
        let ghost before = self.configs@;
        let config = match self.configs.remove(&subscription_id) {
            Some(config) => config,
            None => {
                assert(before.remove(id) =~= before);
                return;
            },
        };
        let ghost after = before.remove(id);
        let slots = config.slots();
        proof {
            law_slots_are_spread_over_the_hour(id, config.interval);
            assert(after.insert(id, config) =~= before);
        }
        let mut i: usize = 0;
        while i < slots.len()
            invariant
                i <= slots@.len(),
                slots@ == slots_of(id, config.interval),
                id == subscription_id,
                before.contains_key(id),
                after == before.remove(id),
                keyed_by_subscription(before),
                self.configs@ == after,
                self.tick_buckets@.len() == 3600,
                forall|slot: usize|
                    slots@.contains(slot) <==> runs_at(id, config.interval, slot as int),
                forall|a: int, b: int| 0 <= a < b < slots@.len() ==> slots@[a] < slots@[b],
                forall|slot: int|
                    0 <= slot < 3600 ==> bucket_holds(
                        #[trigger] self.tick_buckets@[slot]@,
                        if slots@.take(i as int).contains(slot as usize) {
                            after
                        } else {
                            before
                        },
                        slot,
                    ),
            decreases slots.len() - i,
        {
            let slot = slots[i];
            let ghost buckets = self.tick_buckets@;
            proof {
                assert(slots@.contains(slot));
                if slots@.take(i as int).contains(slot) {
                    let j = slots@.take(i as int).index_of(slot);
                    assert(slots@[j] == slot);
                    assert(slots@[j] < slots@[i as int]);
                }
                assert(bucket_holds(buckets[slot as int]@, before, slot as int));
            }
            remove_from_bucket(
                &mut self.tick_buckets[slot],
                subscription_id,
                Ghost(before),
                Ghost(slot as int),
            );
            proof {
                let done = slots@.take(i as int);
                let next = slots@.take(i + 1);
                assert(next =~= done.push(slot));
                assert forall|s: int| 0 <= s < 3600 implies bucket_holds(
                    #[trigger] self.tick_buckets@[s]@,
                    if next.contains(s as usize) {
                        after
                    } else {
                        before
                    },
                    s,
                ) by {
                    if s == slot {
                        assert(next[i as int] == slot);
                    } else {
                        assert(self.tick_buckets@[s] == buckets[s]);
                        if next.contains(s as usize) {
                            let j = next.index_of(s as usize);
                            assert(done[j] == s as usize);
                        }
                        if done.contains(s as usize) {
                            let j = done.index_of(s as usize);
                            assert(next[j] == s as usize);
                        }
                    }
                }
            }
            i = i + 1;
        }
        proof {
            assert(slots@.take(i as int) =~= slots@);
            assert forall|s: int| 0 <= s < 3600 implies bucket_holds(
                #[trigger] self.tick_buckets@[s]@,
                after,
                s,
            ) by {
                if !slots@.contains(s as usize) {
                    assert(!runs_at(id, config.interval, s as usize as int));
                    lemma_bucket_untouched(self.tick_buckets@[s]@, after, config, s);
                }
            }
        }
        self.last_update = Some(now);
    }

    /// Every configuration of the store, each once.
    pub fn all_configs(&self) -> (r: Vec<Arc<CheckConfig>>)
        requires
            self.wf(),
        ensures
            r@.len() == self.view().len(),
            forall|i: int|
                0 <= i < r@.len() ==> self.view().contains_key(
                    (#[trigger] r@[i]).subscription_id,
                ) && self.view()[r@[i].subscription_id] == r@[i],
            forall|i: int, j: int|
                0 <= i < j < r@.len() ==> r@[i].subscription_id != r@[j].subscription_id,
            forall|id: u128| #[trigger]
                self.view().contains_key(id) ==> r@.contains(self.view()[id]),
    {
        broadcast use vstd::std_specs::hash::group_hash_axioms;

        let mut all: Vec<Arc<CheckConfig>> = Vec::new();
        for entry in it: self.configs.iter()
            invariant
                all@.len() == it.index(),
                forall|j: int|
                    0 <= j < all@.len() ==> #[trigger] all@[j] == *it.seq()[j].1
                        && all@[j].subscription_id == *it.seq()[j].0,
                forall|j: int|
                    0 <= j < it.seq().len() ==> self.configs@.contains_key(
                        *(#[trigger] it.seq()[j]).0,
                    ) && self.configs@[*it.seq()[j].0] == *it.seq()[j].1,
                it.seq().no_duplicates(),
                keyed_by_subscription(self.configs@),
                forall|id: u128| #[trigger]
                    self.configs@.contains_key(id) ==> all@.contains(self.configs@[id]) || exists|
                        k: int,
                    |
                        it.index() <= k < it.seq().len() && *(#[trigger] it.seq()[k]).1
                            == self.configs@[id],
                forall|i: int, j: int|
                    0 <= i < j < all@.len() ==> all@[i].subscription_id != all@[j].subscription_id,
                forall|i: int|
                    0 <= i < all@.len() ==> self.configs@.contains_key(
                        (#[trigger] all@[i]).subscription_id,
                    ) && self.configs@[all@[i].subscription_id] == all@[i],
        {
            proof {
                let n = it.index() as int;
                assert(it.seq()[n] == entry);
                assert forall|i: int| 0 <= i < n implies all@[i].subscription_id != *entry.0 by {
                    if all@[i].subscription_id == *entry.0 {
                        assert(it.seq()[i] == it.seq()[n]);
                    }
                }
            }
            let ghost before = all@;
            all.push(share(entry.1));
            proof {
                let n = it.index() as int;
                assert(all@[n] == *entry.1);
                assert forall|id: u128| #[trigger]
                    self.configs@.contains_key(id) implies all@.contains(self.configs@[id]) || exists|
                        k: int,
                    |
                        n + 1 <= k < it.seq().len() && *(#[trigger] it.seq()[k]).1
                            == self.configs@[id] by {
                    if before.contains(self.configs@[id]) {
                        let k = before.index_of(self.configs@[id]);
                        assert(all@[k] == self.configs@[id]);
                    }
                }
            }
        }
        all
    }

    /// The configurations that run at a tick, each once.
    pub fn get_configs(&self, tick: Tick) -> (r: TickBucket)
        requires
            self.wf(),
            tick.wf(),
        ensures
            r@ == self.bucket(tick.index as int),
            bucket_holds(r@, self.view(), tick.index as int),
            keyed_by_subscription(self.view()),
    {
        let bucket = &self.tick_buckets[tick.index];
        let mut copy: TickBucket = Vec::new();
        let mut i: usize = 0;
        while i < bucket.len()
            invariant
                i <= bucket@.len(),
                copy@ == bucket@.take(i as int),
            decreases bucket.len() - i,
        {
            copy.push(share(&bucket[i]));
            proof {
                assert(bucket@.take(i + 1) =~= bucket@.take(i as int).push(bucket@[i as int]));
            }
            i = i + 1;
        }
        proof {
            assert(bucket@.take(i as int) =~= bucket@);
        }
        copy
    }

    /// When the store last changed.
    pub fn get_last_update(&self) -> (r: Option<tokio::time::Instant>)
        ensures
            r == self.updated(),
    {
        self.last_update
    }
}

/// Every configuration of a store stands under its subscription and in exactly the
/// buckets of the seconds at which it runs.
pub proof fn law_store_is_kept_in_order(store: ConfigStore, slot: int)
    requires
        store.wf(),
        0 <= slot < 3600,
    ensures
        keyed_by_subscription(store.view()),
        bucket_holds(store.bucket(slot), store.view(), slot),
{
}

/// A check is among those of a second iff its configuration is in the store and runs
/// at that second.
pub proof fn law_scheduled_iff_due(
    bucket: Seq<Arc<CheckConfig>>,
    configs: Map<u128, Arc<CheckConfig>>,
    slot: int,
    subscription_id: u128,
)
    requires
        keyed_by_subscription(configs),
        bucket_holds(bucket, configs, slot),
    ensures
        (exists|i: int|
            0 <= i < bucket.len() && (#[trigger] bucket[i]).subscription_id == subscription_id)
            <==> (configs.contains_key(subscription_id) && runs_at(
            subscription_id,
            configs[subscription_id].interval,
            slot,
        )),
{
    if configs.contains_key(subscription_id) && runs_at(
        subscription_id,
        configs[subscription_id].interval,
        slot,
    ) {
        let i = bucket.index_of(configs[subscription_id]);
        assert(bucket[i].subscription_id == subscription_id);
    }
}

/// Removing the configuration of a new subscription undoes adding it.
pub proof fn law_remove_undoes_add(
    configs: Map<u128, Arc<CheckConfig>>,
    config: Arc<CheckConfig>,
)
    requires
        !configs.contains_key(config.subscription_id),
    ensures
        configs.insert(config.subscription_id, config).remove(config.subscription_id) == configs,
{
    assert(configs.insert(config.subscription_id, config).remove(config.subscription_id)
        =~= configs);
}

/// Of two configurations of one subscription, the later stays, and the store holds
/// no more than before.
pub proof fn law_add_replaces(
    configs: Map<u128, Arc<CheckConfig>>,
    first: Arc<CheckConfig>,
    second: Arc<CheckConfig>,
)
    requires
        first.subscription_id == second.subscription_id,
    ensures
        configs.insert(first.subscription_id, first).insert(second.subscription_id, second)
            == configs.insert(second.subscription_id, second),
{
    assert(configs.insert(first.subscription_id, first).insert(second.subscription_id, second)
        =~= configs.insert(second.subscription_id, second));
}

/// The ticks count through the hour: the epoch is the first second of one, each second is
/// followed by the next, and the last by the first.
pub proof fn law_ticks_count_through_the_hour(secs: i64)
    requires
        0 <= secs < i64::MAX,
    ensures
        tick_index(0) == 0,
        tick_index(secs) < 3599 ==> tick_index((secs + 1) as i64) == tick_index(secs) + 1,
        tick_index(secs) == 3599 ==> tick_index((secs + 1) as i64) == 0,
        0 <= tick_index(secs) < 3600,
{
}

/// Only what changes a store is dated.
pub proof fn law_only_changes_are_dated(
    now: tokio::time::Instant,
    before: Option<tokio::time::Instant>,
)
    ensures
        changed_at(true, now, before) == Some(now),
        changed_at(false, now, before) == before,
{
}

} // verus!
