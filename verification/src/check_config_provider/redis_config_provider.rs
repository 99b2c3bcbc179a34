//! Check configurations that are kept in redis, split into partitions.

use crate::config_store::{changed_at, now, ConfigStore};
use crate::ids;
use crate::manager::{store_replaced, Manager};
use crate::redis_client::{client_of, open_client};
use crate::sets::members;
use crate::text;
use crate::text::{
    decimal, law_the_last_piece_follows_the_last_separator, law_written_numbers_are_read_back, pieces,
    u16_in,
};
use crate::types::check_config::CheckConfig;
use std::collections::HashSet;
use std::sync::Arc;
use vstd::prelude::*;

verus! {

/// A partition, and the keys under which its configurations and their updates are
/// kept.
#[derive(Debug)]
pub struct RedisPartition {
    pub partition: u16,
    pub config_key: String,
    pub update_key: String,
}

impl RedisPartition {
    /// The keys are those of the partition.
    pub open spec fn wf(self) -> bool {
        &&& self.config_key@ == "uptime:configs:"@ + decimal(self.partition as nat)
        &&& self.update_key@ == "uptime:updates:"@ + decimal(self.partition as nat)
    }

    /// A partition with its keys.
    pub fn new(partition: u16) -> (r: RedisPartition)
        ensures
            r.partition == partition,
            r.wf(),
    {
        let number = text::decimal_of(partition as u128);
        RedisPartition {
            partition,
            config_key: "uptime:configs:".to_owned().concat(number.as_str()),
            update_key: "uptime:updates:".to_owned().concat(number.as_str()),
        }
    }
}

/// What happened to a configuration.
#[derive(Clone, Copy, Debug, PartialEq, Eq, Structural)]
pub enum ConfigUpdateAction {
    Upsert,
    Delete,
    SetResponseCapture,
}

/// A notice that something happened to the configuration of a subscription.
#[derive(Clone, Copy, Debug, PartialEq, Eq, Structural)]
pub struct ConfigUpdate {
    pub action: ConfigUpdateAction,
    pub subscription_id: u128,
}

impl ConfigUpdate {
    /// The key of the configuration.
    pub fn redis_key(&self) -> (r: String)
        ensures
            r@ == ids::simple_form(self.subscription_id),
    {
        ids::to_simple(self.subscription_id)
    }
}

impl CheckConfig {
    /// The key of the configuration.
    pub fn redis_key(&self) -> (r: String)
        ensures
            r@ == ids::simple_form(self.subscription_id),
    {
        ids::to_simple(self.subscription_id)
    }
}

/// The updates of one action, in order.
pub open spec fn updates_of(updates: Seq<ConfigUpdate>, action: ConfigUpdateAction) -> Seq<
    ConfigUpdate,
> {
    updates.filter(|u: ConfigUpdate| u.action == action)
}

/// Updates told apart by their action.
#[derive(Debug)]
pub struct SplitUpdates {
    pub upserts: Vec<ConfigUpdate>,
    pub deletes: Vec<ConfigUpdate>,
    pub response_capture_toggles: Vec<ConfigUpdate>,
}

/// Tells updates apart by their action, keeping their order.
pub fn split_updates(updates: &Vec<ConfigUpdate>) -> (r: SplitUpdates)
    ensures
        r.upserts@ == updates_of(updates@, ConfigUpdateAction::Upsert),
        r.deletes@ == updates_of(updates@, ConfigUpdateAction::Delete),
        r.response_capture_toggles@ == updates_of(updates@, ConfigUpdateAction::SetResponseCapture),
{
    let mut upserts: Vec<ConfigUpdate> = Vec::new();
    let mut deletes: Vec<ConfigUpdate> = Vec::new();
    let mut toggles: Vec<ConfigUpdate> = Vec::new();
    let mut i: usize = 0;
    while i < updates.len()
        invariant
            i <= updates@.len(),
            upserts@ == updates_of(updates@.take(i as int), ConfigUpdateAction::Upsert),
            deletes@ == updates_of(updates@.take(i as int), ConfigUpdateAction::Delete),
            toggles@ == updates_of(updates@.take(i as int), ConfigUpdateAction::SetResponseCapture),
        decreases updates.len() - i,
    {
        proof {
            assert(updates@.take(i + 1).drop_last() =~= updates@.take(i as int));
            reveal(Seq::filter);
        }
        let update = updates[i];
        match update.action {
            ConfigUpdateAction::Upsert => upserts.push(update),
            ConfigUpdateAction::Delete => deletes.push(update),
            ConfigUpdateAction::SetResponseCapture => toggles.push(update),
        }
        i = i + 1;
    }
    proof {
        assert(updates@.take(i as int) =~= updates@);
    }
    SplitUpdates { upserts, deletes, response_capture_toggles: toggles }
}

/// The keys of the configurations that updates speak of.
pub fn update_keys(updates: &Vec<ConfigUpdate>) -> (r: Vec<String>)
    ensures
        r@.len() == updates@.len(),
        forall|i: int|
            0 <= i < r@.len() ==> (#[trigger] r@[i])@ == ids::simple_form(
                updates@[i].subscription_id,
            ),
{
    let mut keys: Vec<String> = Vec::new();
    let mut i: usize = 0;
    while i < updates.len()
        invariant
            i <= updates@.len(),
            keys@.len() == i,
            forall|j: int|
                0 <= j < i ==> (#[trigger] keys@[j])@ == ids::simple_form(
                    updates@[j].subscription_id,
                ),
        decreases updates.len() - i,
    {
        keys.push(updates[i].redis_key());
        i = i + 1;
    }
    keys
}

/// The configurations without those of deleted subscriptions.
pub open spec fn without(
    configs: Map<u128, Arc<CheckConfig>>,
    deletes: Seq<ConfigUpdate>,
) -> Map<u128, Arc<CheckConfig>>
    decreases deletes.len(),
{
    if deletes.len() == 0 {
        configs
    } else {
        without(configs, deletes.drop_last()).remove(deletes.last().subscription_id)
    }
}

/// The configurations with others put in, one behind the other.
pub open spec fn with_all(
    configs: Map<u128, Arc<CheckConfig>>,
    added: Seq<CheckConfig>,
) -> Map<u128, Arc<CheckConfig>>
    decreases added.len(),
{
    if added.len() == 0 {
        configs
    } else {
        with_all(configs, added.drop_last()).insert(
            added.last().subscription_id,
            Arc::new(added.last()),
        )
    }
}

/// A deleted subscription has a configuration.
pub open spec fn takes_out(
    configs: Map<u128, Arc<CheckConfig>>,
    deletes: Seq<ConfigUpdate>,
) -> bool {
    exists|i: int|
        0 <= i < deletes.len() && configs.contains_key((#[trigger] deletes[i]).subscription_id)
}

/// Takes the configurations of deleted subscriptions out of a store at an instant.
fn apply_deletes(
    store: &mut ConfigStore,
    deletes: &Vec<ConfigUpdate>,
    now: tokio::time::Instant,
)
    requires
        old(store).wf(),
    ensures
        final(store).wf(),
        final(store).view() == without(old(store).view(), deletes@),
        final(store).updated() == changed_at(
            takes_out(old(store).view(), deletes@),
            now,
            old(store).updated(),
        ),
{
    let mut i: usize = 0;
    while i < deletes.len()
        invariant
            i <= deletes@.len(),
            store.wf(),
            store.view() == without(old(store).view(), deletes@.take(i as int)),
            store.updated() == changed_at(
                takes_out(old(store).view(), deletes@.take(i as int)),
                now,
                old(store).updated(),
            ),
        decreases deletes.len() - i,
    {
        let ghost done = deletes@.take(i as int);
        let ghost next = deletes@.take(i + 1);
        proof {
            assert(next.drop_last() =~= done);
            assert(next[i as int] == deletes@[i as int]);
            assert(forall|j: int| 0 <= j < i ==> done[j] == next[j]);
            law_deletes_take_out_no_others(
                old(store).view(),
                done,
                deletes@[i as int].subscription_id,
            );
        }
        store.remove_config_at(deletes[i].subscription_id, now);
        i = i + 1;
    }
    proof {
        assert(deletes@.take(i as int) =~= deletes@);
    }
}

/// Puts configurations into a store at an instant.
fn apply_upserts(store: &mut ConfigStore, configs: Vec<CheckConfig>, now: tokio::time::Instant)
    requires
        old(store).wf(),
    ensures
        final(store).wf(),
        final(store).view() == with_all(old(store).view(), configs@),
        final(store).updated() == changed_at(configs@.len() > 0, now, old(store).updated()),
{
    let ghost all = configs@;
    let mut left = configs;
    let mut reversed: Vec<CheckConfig> = Vec::new();
    while left.len() > 0
        invariant
            left@.len() + reversed@.len() == all.len(),
            left@ == all.take(left@.len() as int),
            forall|j: int|
                0 <= j < reversed@.len() ==> #[trigger] reversed@[j] == all[all.len() - 1 - j],
        decreases left.len(),
    {
        match left.pop() {
            Some(config) => reversed.push(config),
            None => {},
        }
    }
    let ghost mut i: int = 0;
    while reversed.len() > 0
        invariant
            0 <= i <= all.len(),
            reversed@.len() == all.len() - i,
            forall|j: int|
                0 <= j < reversed@.len() ==> #[trigger] reversed@[j] == all[all.len() - 1 - j],
            store.wf(),
            store.view() == with_all(old(store).view(), all.take(i)),
            store.updated() == changed_at(i > 0, now, old(store).updated()),
        decreases reversed.len(),
    {
        match reversed.pop() {
            Some(config) => {
                proof {
                    assert(config == all[i]);
                    assert(all.take(i + 1).drop_last() =~= all.take(i));
                    assert(all.take(i + 1).last() == config);
                    i = i + 1;
                }
                store.add_config_at(Arc::new(config), now);
            },
            None => {},
        }
    }
    proof {
        assert(all.take(i) =~= all);
    }
}

/// What is done first with the updates of a partition: the deleted configurations
/// leave it, and the keys of the changed ones are to be fetched. Without any changed
/// ones nothing is left to do.
pub fn begin_update(manager: &mut Manager, partition: u16, updates: &Vec<ConfigUpdate>) -> (r:
    Option<Vec<String>>)
    requires
        old(manager).wf(),
        old(manager).view().contains_key(partition),
    ensures
        final(manager).wf(),
        store_replaced(
            old(manager).view(),
            final(manager).view(),
            partition,
            without(
                old(manager).view()[partition].store().view(),
                updates_of(updates@, ConfigUpdateAction::Delete),
            ),
        ),
        ({
            let before = old(manager).view()[partition].store();
            let after = final(manager).view()[partition].store();
            if takes_out(before.view(), updates_of(updates@, ConfigUpdateAction::Delete)) {
                after.updated() is Some
            } else {
                after.updated() == before.updated()
            }
        }),
        ({
            let upserts = updates_of(updates@, ConfigUpdateAction::Upsert);
            match r {
                None => upserts.len() == 0,
                Some(keys) => upserts.len() > 0 && keys@.len() == upserts.len() && forall|i: int|
                    0 <= i < keys@.len() ==> (#[trigger] keys@[i])@ == ids::simple_form(
                        upserts[i].subscription_id,
                    ),
            }
        }),
{
    begin_update_at(manager, partition, updates, now())
}

/// What is done first with the updates of a partition: the deleted configurations
/// leave it, and the keys of the changed ones are to be fetched. Without any changed
/// ones nothing is left to do. The partition changes at the instant.
pub fn begin_update_at(
    manager: &mut Manager,
    partition: u16,
    updates: &Vec<ConfigUpdate>,
    now: tokio::time::Instant,
) -> (r: Option<Vec<String>>)
    requires
        old(manager).wf(),
        old(manager).view().contains_key(partition),
    ensures
        final(manager).wf(),
        store_replaced(
            old(manager).view(),
            final(manager).view(),
            partition,
            without(
                old(manager).view()[partition].store().view(),
                updates_of(updates@, ConfigUpdateAction::Delete),
            ),
        ),
        ({
            let before = old(manager).view()[partition].store();
            let after = final(manager).view()[partition].store();
            after.updated() == changed_at(
                takes_out(before.view(), updates_of(updates@, ConfigUpdateAction::Delete)),
                now,
                before.updated(),
            )
        }),
        ({
            let upserts = updates_of(updates@, ConfigUpdateAction::Upsert);
            match r {
                None => upserts.len() == 0,
                Some(keys) => upserts.len() > 0 && keys@.len() == upserts.len() && forall|i: int|
                    0 <= i < keys@.len() ==> (#[trigger] keys@[i])@ == ids::simple_form(
                        upserts[i].subscription_id,
                    ),
            }
        }),
{
    let split = split_updates(updates);
    let mut service = manager.take_service(partition);
    apply_deletes(service.config_store_mut(), &split.deletes, now);
    manager.put_service(service);
    if split.upserts.len() == 0 {
        None
    } else {
        Some(update_keys(&split.upserts))
    }
}

/// Puts configurations that were fetched into a partition: those of a changed
/// subscription, or all of them when the partition is loaded.
pub fn load_configs(manager: &mut Manager, partition: u16, configs: Vec<CheckConfig>)
    requires
        old(manager).wf(),
        old(manager).view().contains_key(partition),
    ensures
        final(manager).wf(),
        store_replaced(
            old(manager).view(),
            final(manager).view(),
            partition,
            with_all(old(manager).view()[partition].store().view(), configs@),
        ),
        configs@.len() > 0 ==> final(manager).view()[partition].store().updated() is Some,
        configs@.len() == 0 ==> final(manager).view()[partition].store().updated()
            == old(manager).view()[partition].store().updated(),
{
    load_configs_at(manager, partition, configs, now());
}

/// Puts configurations that were fetched into a partition: those of a changed
/// subscription, or all of them when the partition is loaded. The partition changes at
/// the instant.
pub fn load_configs_at(
    manager: &mut Manager,
    partition: u16,
    configs: Vec<CheckConfig>,
    now: tokio::time::Instant,
)
    requires
        old(manager).wf(),
        old(manager).view().contains_key(partition),
    ensures
        final(manager).wf(),
        store_replaced(
            old(manager).view(),
            final(manager).view(),
            partition,
            with_all(old(manager).view()[partition].store().view(), configs@),
        ),
        final(manager).view()[partition].store().updated() == changed_at(
            configs@.len() > 0,
            now,
            old(manager).view()[partition].store().updated(),
        ),
{
    let mut service = manager.take_service(partition);
    apply_upserts(service.config_store_mut(), configs, now);
    manager.put_service(service);
}

/// Keeps the configurations of some partitions up to date.
pub struct RedisConfigProvider {
    redis: redis::Client,
    partitions: HashSet<u16>,
    check_interval_ms: u64,
}

impl RedisConfigProvider {
    /// The client of the node that is asked.
    pub closed spec fn client(self) -> redis::Client {
        self.redis
    }

    /// The partitions that are kept up to date.
    pub closed spec fn owns(self) -> Set<u16> {
        self.partitions@
    }

    /// How often the node is asked, in milliseconds.
    pub closed spec fn interval(self) -> u64 {
        self.check_interval_ms
    }

    /// A provider that asks the node of a URL about some partitions.
    pub fn new(redis_url: &str, partitions: HashSet<u16>, check_interval_ms: u64) -> (r: Result<
        RedisConfigProvider,
        redis::RedisError,
    >)
        ensures
            r is Ok <==> client_of(redis_url@) is Some,
            r matches Ok(p) ==> p.client() == client_of(redis_url@)->0 && p.owns() == partitions@
                && p.interval() == check_interval_ms,
    {
        match open_client(redis_url) {
            Ok(redis) => Ok(RedisConfigProvider { redis, partitions, check_interval_ms }),
            Err(e) => Err(e),
        }
    }

    /// The client of the node that is asked.
    pub fn get_client(&self) -> (r: &redis::Client)
        ensures
            *r == self.client(),
    {
        &self.redis
    }

    /// How often the node is asked, in milliseconds.
    pub fn get_check_interval_ms(&self) -> (r: u64)
        ensures
            r == self.interval(),
    {
        self.check_interval_ms
    }

    /// Each of its partitions once, with its keys.
    pub fn get_partition_keys(&self) -> (r: Vec<RedisPartition>)
        ensures
            r@.len() == self.owns().len(),
            forall|i: int|
                0 <= i < r@.len() ==> (#[trigger] r@[i]).wf() && self.owns().contains(
                    r@[i].partition,
                ),
            forall|i: int, j: int|
                0 <= i < j < r@.len() ==> r@[i].partition != r@[j].partition,
            forall|p: u16| #[trigger]
                self.owns().contains(p) ==> exists|i: int|
                    0 <= i < r@.len() && (#[trigger] r@[i]).partition == p,
    {
        let owned = members(&self.partitions);
        let mut keys: Vec<RedisPartition> = Vec::new();
        let mut i: usize = 0;
        while i < owned.len()
            invariant
                i <= owned@.len(),
                keys@.len() == i,
                forall|j: int|
                    0 <= j < i ==> (#[trigger] keys@[j]).wf() && keys@[j].partition == owned@[j],
            decreases owned.len() - i,
        {
            keys.push(RedisPartition::new(owned[i]));
            i = i + 1;
        }
        proof {
            assert forall|j: int| 0 <= j < keys@.len() implies (#[trigger] keys@[j]).wf()
                && self.owns().contains(keys@[j].partition) by {
                assert(owned@.contains(owned@[j]));
            }
            assert forall|p: u16| #[trigger] self.owns().contains(p) implies exists|j: int|
                0 <= j < keys@.len() && (#[trigger] keys@[j]).partition == p by {
                let j = owned@.index_of(p);
                assert(keys@[j].partition == p);
            }
        }
        keys
    }
}

/// The number of a checker, which stands behind the last hyphen of its name.
pub open spec fn number_in(checker_id: Seq<char>) -> Option<int> {
    u16_in(pieces(checker_id, '-').last())
}

/// The number of a checker.
pub fn checker_number_of(checker_id: &str) -> (r: Option<u16>)
    ensures
        match r {
            Some(n) => number_in(checker_id@) == Some(n as int),
            None => number_in(checker_id@) is None,
        },
{
    let parts = text::split(checker_id, '-');
    proof {
        assert(text::chars_of(parts@).last() == parts@.last()@);
    }
    text::parse_u16(parts[parts.len() - 1].as_str())
}

/// A partition belongs to a checker.
pub open spec fn owned_by(partition: int, checker_number: u16, total_checkers: u16) -> bool {
    partition % total_checkers as int == checker_number
}

/// The partitions that belong to a checker: every `total_checkers`th from its own
/// number on.
pub fn partitions_of_number(checker_number: u16, total_checkers: u16, total_partitions: u16) -> (r:
    HashSet<u16>)
    requires
        checker_number < total_checkers,
    ensures
        forall|p: u16|
            r@.contains(p) <==> p < total_partitions && owned_by(
                p as int,
                checker_number,
                total_checkers,
            ),
{
    broadcast use vstd::std_specs::hash::group_hash_axioms;

    let mut owned: HashSet<u16> = HashSet::new();
    let mut next: u32 = checker_number as u32;
    let ghost mut k: int = 0;
    proof {
        assert forall|p: u16| p < next implies !owned_by(
            p as int,
            checker_number,
            total_checkers,
        ) by {
            vstd::arithmetic::div_mod::lemma_small_mod(p as nat, total_checkers as nat);
        }
    }
    while next < total_partitions as u32
        invariant
            checker_number < total_checkers,
            0 <= k,
            next == checker_number + total_checkers * k,
            next <= total_partitions + total_checkers,
            forall|p: u16|
                owned@.contains(p) <==> p < next && p < total_partitions && owned_by(
                    p as int,
                    checker_number,
                    total_checkers,
                ),
        decreases total_partitions as int + total_checkers as int - next,
    {
        let ghost before = owned@;
        let ghost at = next;
        proof {
            vstd::arithmetic::div_mod::lemma_mod_multiples_vanish(
                k,
                checker_number as int,
                total_checkers as int,
            );
            vstd::arithmetic::div_mod::lemma_small_mod(
                checker_number as nat,
                total_checkers as nat,
            );
            assert(total_checkers * k + checker_number == next);
        }
        owned.insert(next as u16);
        next = next + total_checkers as u32;
        proof {
            assert(total_checkers * (k + 1) == total_checkers * k + total_checkers)
                by (nonlinear_arith);
            assert forall|p: u16| at < p < next implies !owned_by(
                p as int,
                checker_number,
                total_checkers,
            ) by {
                let d = p - at;
                vstd::arithmetic::div_mod::lemma_mod_multiples_vanish(
                    k,
                    checker_number + d,
                    total_checkers as int,
                );
                assert(total_checkers * k + (checker_number + d) == p);
                if checker_number + d < total_checkers {
                    vstd::arithmetic::div_mod::lemma_small_mod(
                        (checker_number + d) as nat,
                        total_checkers as nat,
                    );
                } else {
                    vstd::arithmetic::div_mod::lemma_mod_multiples_vanish(
                        1,
                        checker_number + d - total_checkers,
                        total_checkers as int,
                    );
                    vstd::arithmetic::div_mod::lemma_small_mod(
                        (checker_number + d - total_checkers) as nat,
                        total_checkers as nat,
                    );
                }
            }
            k = k + 1;
        }
    }
    owned
}

/// Why a checker owns no partitions.
#[derive(Debug)]
pub enum OwnershipError {
    NoNumber,
    NumberTooHigh { checker_number: u16, total_checkers: u16 },
}

impl OwnershipError {
    /// The error as a sentence.
    pub open spec fn sentence(self) -> Seq<char> {
        match self {
            OwnershipError::NoNumber => "checker_id does not contain a valid checker_number"@,
            OwnershipError::NumberTooHigh { checker_number, total_checkers } => "checker_number "@
                + decimal(checker_number as nat) + " must be less than total_checkers "@ + decimal(
                total_checkers as nat,
            ),
        }
    }

    /// The error as a sentence.
    pub fn message(&self) -> (r: String)
        ensures
            r@ == self.sentence(),
    {
        match self {
            OwnershipError::NoNumber =>
            "checker_id does not contain a valid checker_number".to_owned(),
            OwnershipError::NumberTooHigh { checker_number, total_checkers } =>
            "checker_number ".to_owned().concat(
                text::decimal_of(*checker_number as u128).as_str(),
            ).concat(" must be less than total_checkers ").concat(
                text::decimal_of(*total_checkers as u128).as_str(),
            ),
        }
    }
}

/// The partitions that belong to the checker of a name.
pub fn determine_owned_partitions(
    checker_id: &str,
    total_checkers: u16,
    total_partitions: u16,
) -> (r: HashSet<u16>)
    requires
        number_in(checker_id@) matches Some(n) && n < total_checkers,
    ensures
        forall|p: u16|
            r@.contains(p) <==> p < total_partitions && owned_by(
                p as int,
                number_in(checker_id@)->0 as u16,
                total_checkers,
            ),
{
    let checker_number = checker_number_of(checker_id).unwrap();
    partitions_of_number(checker_number, total_checkers, total_partitions)
}

/// The partitions that belong to the checker of a name, or why none do.
pub fn find_owned_partitions(checker_id: &str, total_checkers: u16, total_partitions: u16) -> (r:
    Result<HashSet<u16>, OwnershipError>)
    ensures
        match number_in(checker_id@) {
            None => r matches Err(OwnershipError::NoNumber),
            Some(n) => if n >= total_checkers {
                r matches Err(OwnershipError::NumberTooHigh { checker_number, total_checkers: t })
                    && checker_number == n && t == total_checkers
            } else {
                r matches Ok(owned) && forall|p: u16|
                    owned@.contains(p) <==> p < total_partitions && owned_by(
                        p as int,
                        n as u16,
                        total_checkers,
                    )
            },
        },
{
    match checker_number_of(checker_id) {
        None => Err(OwnershipError::NoNumber),
        Some(checker_number) => if checker_number >= total_checkers {
            Err(OwnershipError::NumberTooHigh { checker_number, total_checkers })
        } else {
            Ok(determine_owned_partitions(checker_id, total_checkers, total_partitions))
        },
    }
}

/// Every partition belongs to exactly one of the checkers.
pub proof fn law_every_partition_has_one_owner(partition: u16, total_checkers: u16)
    requires
        0 < total_checkers,
    ensures
        exists|n: u16|
            n < total_checkers && #[trigger] owned_by(partition as int, n, total_checkers),
        forall|m: u16, n: u16|
            #[trigger] owned_by(partition as int, m, total_checkers) && #[trigger] owned_by(
                partition as int,
                n,
                total_checkers,
            ) ==> m == n,
{
    let n = (partition as int % total_checkers as int) as u16;
    assert(owned_by(partition as int, n, total_checkers));
}

/// A configuration that was loaded is there, under its subscription, as the last of
/// those that were loaded for it.
pub proof fn law_loaded_configs_are_there(
    configs: Map<u128, Arc<CheckConfig>>,
    added: Seq<CheckConfig>,
    i: int,
)
    requires
        0 <= i < added.len(),
        forall|j: int| i < j < added.len() ==> (#[trigger] added[j]).subscription_id
            != added[i].subscription_id,
    ensures
        with_all(configs, added).contains_key(added[i].subscription_id),
        *with_all(configs, added)[added[i].subscription_id] == added[i],
    decreases added.len(),
{
    if i < added.len() - 1 {
        let fewer = added.drop_last();
        assert forall|j: int| i < j < fewer.len() implies (#[trigger] fewer[j]).subscription_id
            != fewer[i].subscription_id by {
            assert(fewer[j] == added[j]);
        }
        assert(added[added.len() - 1].subscription_id != added[i].subscription_id);
        law_loaded_configs_are_there(configs, fewer, i);
    }
}

/// A deleted configuration is gone, and one of another subscription stays as it was.
pub proof fn law_deletes_take_out_no_others(
    configs: Map<u128, Arc<CheckConfig>>,
    deletes: Seq<ConfigUpdate>,
    subscription_id: u128,
)
    ensures
        without(configs, deletes).contains_key(subscription_id) <==> configs.contains_key(
            subscription_id,
        ) && forall|i: int|
            0 <= i < deletes.len() ==> (#[trigger] deletes[i]).subscription_id != subscription_id,
        without(configs, deletes).contains_key(subscription_id) ==> without(
            configs,
            deletes,
        )[subscription_id] == configs[subscription_id],
    decreases deletes.len(),
{
    if deletes.len() > 0 {
        let fewer = deletes.drop_last();
        law_deletes_take_out_no_others(configs, fewer, subscription_id);
        assert(deletes[deletes.len() - 1] == deletes.last());
        assert(forall|i: int| 0 <= i < fewer.len() ==> fewer[i] == deletes[i]);
    }
}

/// A checker owns the partition of its own number, and from each partition that it owns
/// the one as many places further on as there are checkers, and none between.
pub proof fn law_partitions_are_dealt_round(
    checker_number: u16,
    total_checkers: u16,
    partition: int,
)
    requires
        checker_number < total_checkers,
        0 <= partition,
    ensures
        owned_by(checker_number as int, checker_number, total_checkers),
        owned_by(partition, checker_number, total_checkers) <==> owned_by(
            partition + total_checkers,
            checker_number,
            total_checkers,
        ),
        forall|between: int|
            partition < between < partition + total_checkers && owned_by(
                partition,
                checker_number,
                total_checkers,
            ) ==> !#[trigger] owned_by(between, checker_number, total_checkers),
{
    let n = total_checkers as int;
    vstd::arithmetic::div_mod::lemma_small_mod(checker_number as nat, n as nat);
    vstd::arithmetic::div_mod::lemma_mod_add_multiples_vanish(partition, n);
    assert forall|between: int|
        partition < between < partition + total_checkers && owned_by(
            partition,
            checker_number,
            total_checkers,
        ) implies !#[trigger] owned_by(between, checker_number, total_checkers) by {
        if owned_by(between, checker_number, total_checkers) {
            vstd::arithmetic::div_mod::lemma_fundamental_div_mod(partition, n);
            vstd::arithmetic::div_mod::lemma_fundamental_div_mod(between, n);
            let q = between / n - partition / n;
            assert(between - partition == n * q) by (nonlinear_arith)
                requires
                    between == n * (between / n) + between % n,
                    partition == n * (partition / n) + partition % n,
                    between % n == partition % n,
                    q == between / n - partition / n,
            ;
            assert(false) by (nonlinear_arith)
                requires
                    0 < n * q < n,
                    0 < n,
            ;
        }
    }
}

/// The number of a checker is the one behind the last hyphen of its name, whatever stands
/// before.
pub proof fn law_checkers_are_numbered_by_their_names(front: Seq<char>, number: u16)
    ensures
        number_in(front.push('-') + decimal(number as nat)) == Some(number as int),
        number_in(decimal(number as nat)) == Some(number as int),
{
    let digits = decimal(number as nat);
    law_written_numbers_are_read_back(number);
    assert(!digits.contains('-'));
    law_the_last_piece_follows_the_last_separator(front, digits, '-');
    lemma_no_separator(digits, '-');
}

proof fn lemma_no_separator(s: Seq<char>, separator: char)
    requires
        !s.contains(separator),
    ensures
        pieces(s, separator) == seq![s],
    decreases s.len(),
{
    if s.len() > 0 {
        let shorter = s.drop_last();
        assert(s[s.len() - 1] == s.last());
        assert(!shorter.contains(separator)) by {
            if shorter.contains(separator) {
                let i = shorter.index_of(separator);
                assert(s[i] == separator);
            }
        }
        lemma_no_separator(shorter, separator);
        assert(shorter.push(s.last()) =~= s);
        assert(pieces(s, separator) =~= seq![s]);
    } else {
        assert(s =~= Seq::<char>::empty());
    }
}

/// A configuration of a subscription for which none is loaded stays as it was.
pub proof fn law_loading_touches_no_others(
    configs: Map<u128, Arc<CheckConfig>>,
    added: Seq<CheckConfig>,
    subscription_id: u128,
)
    requires
        forall|i: int|
            0 <= i < added.len() ==> (#[trigger] added[i]).subscription_id != subscription_id,
    ensures
        with_all(configs, added).contains_key(subscription_id) == configs.contains_key(
            subscription_id,
        ),
        configs.contains_key(subscription_id) ==> with_all(configs, added)[subscription_id]
            == configs[subscription_id],
    decreases added.len(),
{
    if added.len() > 0 {
        let fewer = added.drop_last();
        assert forall|i: int| 0 <= i < fewer.len() implies (#[trigger] fewer[i]).subscription_id
            != subscription_id by {
            assert(fewer[i] == added[i]);
        }
        assert(added[added.len() - 1].subscription_id != subscription_id);
        law_loading_touches_no_others(configs, fewer, subscription_id);
    }
}

/// Each update is told apart by its own action, and none is lost.
pub proof fn law_updates_are_told_apart(updates: Seq<ConfigUpdate>, i: int)
    requires
        0 <= i < updates.len(),
    ensures
        updates_of(updates, updates[i].action).contains(updates[i]),
        updates_of(updates, ConfigUpdateAction::Upsert).len() + updates_of(
            updates,
            ConfigUpdateAction::Delete,
        ).len() + updates_of(updates, ConfigUpdateAction::SetResponseCapture).len()
            == updates.len(),
    decreases updates.len(),
{
    reveal(Seq::filter);
    let rest = updates.drop_last();
    if rest.len() > 0 {
        if i < rest.len() {
            law_updates_are_told_apart(rest, i);
            let kept = updates_of(rest, updates[i].action);
            let k = kept.index_of(updates[i]);
            assert(updates_of(updates, updates[i].action)[k] == updates[i]);
        } else {
            law_updates_are_told_apart(rest, 0);
        }
    } else {
        assert(updates_of(rest, ConfigUpdateAction::Upsert).len() == 0);
        assert(updates_of(rest, ConfigUpdateAction::Delete).len() == 0);
        assert(updates_of(rest, ConfigUpdateAction::SetResponseCapture).len() == 0);
    }
    if i == updates.len() - 1 {
        let all = updates_of(updates, updates[i].action);
        assert(all[all.len() - 1] == updates[i]);
    }
}

} // verus!
