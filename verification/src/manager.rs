//! The partitions that a checker is responsible for.

use crate::app::config::{CheckerMode, Config, ProducerMode};
use crate::check_executor::ExecutorConfig;
use crate::checker::ip_filter::{is_private, lies_in_any, private_v4, private_v6, IpAddress};
use crate::checker::isahc_checker::{IsahcChecker, REDIRECT_LIMIT};
use crate::checker::reqwest_checker::{ReqwestChecker, UPTIME_USER_AGENT};
use crate::config_store::{changed_at, now, ConfigStore};
use crate::logging::{copy_text, same_text};
use crate::sets::members;
use crate::text;
use crate::text::{chars_of, decimal, law_written_numbers_are_read_back};
use crate::types::check_config::CheckConfig;
use std::collections::{HashMap, HashSet};
use std::sync::Arc;
use vstd::prelude::*;

verus! {

/// What makes the requests, by its settings.
#[derive(Debug)]
pub enum CheckerSettings {
    Reqwest(ReqwestChecker),
    Isahc(IsahcChecker),
}

/// Where results go, and how.
#[derive(Debug)]
#[allow(inconsistent_fields)]
pub enum ProducerSettings {
    Vector {
        topic: String,
        endpoint: String,
        batch_size: usize,
        retry_errors_forever: bool,
        region: String,
    },
    Kafka {
        topic: String,
        cluster: Vec<String>,
        /// The setting `compression.type`.
        compression: String,
    },
}

/// What is started, and how.
#[derive(Debug)]
pub struct StartPlan {
    pub checker: CheckerSettings,
    pub executor: ExecutorConfig,
    pub producer: ProducerSettings,
}

/// Lists of addresses that may be missing are the same.
pub open spec fn same_addresses(a: Option<Vec<IpAddress>>, b: Option<Vec<IpAddress>>) -> bool {
    match (a, b) {
        (Some(x), Some(y)) => x@ == y@,
        (None, None) => true,
        _ => false,
    }
}

/// The checker is the one that a configuration asks for.
pub open spec fn checker_follows(checker: CheckerSettings, config: Config) -> bool {
    match config.checker_mode {
        CheckerMode::Reqwest => {
            &&& checker matches CheckerSettings::Reqwest(c)
            &&& c.user_agent@ == UPTIME_USER_AGENT@
            &&& c.tls_info
            &&& c.external_only == !config.allow_internal_ips
            &&& c.pool_idle_timeout_secs == config.pool_idle_timeout_secs
            &&& c.pool_max_idle_per_host == (if config.disable_connection_reuse {
                Some(0usize)
            } else {
                None
            })
            &&& same_addresses(c.dns_nameservers, config.http_checker_dns_nameservers)
            &&& same_text(c.interface, config.interface)
        },
        CheckerMode::Isahc => {
            &&& checker matches CheckerSettings::Isahc(c)
            &&& c.user_agent@ == UPTIME_USER_AGENT@
            &&& c.redirect_limit == REDIRECT_LIMIT
            &&& c.connection_cache_ttl_secs == config.pool_idle_timeout_secs
            &&& c.connection_cache_size == (if config.disable_connection_reuse {
                Some(0usize)
            } else {
                None
            })
            &&& c.ipv4_blacklist@ == (if config.allow_internal_ips {
                Seq::empty()
            } else {
                private_v4()
            })
            &&& c.ipv6_blacklist@ == (if config.allow_internal_ips {
                Seq::empty()
            } else {
                private_v6()
            })
            &&& same_text(c.interface, config.interface)
        },
    }
}

/// The results go where a configuration says.
pub open spec fn producer_follows(producer: ProducerSettings, config: Config) -> bool {
    match config.producer_mode {
        ProducerMode::Vector => {
            &&& producer matches ProducerSettings::Vector {
                topic,
                endpoint,
                batch_size,
                retry_errors_forever,
                region,
            }
            &&& topic@ == config.results_kafka_topic@
            &&& endpoint@ == config.vector_endpoint@
            &&& batch_size == config.vector_batch_size
            &&& retry_errors_forever == config.retry_vector_errors_forever
            &&& region@ == config.region@
        },
        ProducerMode::Kafka => {
            &&& producer matches ProducerSettings::Kafka { topic, cluster, compression }
            &&& topic@ == config.results_kafka_topic@
            &&& chars_of(cluster@) == chars_of(config.results_kafka_cluster@)
            &&& compression@ == "lz4"@
        },
    }
}

fn copy_addresses(addresses: &Option<Vec<IpAddress>>) -> (r: Option<Vec<IpAddress>>)
    ensures
        same_addresses(r, *addresses),
{
    match addresses {
        None => None,
        Some(all) => {
            let mut copy: Vec<IpAddress> = Vec::new();
            let mut i: usize = 0;
            while i < all.len()
                invariant
                    i <= all@.len(),
                    copy@ == all@.take(i as int),
                decreases all.len() - i,
            {
                copy.push(all[i]);
                proof {
                    assert(all@.take(i + 1) =~= all@.take(i as int).push(all@[i as int]));
                }
                i = i + 1;
            }
            proof {
                assert(all@.take(i as int) =~= all@);
            }
            Some(copy)
        },
    }
}

fn copy_texts(texts: &Vec<String>) -> (r: Vec<String>)
    ensures
        chars_of(r@) == chars_of(texts@),
{
    let mut copy: Vec<String> = Vec::new();
    let mut i: usize = 0;
    while i < texts.len()
        invariant
            i <= texts@.len(),
            copy@.len() == i,
            forall|j: int| 0 <= j < i ==> (#[trigger] copy@[j])@ == texts@[j]@,
        decreases texts.len() - i,
    {
        copy.push(texts[i].clone());
        i = i + 1;
    }
    proof {
        assert(chars_of(copy@) =~= chars_of(texts@));
    }
    copy
}

/// What a configuration starts, and how.
pub fn plan_start(config: &Config) -> (r: StartPlan)
    ensures
        checker_follows(r.checker, *config),
        r.executor.concurrency == config.checker_concurrency,
        r.executor.checker_parallel == config.checker_parallel,
        r.executor.failure_retries == config.failure_retries,
        r.executor.region@ == config.region@,
        r.executor.record_task_metrics == config.record_task_metrics,
        producer_follows(r.producer, *config),
{
    let checker = match config.checker_mode {
        CheckerMode::Reqwest => CheckerSettings::Reqwest(
            ReqwestChecker::new(
                !config.allow_internal_ips,
                config.disable_connection_reuse,
                config.pool_idle_timeout_secs,
                copy_addresses(&config.http_checker_dns_nameservers),
                copy_text(&config.interface),
            ),
        ),
        CheckerMode::Isahc => CheckerSettings::Isahc(
            IsahcChecker::new(
                !config.allow_internal_ips,
                config.disable_connection_reuse,
                config.pool_idle_timeout_secs,
                copy_text(&config.interface),
            ),
        ),
    };
    let executor = ExecutorConfig {
        concurrency: config.checker_concurrency,
        checker_parallel: config.checker_parallel,
        failure_retries: config.failure_retries,
        region: config.region.clone(),
        record_task_metrics: config.record_task_metrics,
    };
    let producer = match config.producer_mode {
        ProducerMode::Vector => ProducerSettings::Vector {
            topic: config.results_kafka_topic.clone(),
            endpoint: config.vector_endpoint.clone(),
            batch_size: config.vector_batch_size,
            retry_errors_forever: config.retry_vector_errors_forever,
            region: config.region.clone(),
        },
        ProducerMode::Kafka => ProducerSettings::Kafka {
            topic: config.results_kafka_topic.clone(),
            cluster: copy_texts(&config.results_kafka_cluster),
            compression: "lz4".to_owned(),
        },
    };
    StartPlan { checker, executor, producer }
}

/// What runs for a partition.
#[derive(Debug)]
pub struct PartitionedService {
    partition: u16,
    config_store: ConfigStore,
}

/// The key under which the progress of a partition is kept.
pub open spec fn progress_key(partition: u16) -> Seq<char> {
    "scheduler_process::"@ + decimal(partition as nat)
}

/// The key under which the progress of a partition is kept.
pub fn build_progress_key(partition: u16) -> (r: String)
    ensures
        r@ == progress_key(partition),
{
    "scheduler_process::".to_owned().concat(text::decimal_of(partition as u128).as_str())
}

impl PartitionedService {
    /// The partition.
    pub closed spec fn number(self) -> u16 {
        self.partition
    }

    /// The configurations of the partition.
    pub closed spec fn store(self) -> ConfigStore {
        self.config_store
    }

    /// A service without configurations.
    pub fn start(partition: u16) -> (r: PartitionedService)
        ensures
            r.number() == partition,
            r.store().wf(),
            r.store().view() == Map::<u128, Arc<CheckConfig>>::empty(),
            r.store().updated() is None,
    {
        PartitionedService { partition, config_store: ConfigStore::new() }
    }

    /// The partition.
    pub fn get_partition(&self) -> (r: u16)
        ensures
            r == self.number(),
    {
        self.partition
    }

    /// The configurations of the partition.
    pub fn get_config_store(&self) -> (r: &ConfigStore)
        ensures
            *r == self.store(),
    {
        &self.config_store
    }

    /// The configurations of the partition, to be changed.
    pub fn config_store_mut(&mut self) -> (r: &mut ConfigStore)
        ensures
            *r == old(self).store(),
            final(self).store() == *final(r),
            final(self).number() == old(self).number(),
    {
        &mut self.config_store
    }
}

/// The services of the partitions that a checker is responsible for.
#[derive(Debug)]
pub struct Manager {
    services: HashMap<u16, PartitionedService>,
}

/// The services stand under their own partition, and their stores are sound.
pub open spec fn services_sound(services: Map<u16, PartitionedService>) -> bool {
    forall|p: u16| #[trigger]
        services.contains_key(p) ==> services[p].number() == p && services[p].store().wf()
}

/// A service has just begun: nothing was ever put into its store.
pub open spec fn just_begun(service: PartitionedService) -> bool {
    &&& service.store().view() == Map::<u128, Arc<CheckConfig>>::empty()
    &&& service.store().updated() is None
}

/// The configurations of one partition were changed, and nothing else was.
pub open spec fn store_replaced(
    before: Map<u16, PartitionedService>,
    after: Map<u16, PartitionedService>,
    partition: u16,
    configs: Map<u128, Arc<CheckConfig>>,
) -> bool {
    &&& after.dom() =~= before.dom()
    &&& after.contains_key(partition)
    &&& forall|q: u16|
        q != partition && #[trigger] before.contains_key(q) ==> after[q] == before[q]
    &&& after[partition].number() == partition
    &&& after[partition].store().view() == configs
}

/// What a change of responsibility comes to.
#[derive(Debug)]
pub struct PartitionChanges {
    /// The services that end.
    pub removed: Vec<PartitionedService>,
    /// The partitions whose services begin.
    pub added: Vec<u16>,
}

impl Manager {
    /// The services by their partition.
    pub closed spec fn view(&self) -> Map<u16, PartitionedService> {
        self.services@
    }

    /// The services are sound.
    pub open spec fn wf(&self) -> bool {
        services_sound(self.view())
    }

    /// A manager that is responsible for nothing.
    pub fn new() -> (r: Manager)
        ensures
            r.wf(),
            r.view() == Map::<u16, PartitionedService>::empty(),
    {
        broadcast use vstd::std_specs::hash::group_hash_axioms;

        Manager { services: HashMap::new() }
    }

    /// Whether the manager is responsible for a partition.
    pub fn has_service(&self, partition: u16) -> (r: bool)
        ensures
            r == self.view().contains_key(partition),
    {
        broadcast use vstd::std_specs::hash::group_hash_axioms;

        self.services.contains_key(&partition)
    }

    /// The service of a partition that the manager is responsible for.
    pub fn get_service(&self, partition: u16) -> (r: &PartitionedService)
        requires
            self.view().contains_key(partition),
        ensures
            *r == self.view()[partition],
    {
        broadcast use vstd::std_specs::hash::group_hash_axioms;

        self.services.get(&partition).unwrap()
    }

    /// Makes the manager responsible for a partition, and says whether it was not
    /// before.
    pub fn register_partition(&mut self, partition: u16) -> (r: bool)
        requires
            old(self).wf(),
        ensures
            final(self).wf(),
            r == !old(self).view().contains_key(partition),
            !r ==> final(self).view() == old(self).view(),
            r ==> final(self).view() == old(self).view().insert(
                partition,
                final(self).view()[partition],
            ) && just_begun(final(self).view()[partition]),
    {
        broadcast use vstd::std_specs::hash::group_hash_axioms;

        if self.services.contains_key(&partition) {
            return false;
        }
        self.services.insert(partition, PartitionedService::start(partition));
        true
    }

    /// Ends the responsibility for a partition, and hands out its service, if there was
    /// one.
    pub fn unregister_partition(&mut self, partition: u16) -> (r: Option<PartitionedService>)
        requires
            old(self).wf(),
        ensures
            final(self).wf(),
            final(self).view() == old(self).view().remove(partition),
            match r {
                Some(service) => old(self).view().contains_key(partition) && service == old(self).view()[partition],
                None => !old(self).view().contains_key(partition),
            },
    {
        broadcast use vstd::std_specs::hash::group_hash_axioms;

        let removed = self.services.remove(&partition);
        proof {
            if removed is None {
                assert(old(self).view().remove(partition) =~= old(self).view());
            }
        }
        removed
    }

    /// Takes the service of a partition out, so that its configurations can be changed.
    pub(crate) fn take_service(&mut self, partition: u16) -> (r: PartitionedService)
        requires
            old(self).wf(),
            old(self).view().contains_key(partition),
        ensures
            final(self).wf(),
            final(self).view() == old(self).view().remove(partition),
            r == old(self).view()[partition],
    {
        broadcast use vstd::std_specs::hash::group_hash_axioms;

        self.services.remove(&partition).unwrap()
    }

    /// Puts a service in.
    pub(crate) fn put_service(&mut self, service: PartitionedService)
        requires
            old(self).wf(),
            service.store().wf(),
        ensures
            final(self).wf(),
            final(self).view() == old(self).view().insert(service.number(), service),
    {
        broadcast use vstd::std_specs::hash::group_hash_axioms;

        self.services.insert(service.partition, service);
    }

    /// Adds a configuration to those of a partition at an instant.
    pub fn add_config_at(
        &mut self,
        partition: u16,
        config: Arc<CheckConfig>,
        now: tokio::time::Instant,
    )
        requires
            old(self).wf(),
            old(self).view().contains_key(partition),
        ensures
            final(self).wf(),
            store_replaced(
                old(self).view(),
                final(self).view(),
                partition,
                old(self).view()[partition].store().view().insert(config.subscription_id, config),
            ),
            final(self).view()[partition].store().updated() == Some(now),
    {
        let mut service = self.take_service(partition);
        service.config_store.add_config_at(config, now);
        self.put_service(service);
    }

    /// Removes the configuration of a subscription from those of a partition at an
    /// instant.
    pub fn remove_config_at(
        &mut self,
        partition: u16,
        subscription_id: u128,
        now: tokio::time::Instant,
    )
        requires
            old(self).wf(),
            old(self).view().contains_key(partition),
        ensures
            final(self).wf(),
            store_replaced(
                old(self).view(),
                final(self).view(),
                partition,
                old(self).view()[partition].store().view().remove(subscription_id),
            ),
            final(self).view()[partition].store().updated() == changed_at(
                old(self).view()[partition].store().view().contains_key(subscription_id),
                now,
                old(self).view()[partition].store().updated(),
            ),
    {
        let mut service = self.take_service(partition);
        service.config_store.remove_config_at(subscription_id, now);
        self.put_service(service);
    }

    /// Adds a configuration to those of a partition.
    pub fn add_config(&mut self, partition: u16, config: Arc<CheckConfig>)
        requires
            old(self).wf(),
            old(self).view().contains_key(partition),
        ensures
            final(self).wf(),
            store_replaced(
                old(self).view(),
                final(self).view(),
                partition,
                old(self).view()[partition].store().view().insert(config.subscription_id, config),
            ),
            final(self).view()[partition].store().updated() is Some,
    {
        self.add_config_at(partition, config, now());
    }

    /// Removes the configuration of a subscription from those of a partition.
    pub fn remove_config(&mut self, partition: u16, subscription_id: u128)
        requires
            old(self).wf(),
            old(self).view().contains_key(partition),
        ensures
            final(self).wf(),
            store_replaced(
                old(self).view(),
                final(self).view(),
                partition,
                old(self).view()[partition].store().view().remove(subscription_id),
            ),
            old(self).view()[partition].store().view().contains_key(subscription_id) ==> final(self).view()[partition].store().updated() is Some,
            !old(self).view()[partition].store().view().contains_key(subscription_id) ==> final(self).view()[partition].store().updated() == old(self).view()[partition].store().updated(),
    {
        self.remove_config_at(partition, subscription_id, now());
    }

    fn known_partitions(&self) -> (r: Vec<u16>)
        ensures
            forall|i: int|
                0 <= i < r@.len() ==> self.view().contains_key(#[trigger] r@[i]),
            forall|p: u16| #[trigger] self.view().contains_key(p) ==> r@.contains(p),
            forall|i: int, j: int| 0 <= i < j < r@.len() ==> r@[i] != r@[j],
    {
        broadcast use vstd::std_specs::hash::group_hash_axioms;

        let mut known: Vec<u16> = Vec::new();
        for entry in it: self.services.iter()
            invariant
                known@.len() == it.index(),
                it.seq().no_duplicates(),
                forall|j: int|
                    0 <= j < it.seq().len() ==> self.services@.contains_key(
                        *(#[trigger] it.seq()[j]).0,
                    ) && self.services@[*it.seq()[j].0] == *it.seq()[j].1,
                forall|j: int|
                    0 <= j < known@.len() ==> #[trigger] known@[j] == *it.seq()[j].0
                        && self.services@.contains_key(known@[j]),
                forall|i: int, j: int| 0 <= i < j < known@.len() ==> known@[i] != known@[j],
                forall|p: u16| #[trigger]
                    self.services@.contains_key(p) ==> known@.contains(p) || exists|k: int|
                        it.index() <= k < it.seq().len() && *(#[trigger] it.seq()[k]).0 == p,
        {
            let ghost before = known@;
            known.push(*entry.0);
            proof {
                let n = it.index() as int;
                assert(it.seq()[n] == entry);
                assert(known@[n] == *entry.0);
                assert forall|i: int| 0 <= i < n implies before[i] != *entry.0 by {
                    if before[i] == *entry.0 {
                        assert(it.seq()[i] == it.seq()[n]);
                    }
                }
                assert forall|p: u16| #[trigger]
                    self.services@.contains_key(p) implies known@.contains(p) || exists|k: int|
                    n + 1 <= k < it.seq().len() && *(#[trigger] it.seq()[k]).0 == p by {
                    if before.contains(p) {
                        let i = before.index_of(p);
                        assert(known@[i] == p);
                    }
                }
            }
        }
        known
    }

    /// Makes the manager responsible for exactly these partitions. Services of
    /// partitions that stay are kept as they are.
    pub fn update_partitions(&mut self, new_partitions: &HashSet<u16>) -> (r: PartitionChanges)
        requires
            old(self).wf(),
        ensures
            final(self).wf(),
            final(self).view().dom() =~= new_partitions@,
            forall|p: u16|
                new_partitions@.contains(p) && #[trigger] old(self).view().contains_key(p)
                    ==> final(self).view()[p] == old(self).view()[p],
            forall|p: u16|
                #[trigger] new_partitions@.contains(p) && !old(self).view().contains_key(p)
                    ==> just_begun(final(self).view()[p]) && r.added@.contains(p),
            forall|i: int|
                0 <= i < r.added@.len() ==> new_partitions@.contains(#[trigger] r.added@[i])
                    && !old(self).view().contains_key(r.added@[i]),
            forall|i: int, j: int| 0 <= i < j < r.added@.len() ==> r.added@[i] != r.added@[j],
            forall|i: int|
                0 <= i < r.removed@.len() ==> ({
                    let p = (#[trigger] r.removed@[i]).number();
                    old(self).view().contains_key(p) && !new_partitions@.contains(p)
                        && r.removed@[i] == old(self).view()[p]
                }),
            forall|p: u16| #[trigger]
                old(self).view().contains_key(p) && !new_partitions@.contains(p)
                    ==> r.removed@.contains(old(self).view()[p]),
            forall|i: int, j: int|
                0 <= i < j < r.removed@.len() ==> r.removed@[i].number()
                    != r.removed@[j].number(),
    {
        broadcast use vstd::std_specs::hash::group_hash_axioms;

        let known = self.known_partitions();
        let ghost before = self.view();
        let mut removed: Vec<PartitionedService> = Vec::new();
        let mut i: usize = 0;
        while i < known.len()
            invariant
                i <= known@.len(),
                self.wf(),
                services_sound(before),
                forall|j: int| 0 <= j < known@.len() ==> before.contains_key(#[trigger] known@[j]),
                forall|a: int, b: int| 0 <= a < b < known@.len() ==> known@[a] != known@[b],
                forall|p: u16|
                    #[trigger] self.view().contains_key(p) <==> before.contains_key(p) && (
                    new_partitions@.contains(p) || !known@.take(i as int).contains(p)),
                forall|p: u16| #[trigger]
                    self.view().contains_key(p) ==> self.view()[p] == before[p],
                forall|j: int|
                    0 <= j < removed@.len() ==> ({
                        let p = (#[trigger] removed@[j]).number();
                        before.contains_key(p) && !new_partitions@.contains(p) && removed@[j]
                            == before[p] && !self.view().contains_key(p)
                    }),
                forall|a: int, b: int|
                    0 <= a < b < removed@.len() ==> removed@[a].number() != removed@[b].number(),
                forall|j: int|
                    0 <= j < i && !new_partitions@.contains(#[trigger] known@[j])
                        ==> removed@.contains(before[known@[j]]),
            decreases known.len() - i,
        {
            let partition = known[i];
            let ghost done = known@.take(i as int);
            let ghost next = known@.take(i + 1);
            let ghost kept = removed@;
            proof {
                assert(next =~= done.push(partition));
                assert(next[i as int] == partition);
                if done.contains(partition) {
                    let j = done.index_of(partition);
                    assert(known@[j] == partition);
                }
                assert forall|p: u16| p != partition implies next.contains(p) == done.contains(
                    p,
                ) by {
                    if next.contains(p) {
                        let j = next.index_of(p);
                        assert(done[j] == p);
                    }
                    if done.contains(p) {
                        let j = done.index_of(p);
                        assert(next[j] == p);
                    }
                }
            }
            if !new_partitions.contains(&partition) {
                if let Some(service) = self.unregister_partition(partition) {
                    removed.push(service);
                    proof {
                        assert(removed@[kept.len() as int] == service);
                    }
                }
                proof {
                    assert forall|j: int|
                        0 <= j < i + 1 && !new_partitions@.contains(
                            #[trigger] known@[j],
                        ) implies removed@.contains(before[known@[j]]) by {
                        if j < i {
                            let k = kept.index_of(before[known@[j]]);
                            assert(removed@[k] == before[known@[j]]);
                        }
                    }
                }
            }
            i = i + 1;
        }
        proof {
            assert(known@.take(i as int) =~= known@);
            assert forall|p: u16|
                before.contains_key(p) && !new_partitions@.contains(p) implies removed@.contains(
                before[p],
            ) by {
                let j = known@.index_of(p);
                assert(known@[j] == p);
            }
        }
        let ghost middle = self.view();
        let mut added: Vec<u16> = Vec::new();
        let wanted = members(new_partitions);
        let mut k: usize = 0;
        while k < wanted.len()
            invariant
                k <= wanted@.len(),
                self.wf(),
                forall|p: u16| wanted@.contains(p) <==> new_partitions@.contains(p),
                forall|p: u16|
                    #[trigger] middle.contains_key(p) <==> before.contains_key(p)
                        && new_partitions@.contains(p),
                forall|p: u16| #[trigger]
                    middle.contains_key(p) ==> self.view().contains_key(p) && self.view()[p]
                        == before[p],
                forall|p: u16| #[trigger]
                    self.view().contains_key(p) ==> new_partitions@.contains(p) && (
                    middle.contains_key(p) || (just_begun(self.view()[p]) && added@.contains(p))),
                forall|j: int| 0 <= j < k ==> self.view().contains_key(#[trigger] wanted@[j]),
                forall|j: int|
                    0 <= j < added@.len() ==> new_partitions@.contains(#[trigger] added@[j])
                        && !before.contains_key(added@[j]) && self.view().contains_key(added@[j]),
                forall|a: int, b: int| 0 <= a < b < added@.len() ==> added@[a] != added@[b],
            decreases wanted.len() - k,
        {
            let partition = wanted[k];
            let ghost had = added@;
            proof {
                assert(wanted@.contains(partition));
            }
            if self.register_partition(partition) {
                added.push(partition);
                proof {
                    assert(!middle.contains_key(partition));
                    assert(added@[had.len() as int] == partition);
                    assert forall|p: u16| had.contains(p) implies added@.contains(p) by {
                        let j = had.index_of(p);
                        assert(added@[j] == p);
                    }
                }
            }
            k = k + 1;
        }
        proof {
            assert forall|p: u16| #[trigger]
                new_partitions@.contains(p) implies self.view().contains_key(p) by {
                let j = wanted@.index_of(p);
                assert(wanted@[j] == p);
            }
        }
        PartitionChanges { removed, added }
    }
}

/// Where internal addresses are not allowed, the checker keeps away from exactly those that
/// are reserved, and where they are it keeps away from none.
pub proof fn law_checkers_keep_away_from_reserved_addresses(
    checker: CheckerSettings,
    config: Config,
    older: u32,
    newer: u128,
)
    requires
        checker_follows(checker, config),
    ensures
        config.checker_mode is Reqwest <==> checker is Reqwest,
        checker matches CheckerSettings::Reqwest(c) ==> c.external_only
            == !config.allow_internal_ips,
        checker matches CheckerSettings::Isahc(c) ==> {
            &&& lies_in_any(older as int, c.ipv4_blacklist@, 32) <==> !config.allow_internal_ips
                && is_private(IpAddress::V4(older))
            &&& lies_in_any(newer as int, c.ipv6_blacklist@, 128) <==> !config.allow_internal_ips
                && is_private(IpAddress::V6(newer))
        },
{
}

/// Connections are kept for as long as a configuration says, and none is kept where they
/// are not to be used again.
pub proof fn law_connections_are_kept_as_asked(checker: CheckerSettings, config: Config)
    requires
        checker_follows(checker, config),
    ensures
        checker matches CheckerSettings::Reqwest(c) ==> {
            &&& c.pool_idle_timeout_secs == config.pool_idle_timeout_secs
            &&& config.disable_connection_reuse <==> c.pool_max_idle_per_host == Some(0usize)
            &&& !config.disable_connection_reuse <==> c.pool_max_idle_per_host is None
        },
        checker matches CheckerSettings::Isahc(c) ==> {
            &&& c.connection_cache_ttl_secs == config.pool_idle_timeout_secs
            &&& config.disable_connection_reuse <==> c.connection_cache_size == Some(0usize)
            &&& !config.disable_connection_reuse <==> c.connection_cache_size is None
            &&& c.redirect_limit == 9
        },
{
}

/// The progress of each partition has a key of its own.
pub proof fn law_partitions_have_keys_of_their_own(a: u16, b: u16)
    ensures
        progress_key(a) == progress_key(b) ==> a == b,
        progress_key(a).take("scheduler_process::"@.len() as int) == "scheduler_process::"@,
{
    let front = "scheduler_process::"@;
    assert(progress_key(a).skip(front.len() as int) =~= decimal(a as nat));
    assert(progress_key(b).skip(front.len() as int) =~= decimal(b as nat));
    assert(progress_key(a).take(front.len() as int) =~= front);
    law_written_numbers_are_read_back(a);
    law_written_numbers_are_read_back(b);
}

/// A change of one partition's configurations leaves those of all others as they are, and
/// neither begins nor ends a service.
pub proof fn law_changes_stay_within_a_partition(
    before: Map<u16, PartitionedService>,
    after: Map<u16, PartitionedService>,
    partition: u16,
    configs: Map<u128, Arc<CheckConfig>>,
    other: u16,
)
    requires
        store_replaced(before, after, partition, configs),
    ensures
        before.contains_key(other) <==> after.contains_key(other),
        other != partition && before.contains_key(other) ==> after[other] == before[other],
        after[partition].store().view() == configs && after[partition].number() == partition,
{
    assert(after.dom().contains(other) <==> before.dom().contains(other));
}

} // verus!
