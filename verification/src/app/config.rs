//! The configuration of the application.

use crate::checker::ip_filter::IpAddress;
use crate::cliapp::CliApp;
use crate::logging::{Level, LogFormat};
use crate::text;
use crate::text::{chars_of, pieces, trimmed};
use vstd::prelude::*;

verus! {

/// Where check configurations come from.
#[derive(Clone, Copy, Debug, PartialEq, Eq, Structural)]
pub enum ConfigProviderMode {
    Redis,
}

/// Where results go.
#[derive(Clone, Copy, Debug, PartialEq, Eq, Structural)]
pub enum ProducerMode {
    Kafka,
    Vector,
}

/// What makes the requests.
#[derive(Clone, Copy, Debug, PartialEq, Eq, Structural)]
pub enum CheckerMode {
    Reqwest,
    Isahc,
}

/// An address and a port.
#[derive(Clone, Copy, Debug, PartialEq, Eq, Structural)]
pub struct SocketAddress {
    pub ip: IpAddress,
    pub port: u16,
}

/// Where metrics go.
#[derive(Debug)]
pub struct MetricsConfig {
    /// The address of statsd.
    pub statsd_addr: SocketAddress,
    /// Tags of every metric, by name, each name once.
    pub default_tags: Vec<(String, String)>,
    /// The tag that carries the name of the host. Without it the name is not sent.
    pub hostname_tag: Option<String>,
}

/// The configuration of the application.
#[derive(Debug)]
pub struct Config {
    /// The key for reporting errors.
    pub sentry_dsn: Option<String>,
    /// The environment that errors are reported to.
    pub sentry_env: Option<String>,
    /// The level of the log.
    pub log_level: Level,
    /// The format of the log.
    pub log_format: LogFormat,
    /// How many checks run at the same time.
    pub checker_concurrency: usize,
    /// Whether checks run on more than one thread.
    pub checker_parallel: bool,
    /// The network interface to use.
    pub interface: Option<String>,
    pub metrics: MetricsConfig,
    /// The addresses of the kafka cluster that results go to.
    pub results_kafka_cluster: Vec<String>,
    /// The topic that results go to.
    pub results_kafka_topic: String,
    pub config_provider_mode: ConfigProviderMode,
    pub checker_mode: CheckerMode,
    pub producer_mode: ProducerMode,
    /// How often redis is asked for updates, in milliseconds.
    pub config_provider_redis_update_ms: u64,
    /// How many partitions there are in redis.
    pub config_provider_redis_total_partitions: u16,
    /// How many results vector gets at once.
    pub vector_batch_size: usize,
    /// Where vector is.
    pub vector_endpoint: String,
    /// Whether redis is a cluster.
    pub redis_enable_cluster: bool,
    /// Whether results are sent to vector until it takes them.
    pub retry_vector_errors_forever: bool,
    /// Where redis is.
    pub redis_host: String,
    /// The region that the checks run in.
    pub region: String,
    /// Whether addresses of internal networks may be checked.
    pub allow_internal_ips: bool,
    /// Whether every request makes a connection of its own.
    pub disable_connection_reuse: bool,
    /// Whether the tasks of checks are measured.
    pub record_task_metrics: bool,
    /// How long an idle connection is kept, in seconds.
    pub pool_idle_timeout_secs: u64,
    /// The number of this checker, from zero on.
    pub checker_number: u16,
    /// How many checkers there are.
    pub total_checkers: u16,
    /// How often a check that fails is run again.
    pub failure_retries: u16,
    /// How many threads there are for each processor.
    pub thread_cpu_scale_factor: usize,
    /// The name servers that checks ask.
    pub http_checker_dns_nameservers: Option<Vec<IpAddress>>,
    /// How long redis is waited for, in milliseconds.
    pub redis_timeouts_ms: u64,
    /// Whether connections are measured.
    pub enable_metrics: bool,
    /// Whether redis is only read.
    pub redis_readonly: bool,
    /// The port of the web server.
    pub webserver_port: u16,
    /// Whether assertions are left out.
    pub disable_asserts: bool,
    /// Whether the response of a failed check is kept.
    pub response_capture_enabled: bool,
    /// How much an assertion may cost.
    pub assertion_complexity: u32,
    /// How many operations an assertion may have.
    pub max_assertion_ops: u32,
}

impl Config {
    /// The configuration is the one that holds where nothing is configured.
    pub open spec fn is_default(self) -> bool {
        &&& self.sentry_dsn is None
        &&& self.sentry_env is None
        &&& self.log_level == Level::Warn
        &&& self.log_format == LogFormat::Auto
        &&& self.checker_concurrency == 200
        &&& !self.checker_parallel
        &&& self.interface is None
        &&& self.metrics.statsd_addr == (SocketAddress {
            ip: IpAddress::V4(0x7f00_0001),
            port: 8126,
        })
        &&& self.metrics.default_tags@.len() == 0
        &&& self.metrics.hostname_tag is None
        &&& chars_of(self.results_kafka_cluster@) == seq!["127.0.0.1:9092"@]
        &&& self.results_kafka_topic@ == "uptime-results"@
        &&& self.config_provider_mode == ConfigProviderMode::Redis
        &&& self.checker_mode == CheckerMode::Reqwest
        &&& self.producer_mode == ProducerMode::Kafka
        &&& self.config_provider_redis_update_ms == 1000
        &&& self.config_provider_redis_total_partitions == 128
        &&& self.vector_batch_size == 10
        &&& self.vector_endpoint@ == "http://localhost:8020"@
        &&& !self.redis_enable_cluster
        &&& !self.retry_vector_errors_forever
        &&& self.redis_host@ == "redis://127.0.0.1:6379"@
        &&& self.region@ == "default"@
        &&& !self.allow_internal_ips
        &&& self.disable_connection_reuse
        &&& !self.record_task_metrics
        &&& self.pool_idle_timeout_secs == 90
        &&& self.checker_number == 0
        &&& self.total_checkers == 1
        &&& self.failure_retries == 0
        &&& self.thread_cpu_scale_factor == 1
        &&& self.http_checker_dns_nameservers is None
        &&& self.redis_timeouts_ms == 30_000
        &&& !self.enable_metrics
        &&& !self.redis_readonly
        &&& self.webserver_port == 12345
        &&& !self.disable_asserts
        &&& !self.response_capture_enabled
        &&& self.assertion_complexity == 100
        &&& self.max_assertion_ops == 16
    }
}

impl Default for Config {
    fn default() -> (r: Self)
        ensures
            r.is_default(),
    {
        let mut results_kafka_cluster: Vec<String> = Vec::new();
        results_kafka_cluster.push("127.0.0.1:9092".to_owned());
        proof {
            assert(chars_of(results_kafka_cluster@) =~= seq!["127.0.0.1:9092"@]);
        }
        Config {
            sentry_dsn: None,
            sentry_env: None,
            log_level: Level::Warn,
            log_format: LogFormat::Auto,
            checker_concurrency: 200,
            checker_parallel: false,
            interface: None,
            metrics: MetricsConfig {
                statsd_addr: SocketAddress { ip: IpAddress::V4(0x7f00_0001), port: 8126 },
                default_tags: Vec::new(),
                hostname_tag: None,
            },
            results_kafka_cluster,
            results_kafka_topic: "uptime-results".to_owned(),
            config_provider_mode: ConfigProviderMode::Redis,
            checker_mode: CheckerMode::Reqwest,
            producer_mode: ProducerMode::Kafka,
            config_provider_redis_update_ms: 1000,
            config_provider_redis_total_partitions: 128,
            vector_batch_size: 10,
            vector_endpoint: "http://localhost:8020".to_owned(),
            redis_enable_cluster: false,
            retry_vector_errors_forever: false,
            redis_host: "redis://127.0.0.1:6379".to_owned(),
            region: "default".to_owned(),
            allow_internal_ips: false,
            disable_connection_reuse: true,
            record_task_metrics: false,
            pool_idle_timeout_secs: 90,
            checker_number: 0,
            total_checkers: 1,
            failure_retries: 0,
            thread_cpu_scale_factor: 1,
            http_checker_dns_nameservers: None,
            redis_timeouts_ms: 30_000,
            enable_metrics: false,
            redis_readonly: false,
            webserver_port: 12345,
            disable_asserts: false,
            response_capture_enabled: false,
            assertion_complexity: 100,
            max_assertion_ops: 16,
        }
    }
}

impl Config {
    /// The configuration with what the command line says in place of what the files and
    /// the environment say.
    pub fn with_command_line(self, app: &CliApp) -> (r: Config)
        ensures
            r == (Config {
                log_level: match app.log_level {
                    Some(level) => level,
                    None => self.log_level,
                },
                log_format: match app.log_format {
                    Some(format) => format,
                    None => self.log_format,
                },
                ..self
            }),
    {
        let mut config = self;
        if let Some(level) = app.log_level {
            config.log_level = level;
        }
        if let Some(format) = app.log_format {
            config.log_format = format;
        }
        config
    }

    /// How many threads run the service on a machine of so many processors.
    pub fn worker_threads(&self, num_cpus: usize) -> (r: usize)
        requires
            num_cpus * self.thread_cpu_scale_factor <= usize::MAX,
        ensures
            r == num_cpus * self.thread_cpu_scale_factor,
    {
        num_cpus * self.thread_cpu_scale_factor
    }
}

/// The address that a text denotes, or what the error says of it.
pub uninterp spec fn ip_in(s: Seq<char>) -> Result<IpAddress, Seq<char>>;

/// `str::parse` to an address of the internet, handed on by its number. Which texts
/// denote an address is named, not spelled out.
#[verifier::external_body]
fn parse_ip(s: &str) -> (r: Result<IpAddress, String>)
    ensures
        match r {
            Ok(ip) => ip_in(s@) == Ok::<IpAddress, Seq<char>>(ip),
            Err(e) => ip_in(s@) == Err::<IpAddress, Seq<char>>(e@),
        },
{
    s.parse().map(|ip| ipnet::IpNet::new_assert(ip, 0)).map_err(|e| e.to_string()).map(
        |net| match net {
            ipnet::IpNet::V4(v4) => IpAddress::V4(v4.addr().into()),
            ipnet::IpNet::V6(v6) => IpAddress::V6(v6.addr().into()),
        },
    )
}

/// The addresses that texts denote, from one on, or what is wrong with the first that
/// denotes none.
pub open spec fn addresses_in(parts: Seq<Seq<char>>) -> Result<Seq<IpAddress>, Seq<char>>
    decreases parts.len(),
{
    if parts.len() == 0 {
        Ok(Seq::empty())
    } else {
        match addresses_in(parts.drop_last()) {
            Err(e) => Err(e),
            Ok(before) => match ip_in(trimmed(parts.last())) {
                Err(e) => Err(e),
                Ok(ip) => Ok(before.push(ip)),
            },
        }
    }
}

proof fn lemma_first_fault(parts: Seq<Seq<char>>, n: int)
    requires
        0 <= n <= parts.len(),
        addresses_in(parts.take(n)) is Err,
    ensures
        addresses_in(parts) == addresses_in(parts.take(n)),
    decreases parts.len() - n,
{
    if n < parts.len() {
        assert(parts.take(n + 1).drop_last() =~= parts.take(n));
        lemma_first_fault(parts, n + 1);
    } else {
        assert(parts.take(n) =~= parts);
    }
}

/// The name servers that a text lists, with commas between them. An empty text lists
/// none.
pub fn parse_nameservers(listed: &Option<String>) -> (r: Result<Option<Vec<IpAddress>>, String>)
    ensures
        match listed {
            None => r matches Ok(None),
            Some(s) => if s@.len() == 0 {
                r matches Ok(None)
            } else {
                match addresses_in(pieces(s@, ',')) {
                    Ok(ips) => r matches Ok(Some(v)) && v@ == ips,
                    Err(e) => r matches Err(x) && x@ == e,
                }
            },
        },
{
    let s = match listed {
        None => return Ok(None),
        Some(s) => s,
    };
    if s.as_str().unicode_len() == 0 {
        return Ok(None);
    }
    let parts = text::split(s.as_str(), ',');
    let ghost all = chars_of(parts@);
    let mut ips: Vec<IpAddress> = Vec::new();
    let mut i: usize = 0;
    while i < parts.len()
        invariant
            i <= parts@.len(),
            all == chars_of(parts@),
            all == pieces(s@, ','),
            s@.len() > 0,
            *listed == Some(*s),
            addresses_in(all.take(i as int)) == Ok::<Seq<IpAddress>, Seq<char>>(ips@),
        decreases parts.len() - i,
    {
        proof {
            assert(all.take(i + 1).drop_last() =~= all.take(i as int));
            assert(all.take(i + 1).last() == parts@[i as int]@);
        }
        match parse_ip(text::trim(parts[i].as_str()).as_str()) {
            Ok(ip) => ips.push(ip),
            Err(e) => {
                proof {
                    lemma_first_fault(all, i + 1);
                }
                return Err(e);
            },
        }
        i = i + 1;
    }
    proof {
        assert(all.take(i as int) =~= all);
    }
    Ok(Some(ips))
}

/// Each part of a list is read by itself, without the blanks around it.
pub proof fn law_every_address_is_read(parts: Seq<Seq<char>>)
    ensures
        addresses_in(parts) matches Ok(list) ==> list.len() == parts.len() && forall|i: int|
            0 <= i < parts.len() ==> ip_in(trimmed(#[trigger] parts[i])) == Ok::<
                IpAddress,
                Seq<char>,
            >(list[i]),
        addresses_in(parts) is Err <==> exists|i: int|
            0 <= i < parts.len() && ip_in(trimmed(#[trigger] parts[i])) is Err,
    decreases parts.len(),
{
    if parts.len() > 0 {
        let front = parts.drop_last();
        law_every_address_is_read(front);
        assert(parts[parts.len() - 1] == parts.last());
        assert forall|i: int| 0 <= i < front.len() implies front[i] == parts[i] by {}
        if addresses_in(front) is Err {
            let i = choose|i: int|
                0 <= i < front.len() && ip_in(trimmed(#[trigger] front[i])) is Err;
            assert(ip_in(trimmed(parts[i])) is Err);
        } else if ip_in(trimmed(parts.last())) is Err {
            assert(ip_in(trimmed(parts[parts.len() - 1])) is Err);
        } else {
            assert forall|i: int| 0 <= i < parts.len() implies ip_in(
                trimmed(#[trigger] parts[i]),
            ) is Ok by {
                if i < front.len() {
                    assert(front[i] == parts[i]);
                }
            }
        }
    }
}

/// The fault of a list is that of its first part that has one.
pub proof fn law_the_first_fault_counts(parts: Seq<Seq<char>>, i: int)
    requires
        0 <= i < parts.len(),
        ip_in(trimmed(parts[i])) is Err,
        forall|j: int| 0 <= j < i ==> ip_in(trimmed(#[trigger] parts[j])) is Ok,
    ensures
        addresses_in(parts) == Err::<Seq<IpAddress>, Seq<char>>(
            ip_in(trimmed(parts[i]))->Err_0,
        ),
    decreases parts.len(),
{
    let front = parts.drop_last();
    if i < front.len() {
        assert forall|j: int| 0 <= j < i implies ip_in(trimmed(#[trigger] front[j])) is Ok by {
            assert(front[j] == parts[j]);
        }
        law_the_first_fault_counts(front, i);
    } else {
        law_every_address_is_read(front);
        if addresses_in(front) is Err {
            let j = choose|j: int|
                0 <= j < front.len() && ip_in(trimmed(#[trigger] front[j])) is Err;
            assert(front[j] == parts[j]);
        }
    }
}

} // verus!
