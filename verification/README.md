# uptime-checker

A service that checks whether URLs are up. Each subscription has a check that runs at
a fixed interval; checks are spread over the seconds of an hour, run in one of the
active regions at a time, are retried when they fail, and their results are reported.

The library under `src/` holds what the service decides and computes, written in
Verus: every function states what it returns or changes, and Verus proves it. The
program under `app/` does the rest: it reads the configuration, talks to redis, sends
the requests, serves the web endpoint, and asks the library what to do next.

## The library

| Module | What it holds |
|---|---|
| `types::check_config`, `config_store`, `scheduler` | when a check runs, and in which region |
| `check_executor`, `config_waiter`, `manager` | running checks, waiting for configurations, owning partitions |
| `check_config_provider`, `config_consumer`, `redis_client` | taking in configurations and their updates |
| `checker` | what is requested, which addresses may be connected to, what a response or a failure says |
| `types::result`, `producer` | the result of a check, and how results are batched and sent again |
| `assertions`, `types::assertion` | assertions on responses: compiling, evaluating, telling what failed |
| `app::config`, `cliapp`, `logging`, `endpoint` | configuration, command line, log styles, web replies |
| `text`, `number`, `ids`, `time`, `sets` | texts, floating-point numbers by their bits, identifiers, times |

Functions named `law_..` state what holds of several operations together: that every
partition has one owner, that one region runs a check at a time, that a removed
configuration is as if it had never been added, that a decided assertion stays decided
with more gas.

Calls into other crates stand in small functions marked
`#[verifier::external_body]`. Their comments say what is claimed of the call. Where an
outcome takes pages to describe it has a name instead, a spec function without a body.

Glob patterns are built and matched outside the library, and so are JSONPath queries that
call the function `glob`; what running a query costs is metered outside, too. Compiling an
assertion stops where it needs a pattern or such a query of which nothing is known yet.
Evaluating one stops with a question: whether a pattern matches a text, what a query
costs, or what a query with a `glob` in it finds. Either is called again with what was
missing. The program builds patterns and reads queries when it validates a check
(`app/globs.rs`, `app/endpoint.rs`). It evaluates no assertions, so answering the
questions of an evaluation is up to other callers of the library.

## The program

`app/main.rs` is the entry point. `app/supervisor.rs` starts the parts: one scheduler
for each partition (`scheduler.rs`), one executor (`executor.rs`), the configuration
monitor (`provider.rs`), the results worker (`producers.rs`) and the web server
(`endpoint.rs`).
