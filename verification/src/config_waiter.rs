//! Waiting until the backlog of configurations has been read.

use vstd::prelude::*;

verus! {

/// How long nothing must have come for the backlog to count as read, in milliseconds.
pub const BOOT_IDLE_TIMEOUT_MS: u64 = 500;

/// How long is waited where nothing comes at all, in milliseconds.
pub const BOOT_MAX_IDLE_MS: u64 = 10_000;

/// How often the store is looked at, in milliseconds.
pub const BOOT_POLL_MS: u64 = 100;

/// How the wait ended.
#[derive(Clone, Copy, Debug, PartialEq, Eq, Hash, Structural)]
pub enum BootResult {
    Started,
    Cancelled,
}

/// What is done after looking at the store.
#[derive(Clone, Copy, Debug, PartialEq, Eq, Structural)]
pub enum BootStep {
    Wait,
    Finish(BootResult),
}

/// The backlog has been read: nothing came for a while, or nothing came at all for
/// longer.
pub open spec fn backlog_read(since_start_ms: u64, since_update_ms: Option<u64>) -> bool {
    match since_update_ms {
        None => since_start_ms >= BOOT_MAX_IDLE_MS,
        Some(ms) => ms >= BOOT_IDLE_TIMEOUT_MS,
    }
}

/// What is done after looking at the store.
pub open spec fn next_step(
    since_start_ms: u64,
    since_update_ms: Option<u64>,
    shutdown: bool,
) -> BootStep {
    if shutdown {
        BootStep::Finish(BootResult::Cancelled)
    } else if backlog_read(since_start_ms, since_update_ms) {
        BootStep::Finish(BootResult::Started)
    } else {
        BootStep::Wait
    }
}

/// Decides after looking at the store: how long the wait has lasted, how long ago the
/// store last changed, if it did, and whether a shutdown was asked for.
pub fn boot_step(since_start_ms: u64, since_update_ms: Option<u64>, shutdown: bool) -> (r: BootStep)
    ensures
        r == next_step(since_start_ms, since_update_ms, shutdown),
{
    if shutdown {
        return BootStep::Finish(BootResult::Cancelled);
    }
    match since_update_ms {
        None => {
            if since_start_ms >= BOOT_MAX_IDLE_MS {
                return BootStep::Finish(BootResult::Started);
            }
        },
        Some(ms) => {
            if ms >= BOOT_IDLE_TIMEOUT_MS {
                return BootStep::Finish(BootResult::Started);
            }
        },
    }
    BootStep::Wait
}

impl BootResult {
    /// What is logged of the end of the wait.
    pub fn label(&self) -> (r: &'static str)
        ensures
            r@ == (match self {
                BootResult::Started => "config_consumer.partition_boot_complete"@,
                BootResult::Cancelled => "config_consumer.partition_boot_cancelled"@,
            }),
    {
        match self {
            BootResult::Started => "config_consumer.partition_boot_complete",
            BootResult::Cancelled => "config_consumer.partition_boot_cancelled",
        }
    }
}

/// A partition into which nothing comes starts after the longer wait, and one into
/// which something came starts once nothing more has come for the shorter one.
pub proof fn law_boot_ends(since_start_ms: u64, since_update_ms: u64)
    ensures
        since_start_ms >= BOOT_MAX_IDLE_MS ==> backlog_read(since_start_ms, None),
        since_start_ms < BOOT_MAX_IDLE_MS ==> !backlog_read(since_start_ms, None),
        backlog_read(since_start_ms, Some(since_update_ms)) <==> since_update_ms
            >= BOOT_IDLE_TIMEOUT_MS,
{
}

/// A shutdown ends the wait whatever came. Without one it ends half a second after the
/// last change, however long it has lasted, and without any change after ten seconds, and
/// neither before.
pub proof fn law_the_wait_ends_when_nothing_comes(
    since_start_ms: u64,
    since_update_ms: Option<u64>,
)
    ensures
        next_step(since_start_ms, since_update_ms, true) == BootStep::Finish(BootResult::Cancelled),
        since_update_ms matches Some(ms) ==> next_step(since_start_ms, since_update_ms, false) == (
        if ms < 500 {
            BootStep::Wait
        } else {
            BootStep::Finish(BootResult::Started)
        }),
        since_update_ms is None ==> next_step(since_start_ms, since_update_ms, false) == (
        if since_start_ms < 10 * 1000 {
            BootStep::Wait
        } else {
            BootStep::Finish(BootResult::Started)
        }),
{
}

} // verus!
