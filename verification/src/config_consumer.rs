//! Check configurations that come as messages.

use crate::config_store::{changed_at, now};
use crate::ids;
use crate::manager::{store_replaced, Manager};
use crate::types::check_config::CheckConfig;
use std::sync::Arc;
use vstd::prelude::*;

verus! {

/// What a message carries behind its key.
#[derive(Debug)]
pub enum Payload {
    /// A configuration.
    Config(CheckConfig),
    /// Something that is no configuration.
    Undecodable,
    /// Nothing: the configuration of the key is revoked.
    Absent,
}

/// A message is valid: its key is a subscription, and what it carries is the
/// configuration of that subscription or nothing.
pub open spec fn is_valid(key: Option<Seq<u8>>, payload: Payload) -> bool {
    key matches Some(bytes) && bytes.len() == 16 && match payload {
        Payload::Config(config) => config.subscription_id == ids::number_of(bytes),
        Payload::Undecodable => false,
        Payload::Absent => true,
    }
}

/// The key by its bytes.
pub open spec fn key_bytes(key: Option<Vec<u8>>) -> Option<Seq<u8>> {
    match key {
        Some(bytes) => Some(bytes@),
        None => None,
    }
}

/// Takes a message into the configurations of its partition, and says whether it was
/// valid. An invalid message changes nothing.
pub fn register_config(
    manager: &mut Manager,
    partition: u16,
    key: &Option<Vec<u8>>,
    payload: Payload,
) -> (r: bool)
    requires
        old(manager).wf(),
        old(manager).view().contains_key(partition),
    ensures
        final(manager).wf(),
        r == is_valid(key_bytes(*key), payload),
        !r ==> *final(manager) == *old(manager),
        r ==> store_replaced(
            old(manager).view(),
            final(manager).view(),
            partition,
            match payload {
                Payload::Config(config) => old(manager).view()[partition].store().view().insert(
                    config.subscription_id,
                    Arc::new(config),
                ),
                _ => old(manager).view()[partition].store().view().remove(
                    ids::number_of(key->0@) as u128,
                ),
            },
        ),
        r ==> ({
            let before = old(manager).view()[partition].store();
            let after = final(manager).view()[partition].store();
            if payload is Config || before.view().contains_key(ids::number_of(key->0@) as u128) {
                after.updated() is Some
            } else {
                after.updated() == before.updated()
            }
        }),
{
    register_config_at(manager, partition, key, payload, now())
}

/// Takes a message into the configurations of its partition, and says whether it was
/// valid. An invalid message changes nothing. Another changes the partition at the
/// instant.
pub fn register_config_at(
    manager: &mut Manager,
    partition: u16,
    key: &Option<Vec<u8>>,
    payload: Payload,
    now: tokio::time::Instant,
) -> (r: bool)
    requires
        old(manager).wf(),
        old(manager).view().contains_key(partition),
    ensures
        final(manager).wf(),
        r == is_valid(key_bytes(*key), payload),
        !r ==> *final(manager) == *old(manager),
        r ==> store_replaced(
            old(manager).view(),
            final(manager).view(),
            partition,
            match payload {
                Payload::Config(config) => old(manager).view()[partition].store().view().insert(
                    config.subscription_id,
                    Arc::new(config),
                ),
                _ => old(manager).view()[partition].store().view().remove(
                    ids::number_of(key->0@) as u128,
                ),
            },
        ),
        r ==> ({
            let before = old(manager).view()[partition].store();
            let after = final(manager).view()[partition].store();
            after.updated() == changed_at(
                payload is Config || before.view().contains_key(
                    ids::number_of(key->0@) as u128,
                ),
                now,
                before.updated(),
            )
        }),
{
    let subscription_id = match key {
        None => return false,
        Some(bytes) => match ids::from_bytes(bytes.as_slice()) {
            None => return false,
            Some(id) => id,
        },
    };
    match payload {
        Payload::Config(config) => {
            if config.subscription_id != subscription_id {
                return false;
            }
            manager.add_config_at(partition, Arc::new(config), now);
        },
        Payload::Undecodable => return false,
        Payload::Absent => manager.remove_config_at(partition, subscription_id, now),
    }
    true
}

/// A message is taken if its key is the subscription's number in sixteen bytes: for a
/// configuration that of its own subscription, for a deletion that of any. What cannot be
/// decoded is never taken, nor what has no key.
pub proof fn law_messages_are_taken_by_their_key(key: Seq<u8>, config: CheckConfig)
    ensures
        is_valid(Some(key), Payload::Config(config)) <==> key == ids::big_endian(
            config.subscription_id as int,
            16,
        ),
        is_valid(Some(key), Payload::Absent) <==> key.len() == 16,
        !is_valid(Some(key), Payload::Undecodable),
        !is_valid(None, Payload::Config(config)),
        !is_valid(None, Payload::Absent),
{
    ids::law_bytes_denote_the_id(config.subscription_id);
    ids::law_ids_have_the_bytes_that_denote_them(key);
}

} // verus!
