//! Key choice for plugin-delegated providers and key health by upstream
//! status.

use vstd::prelude::*;

verus! {

/// The credential sent for a provider delegated to a plugin, which uses its
/// own login instead.
pub const PLUGIN_KEY_PLACEHOLDER: &'static str = "xrl-router";

/// A key chosen for an upstream attempt.
#[derive(Debug)]
pub struct PickedKey {
    pub id: String,
    pub name: String,
    pub key_hash: String,
    pub key_masked: String,
}

/// The placeholder key of a plugin-delegated provider: id `plugin:<provider>`.
pub fn plugin_placeholder_key(provider_id: &str, provider_name: &str) -> (r: PickedKey)
    ensures
        r.id@ == "plugin:"@ + provider_id@,
        r.name@ == provider_name@,
        r.key_hash@ == PLUGIN_KEY_PLACEHOLDER@,
        r.key_masked@ == PLUGIN_KEY_PLACEHOLDER@,
{
    let mut id = "plugin:".to_owned();
    id.append(provider_id);
    PickedKey {
        id,
        name: provider_name.to_owned(),
        key_hash: PLUGIN_KEY_PLACEHOLDER.to_owned(),
        key_masked: PLUGIN_KEY_PLACEHOLDER.to_owned(),
    }
}

/// The key of an attempt on a candidate: the placeholder where the
/// candidate is delegated to a plugin, else what the key pool handed out for
/// its provider (`pooled`: the next usable key, none when all are spent).
pub fn pick_key_for(cand: &crate::route::ResolvedRoute, pooled: Option<PickedKey>) -> (r: Option<PickedKey>)
    ensures
        cand.plugin_id is Some ==> (r matches Some(k) && k.id@ == "plugin:"@ + cand.provider_id@
            && k.name@ == cand.provider_name@ && k.key_hash@ == PLUGIN_KEY_PLACEHOLDER@
            && k.key_masked@ == PLUGIN_KEY_PLACEHOLDER@),
        cand.plugin_id is None ==> r == pooled,
{
    match &cand.plugin_id {
        Some(_) => Some(plugin_placeholder_key(cand.provider_id.as_str(), cand.provider_name.as_str())),
        None => pooled,
    }
}

/// What an upstream status says of the key that was used.
#[derive(Debug, Clone, Copy, PartialEq, Eq, Structural)]
pub enum KeyHealthUpdate {
    /// 401, 403: the key is invalid.
    MarkInvalid,
    /// 402, 429: the key is short of quota or rate-limited.
    MarkLowQuota,
    /// 2xx: the key works.
    RecordSuccess,
    /// Anything else is not the key's fault.
    Unchanged,
}

pub open spec fn key_health_spec(status: u16) -> KeyHealthUpdate {
    if status == 401 || status == 403 {
        KeyHealthUpdate::MarkInvalid
    } else if status == 402 || status == 429 {
        KeyHealthUpdate::MarkLowQuota
    } else if 200 <= status <= 299 {
        KeyHealthUpdate::RecordSuccess
    } else {
        KeyHealthUpdate::Unchanged
    }
}

/// Any 2xx answer is a success of the key (it turns green again); 401 and
/// 403 mark it invalid; 402 and 429 mark its quota low; every other status
/// leaves its health as it was.
pub proof fn law_key_health_by_status(status: u16)
    ensures
        200 <= status <= 299 ==> key_health_spec(status) == KeyHealthUpdate::RecordSuccess,
        (status == 401 || status == 403) ==> key_health_spec(status) == KeyHealthUpdate::MarkInvalid,
        (status == 402 || status == 429) ==> key_health_spec(status) == KeyHealthUpdate::MarkLowQuota,
        !(200 <= status <= 299) && status != 401 && status != 403 && status != 402 && status != 429
            ==> key_health_spec(status) == KeyHealthUpdate::Unchanged,
{
}

/// How the key pool's health is updated after an upstream status.
pub fn update_key_health(status: u16) -> (r: KeyHealthUpdate)
    ensures
        r == key_health_spec(status),
{
    if status == 401 || status == 403 {
        KeyHealthUpdate::MarkInvalid
    } else if status == 402 || status == 429 {
        KeyHealthUpdate::MarkLowQuota
    } else if 200 <= status && status <= 299 {
        KeyHealthUpdate::RecordSuccess
    } else {
        KeyHealthUpdate::Unchanged
    }
}

/// The longest wait for upstream response headers, in seconds.
pub const UPSTREAM_HEADER_TIMEOUT_SECS: u64 = 300;

/// The longest gap between two upstream stream chunks, in seconds.
pub const UPSTREAM_CHUNK_TIMEOUT_SECS: u64 = 120;

pub open spec fn header_timeout_spec(est: u64) -> u64 {
    if est >= 100000 {
        600
    } else if est >= 50000 {
        480
    } else {
        UPSTREAM_HEADER_TIMEOUT_SECS
    }
}

/// The wait for upstream response headers, longer for large inputs.
pub fn header_timeout_for(est_input_tokens: u64) -> (r: u64)
    ensures
        r == header_timeout_spec(est_input_tokens),
        r >= UPSTREAM_HEADER_TIMEOUT_SECS,
{
    if est_input_tokens >= 100000 {
        600
    } else if est_input_tokens >= 50000 {
        480
    } else {
        UPSTREAM_HEADER_TIMEOUT_SECS
    }
}

} // verus!
