//! The storage payloads that arrive from Kafka.
use vstd::prelude::*;

verus! {

/// A list of storage changes, as one Kafka message carries it.
pub type KafkaStoragePayload = Vec<KafkaStoragePayloadItem>;

/// One storage change: the block it belongs to, the key, and the new value
/// (none when the key was removed).
#[derive(Debug, Clone)]
pub struct KafkaStoragePayloadItem {
    pub id: u64,
    pub block_num: u64,
    pub hash: String,
    pub is_full: bool,
    pub key: String,
    pub storage: Option<String>,
}

} // verus!
