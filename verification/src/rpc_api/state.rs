//! Storage change sets, as `state_subscribeStorage` notifications carry them.
use vstd::prelude::*;
use crate::kafka_api::KafkaStoragePayloadItem;

verus! {

/// The storage changes of one block: the block hash, and each changed key
/// with its new value, or none when the key was removed.
#[derive(Debug)]
pub struct StateStorageResult {
    pub block: String,
    pub changes: Vec<(String, Option<String>)>,
}

/// A storage change set taken as a value.
pub struct StateStorageResultView {
    pub block: Seq<char>,
    pub changes: Seq<(Seq<char>, Option<Seq<char>>)>,
}

/// An optional text taken as a value.
pub open spec fn opt_view(o: Option<String>) -> Option<Seq<char>> {
    match o {
        Some(s) => Some(s@),
        None => None,
    }
}

impl View for StateStorageResult {
    type V = StateStorageResultView;

    open spec fn view(&self) -> StateStorageResultView {
        StateStorageResultView {
            block: self.block@,
            changes: self.changes@.map_values(|c: (String, Option<String>)| (c.0@, opt_view(c.1))),
        }
    }
}

fn clone_opt(o: &Option<String>) -> (r: Option<String>)
    ensures
        opt_view(r) == opt_view(*o),
{
    match o {
        Some(s) => Some(s.clone()),
        None => None,
    }
}

impl StateStorageResult {
    /// The change set that a Kafka payload describes: the block of its
    /// first item (no block when it is empty), and each item's key and
    /// value, in order.
    pub fn from(payload: &Vec<KafkaStoragePayloadItem>) -> (r: StateStorageResult)
        ensures
            r@.block == (if payload@.len() > 0 { payload@[0].hash@ } else { Seq::<char>::empty() }),
            r@.changes == payload@.map_values(|i: KafkaStoragePayloadItem| (i.key@, opt_view(i.storage))),
    {
        let block = if payload.len() > 0 { payload[0].hash.clone() } else { String::new() };
        let mut changes: Vec<(String, Option<String>)> = Vec::new();
        let n = payload.len();
        let mut i: usize = 0;
        while i < n
            invariant
                n == payload@.len(),
                i <= n,
                changes@.len() == i,
                changes@.map_values(|c: (String, Option<String>)| (c.0@, opt_view(c.1)))
                    == payload@.take(i as int).map_values(|i: KafkaStoragePayloadItem| (i.key@, opt_view(i.storage))),
            decreases n - i,
        {
            let ghost before = changes@;
            changes.push((payload[i].key.clone(), clone_opt(&payload[i].storage)));
            proof {
                assert(changes@ == before.push(changes@[i as int]));
                assert(changes@.map_values(|c: (String, Option<String>)| (c.0@, opt_view(c.1)))
                    =~= before.map_values(|c: (String, Option<String>)| (c.0@, opt_view(c.1))).push(
                    (changes@[i as int].0@, opt_view(changes@[i as int].1))));
                assert(payload@.take(i as int + 1).map_values(|i: KafkaStoragePayloadItem| (i.key@, opt_view(i.storage)))
                    =~= payload@.take(i as int).map_values(|i: KafkaStoragePayloadItem| (i.key@, opt_view(i.storage))).push(
                    (payload@[i as int].key@, opt_view(payload@[i as int].storage))));
                assert(changes@.map_values(|c: (String, Option<String>)| (c.0@, opt_view(c.1)))
                    =~= payload@.take(i as int + 1).map_values(|i: KafkaStoragePayloadItem| (i.key@, opt_view(i.storage))));
            }
            i = i + 1;
        }
        proof {
            assert(payload@.take(n as int) =~= payload@);
        }
        StateStorageResult { block, changes }
    }

    /// A copy of the change set.
    pub fn duplicate(&self) -> (r: StateStorageResult)
        ensures
            r@ == self@,
    {
        let mut changes: Vec<(String, Option<String>)> = Vec::new();
        let n = self.changes.len();
        let mut i: usize = 0;
        while i < n
            invariant
                n == self.changes@.len(),
                i <= n,
                changes@.len() == i,
                changes@.map_values(|c: (String, Option<String>)| (c.0@, opt_view(c.1)))
                    == self.changes@.take(i as int).map_values(|c: (String, Option<String>)| (c.0@, opt_view(c.1))),
            decreases n - i,
        {
            let ghost before = changes@;
            changes.push((self.changes[i].0.clone(), clone_opt(&self.changes[i].1)));
            proof {
                assert(changes@ == before.push(changes@[i as int]));
                assert(changes@.map_values(|c: (String, Option<String>)| (c.0@, opt_view(c.1)))
                    =~= before.map_values(|c: (String, Option<String>)| (c.0@, opt_view(c.1))).push(
                    (changes@[i as int].0@, opt_view(changes@[i as int].1))));
                assert(self.changes@.take(i as int + 1).map_values(|c: (String, Option<String>)| (c.0@, opt_view(c.1)))
                    =~= self.changes@.take(i as int).map_values(|c: (String, Option<String>)| (c.0@, opt_view(c.1))).push(
                    (self.changes@[i as int].0@, opt_view(self.changes@[i as int].1))));
                assert(changes@.map_values(|c: (String, Option<String>)| (c.0@, opt_view(c.1)))
                    =~= self.changes@.take(i as int + 1).map_values(|c: (String, Option<String>)| (c.0@, opt_view(c.1))));
            }
            i = i + 1;
        }
        proof {
            assert(self.changes@.take(n as int) =~= self.changes@);
        }
        StateStorageResult { block: self.block.clone(), changes }
    }
}

} // verus!
