//! The subscription table keyed by session of the third websocket server:
//! which client on which chain subscribed to which storage keys, the
//! handling of its requests, and the notifications of a storage change.
use vstd::prelude::*;
use vstd::string::*;
use crate::message::{RequestMessage, ResponseMessage, SubscribedData, SubscribedParams, SubscriptionId};
use crate::rpc::{
    method_call_of, params_key_lists, response_json, ResultValue, ResultValueView, RpcCall, RpcError,
    RpcErrorView, RpcId, ServiceError, Version, INVALID_PARAMS,
};
use crate::rpc_api::{SubscribedResult, SubscribedResultView};
use crate::session::{Session, SessionView, StorageKeys, SubscriptionSession};
use crate::util::{handler_post, method_not_found_view, storage_keys_from, storage_keys_spec};
use crate::websocket::notified_id;

verus! {

/// The table after a subscription of a session, and the call's answer:
/// the storage keys are those that the parameter lists ask for, and the
/// answer is the session's client id, which names the subscription.
pub open spec fn table_subscribe_spec(
    m: Map<SessionView, StorageKeys<Seq<Seq<char>>>>,
    key: SessionView,
    lists: Seq<Seq<Seq<char>>>,
) -> (Map<SessionView, StorageKeys<Seq<Seq<char>>>>, Result<ResultValueView, RpcErrorView>) {
    match storage_keys_spec(lists) {
        Err(e) => (m, Err(e)),
        Ok(keys) => (m.insert(key, keys), Ok(ResultValueView::String(key.client_id))),
    }
}

/// A subscription replaces the session's earlier entry, if any, by the
/// keys just asked for, answers with the session's client id, and leaves
/// every other session's entry as it was; a refused one changes nothing.
pub proof fn lemma_table_subscription_replaces(
    m: Map<SessionView, StorageKeys<Seq<Seq<char>>>>,
    key: SessionView,
    lists: Seq<Seq<Seq<char>>>,
    other: SessionView,
)
    ensures
        storage_keys_spec(lists) is Ok ==> {
            let (m1, answer) = table_subscribe_spec(m, key, lists);
            &&& m1.dom().contains(key)
            &&& m1[key] == storage_keys_spec(lists)->Ok_0
            &&& answer == Ok::<ResultValueView, RpcErrorView>(ResultValueView::String(key.client_id))
        },
        storage_keys_spec(lists) is Err ==> table_subscribe_spec(m, key, lists).0 == m,
        other != key ==> table_subscribe_spec(m, key, lists).0.dom().contains(other) == m.dom().contains(other),
        other != key && m.dom().contains(other) ==> table_subscribe_spec(m, key, lists).0[other] == m[other],
{
}

/// `r` holds, in the order of `ks`, one notification per session of `ks`:
/// the sessions subscribed to all storage keys, each exactly once. Each is
/// of version 2, with no method, names the session's client id as its
/// subscription and carries `result`.
pub open spec fn table_notified(
    m: Map<SessionView, StorageKeys<Seq<Seq<char>>>>,
    ks: Seq<SessionView>,
    r: Seq<SubscribedData>,
    result: SubscribedResultView,
) -> bool {
    &&& ks.len() == r.len()
    &&& forall|t: int| 0 <= t < ks.len() ==> {
        &&& #[trigger] m.dom().contains(ks[t]) && m[ks[t]] is All
        &&& notified_id(r[t]) == Some(ks[t].client_id)
        &&& r[t].jsonrpc == Some(Version::V2)
        &&& r[t].method@ == Seq::<char>::empty()
        &&& r[t].params.result@ == result
    }
    &&& forall|t: int, u: int| 0 <= t < u < ks.len() ==> #[trigger] ks[t] != #[trigger] ks[u]
    &&& forall|k: SessionView| #[trigger] m.dom().contains(k) && m[k] is All ==> exists|t: int|
        0 <= t < ks.len() && ks[t] == k
}

impl SubscriptionSession {
    /// Subscribes the session to the storage keys that the parameter lists
    /// ask for, and answers with the session's client id.
    pub fn subscribe_keys(&mut self, key: Session, rpc_id: RpcId, lists: Vec<Vec<String>>) -> (r: Result<ResponseMessage, ServiceError>)
        ensures
            ({
                let (m, answer) = table_subscribe_spec(old(self).0@, key@, lists.deep_view());
                &&& final(self).0@ == m
                &&& handler_post(answer, key@, rpc_id@, r)
            }),
    {
        let keys = match storage_keys_from(lists) {
            Ok(k) => k,
            Err(e) => return Err(ServiceError::JsonrpcError(e)),
        };
        self.0.insert(key.clone(), keys);
        let result = response_json(true, Ok(ResultValue::String(key.client_id.clone())), rpc_id)?;
        Ok(ResponseMessage { id: key.client_id, chain: key.chain_name, result })
    }

    /// Handles `state_subscribeStorage` for a session: the parameters are
    /// read as lists of storage keys. When they cannot be read, the call is
    /// refused as having invalid parameters and nothing changes.
    #[allow(non_snake_case)]
    pub fn handle_state_subscribeStorage(&mut self, key: Session, request: RpcCall) -> (r: Result<ResponseMessage, ServiceError>)
        ensures
            match params_key_lists(request.params@) {
                None => final(self).0@ == old(self).0@ && (r matches Err(ServiceError::JsonrpcError(e))
                    && e.code == INVALID_PARAMS),
                Some(lists) => {
                    let (m, answer) = table_subscribe_spec(old(self).0@, key@, lists);
                    &&& final(self).0@ == m
                    &&& handler_post(answer, key@, request.id@, r)
                },
            },
    {
        let rpc_id = request.id.duplicate();
        match request.key_lists() {
            Ok(lists) => self.subscribe_keys(key, rpc_id, lists),
            Err(e) => Err(ServiceError::JsonrpcError(e)),
        }
    }

    /// Handles a client's request against the table: the call must be
    /// readable, and only `state_subscribeStorage` is known.
    pub fn handle_request(&mut self, msg: RequestMessage) -> (r: Result<ResponseMessage, ServiceError>)
        ensures
            ({
                let key = SessionView { chain_name: msg.chain@, client_id: msg.id@ };
                match method_call_of(msg.request@) {
                    None => final(self).0@ == old(self).0@ && r matches Err(ServiceError::JsonError(_)),
                    Some((method, id, params)) => if method == "state_subscribeStorage"@ {
                        match params_key_lists(params) {
                            None => final(self).0@ == old(self).0@ && (r matches Err(ServiceError::JsonrpcError(e))
                                && e.code == INVALID_PARAMS),
                            Some(lists) => {
                                let (m, answer) = table_subscribe_spec(old(self).0@, key, lists);
                                &&& final(self).0@ == m
                                &&& handler_post(answer, key, id, r)
                            },
                        }
                    } else {
                        final(self).0@ == old(self).0@ && (r matches Err(ServiceError::JsonrpcError(e))
                            && e@ == method_not_found_view())
                    },
                }
            }),
    {
        let key = Session::from(&msg);
        let request = RpcCall::from_json(msg.request.as_str())?;
        if request.method == String::from_str("state_subscribeStorage") {
            self.handle_state_subscribeStorage(key, request)
        } else {
            Err(ServiceError::JsonrpcError(RpcError::method_not_found()))
        }
    }

    /// The notifications of a storage change: one per session subscribed
    /// to all storage keys, each naming the session's client id as its
    /// subscription and carrying the change; none for sessions subscribed
    /// to selected keys. The order is left open.
    pub fn all_keys_notifications(&self, result: &SubscribedResult) -> (r: Vec<SubscribedData>)
        ensures
            exists|ks: Seq<SessionView>| #[trigger] table_notified(self.0@, ks, r@, result@),
    {
        let entries = self.0.iter();
        let mut r: Vec<SubscribedData> = Vec::new();
        let ghost mut ks: Seq<SessionView> = Seq::empty();
        let ghost mut idx: Seq<int> = Seq::empty();
        let mut i: usize = 0;
        while i < entries.len()
            invariant
                i <= entries@.len(),
                forall|j: int| 0 <= j < entries@.len() ==> self.0@.dom().contains(#[trigger] entries@[j].0@)
                    && self.0@[entries@[j].0@] == entries@[j].1@,
                forall|j: int, k: int| 0 <= j < k < entries@.len() ==> #[trigger] entries@[j].0@ != #[trigger] entries@[k].0@,
                forall|k: SessionView| self.0@.dom().contains(k) ==> exists|j: int| 0 <= j < entries@.len()
                    && #[trigger] entries@[j].0@ == k,
                ks.len() == r@.len(),
                idx.len() == r@.len(),
                forall|t: int| 0 <= t < idx.len() ==> 0 <= #[trigger] idx[t] < i,
                forall|t: int, u: int| 0 <= t < u < idx.len() ==> #[trigger] idx[t] < #[trigger] idx[u],
                forall|t: int| 0 <= t < ks.len() ==> {
                    &&& #[trigger] ks[t] == entries@[idx[t]].0@
                    &&& entries@[idx[t]].1@ is All
                    &&& notified_id(r@[t]) == Some(ks[t].client_id)
                    &&& r@[t].jsonrpc == Some(Version::V2)
                    &&& r@[t].method@ == Seq::<char>::empty()
                    &&& r@[t].params.result@ == result@
                },
                forall|j: int| 0 <= j < i && (#[trigger] entries@[j]).1@ is All ==> exists|t: int|
                    0 <= t < idx.len() && idx[t] == j,
            decreases entries@.len() - i,
        {
            let e = entries[i];
            match &e.1 {
                StorageKeys::All => {
                    r.push(SubscribedData {
                        jsonrpc: Some(Version::V2),
                        method: String::new(),
                        params: SubscribedParams {
                            subscription: SubscriptionId::String(e.0.client_id.clone()),
                            result: result.duplicate(),
                        },
                    });
                    proof {
                        let old_idx = idx;
                        ks = ks.push(e.0@);
                        idx = idx.push(i as int);
                        assert forall|j: int| 0 <= j < i + 1 && (#[trigger] entries@[j]).1@ is All implies exists|t: int|
                            0 <= t < idx.len() && idx[t] == j by {
                            if j < i {
                                let t = choose|t: int| 0 <= t < old_idx.len() && old_idx[t] == j;
                                assert(idx[t] == j);
                            } else {
                                assert(idx[idx.len() - 1] == j);
                            }
                        }
                    }
                },
                StorageKeys::Keys(_) => {},
            }
            i = i + 1;
        }
        proof {
            assert forall|t: int, u: int| 0 <= t < u < ks.len() implies #[trigger] ks[t] != #[trigger] ks[u] by {
                assert(idx[t] < idx[u]);
            }
            assert forall|k: SessionView| #[trigger] self.0@.dom().contains(k) && self.0@[k] is All implies exists|t: int|
                0 <= t < ks.len() && ks[t] == k by {
                let j = choose|j: int| 0 <= j < entries@.len() && #[trigger] entries@[j].0@ == k;
                assert(entries@[j].1@ is All);
                let t = choose|t: int| 0 <= t < idx.len() && idx[t] == j;
                assert(ks[t] == k);
            }
            assert(table_notified(self.0@, ks, r@, result@));
        }
        r
    }
}

} // verus!
