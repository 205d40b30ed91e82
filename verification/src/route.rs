//! The routing table of subscriptions keyed by session: which client on
//! which chain subscribed to which storage keys.
use vstd::prelude::*;
use vstd::string::*;
use crate::assoc::{AssocMap, KeyEq};
use crate::message::{RequestMessage, ResponseMessage, SubscribedData, SubscribedParams, SubscriptionId};
use crate::rpc::Version;
use crate::rpc_api::{SubscribedResult, SubscribedResultView};
use crate::websocket::notified_id;
use crate::rpc::{
    method_call_of, output_text, params_key_lists, response_json, ResultValue, ResultValueView, RpcCall, RpcError,
    RpcId, RpcIdView, ServiceError, INVALID_PARAMS,
};
use crate::util::{has_duplicate, has_duplicates, invalid_params_error, method_not_found_view};
use crate::rpc::RpcErrorView;

verus! {

/// All stands for all storage keys; Keys holds some keys.
#[derive(Clone, Debug)]
pub enum StorageKeys<T> {
    All,
    Keys(T),
}

impl<T: DeepView> View for StorageKeys<T> {
    type V = StorageKeys<T::V>;

    open spec fn view(&self) -> StorageKeys<T::V> {
        match self {
            StorageKeys::All => StorageKeys::All,
            StorageKeys::Keys(t) => StorageKeys::Keys(t.deep_view()),
        }
    }
}

/// RouteKey as a subscription session
#[derive(Debug, PartialEq, Eq, Hash)]
pub struct RouteKey {
    pub chain_name: String,
    pub client_id: String,
}

/// A route key taken as a value.
pub struct RouteKeyView {
    pub chain_name: Seq<char>,
    pub client_id: Seq<char>,
}

impl View for RouteKey {
    type V = RouteKeyView;

    open spec fn view(&self) -> RouteKeyView {
        RouteKeyView { chain_name: self.chain_name@, client_id: self.client_id@ }
    }
}

impl KeyEq for RouteKey {
    fn key_eq(&self, other: &Self) -> (b: bool) {
        self.chain_name == other.chain_name && self.client_id == other.client_id
    }
}

impl Clone for RouteKey {
    fn clone(&self) -> (r: Self)
        ensures
            r@ == self@,
    {
        RouteKey { chain_name: self.chain_name.clone(), client_id: self.client_id.clone() }
    }
}

impl RouteKey {
    /// The route key of a request: its chain and its client.
    pub fn from(msg: &RequestMessage) -> (r: RouteKey)
        ensures
            r@ == (RouteKeyView { chain_name: msg.chain@, client_id: msg.id@ }),
    {
        RouteKey { chain_name: msg.chain.clone(), client_id: msg.id.clone() }
    }
}

/// The storage keys that route subscription parameters ask for: exactly
/// one list is required; an empty list asks for all keys; a list with a
/// repeated key is refused; otherwise the keys of the list.
pub open spec fn route_keys_spec(lists: Seq<Seq<Seq<char>>>) -> Result<
    StorageKeys<Seq<Seq<char>>>,
    RpcErrorView,
> {
    if lists.len() == 0 || lists.len() > 1 {
        Err(invalid_params_error())
    } else if lists[0].len() == 0 {
        Ok(StorageKeys::All)
    } else if has_duplicates(lists[0]) {
        Err(invalid_params_error())
    } else {
        Ok(StorageKeys::Keys(lists[0]))
    }
}

/// The storage keys that route subscription parameters ask for.
pub fn route_keys_from(lists: Vec<Vec<String>>) -> (r: Result<StorageKeys<Vec<String>>, RpcError>)
    ensures
        match route_keys_spec(lists.deep_view()) {
            Ok(k) => r matches Ok(x) && x@ == k,
            Err(e) => r matches Err(x) && x@ == e,
        },
{
    let ghost lv = lists.deep_view();
    let mut lists = lists;
    if lists.len() == 0 || lists.len() > 1 {
        return Err(RpcError::invalid_params("some params are invalid"));
    }
    let first = lists.pop().unwrap();
    assert(first.deep_view() == lv[0]);
    if first.len() == 0 {
        return Ok(StorageKeys::All);
    }
    if has_duplicate(&first) {
        return Err(RpcError::invalid_params("some params are invalid"));
    }
    Ok(StorageKeys::Keys(first))
}

/// The rules on route subscription keys: anything but exactly one list is
/// refused; a list that repeats a key is refused as having invalid
/// parameters, with the message "some params are invalid"; and an
/// accepted route to selected keys holds exactly the keys of the list,
/// each once.
pub proof fn lemma_route_keys_rules(lists: Seq<Seq<Seq<char>>>)
    ensures
        lists.len() != 1 ==> route_keys_spec(lists) == Err::<StorageKeys<Seq<Seq<char>>>, RpcErrorView>(
            RpcErrorView { code: INVALID_PARAMS, message: "some params are invalid"@ },
        ),
        lists.len() == 1 && (exists|i: int, j: int| 0 <= i < j < lists[0].len() && #[trigger] lists[0][i]
            == #[trigger] lists[0][j]) ==> route_keys_spec(lists) == Err::<
            StorageKeys<Seq<Seq<char>>>,
            RpcErrorView,
        >(RpcErrorView { code: INVALID_PARAMS, message: "some params are invalid"@ }),
        route_keys_spec(lists) matches Ok(StorageKeys::Keys(ks)) ==> lists.len() == 1 && ks == lists[0]
            && ks.len() > 0 && forall|i: int, j: int| 0 <= i < j < ks.len() ==> #[trigger] ks[i] != #[trigger] ks[j],
        route_keys_spec(lists) matches Ok(StorageKeys::All) ==> lists.len() == 1 && lists[0].len() == 0,
{
}

/// A route subscription replaces the key's earlier route, if any, by the
/// keys just asked for, answers with the key's client id, and leaves every
/// other key's route as it was; a refused one changes nothing.
pub proof fn lemma_route_subscription_replaces(
    m: Map<RouteKeyView, StorageKeys<Seq<Seq<char>>>>,
    key: RouteKeyView,
    lists: Seq<Seq<Seq<char>>>,
    other: RouteKeyView,
)
    ensures
        route_keys_spec(lists) is Ok ==> {
            let (m1, answer) = route_subscribe_spec(m, key, lists);
            &&& m1.dom().contains(key)
            &&& m1[key] == route_keys_spec(lists)->Ok_0
            &&& answer == Ok::<ResultValueView, RpcErrorView>(ResultValueView::String(key.client_id))
        },
        route_keys_spec(lists) is Err ==> route_subscribe_spec(m, key, lists).0 == m,
        other != key ==> route_subscribe_spec(m, key, lists).0.dom().contains(other) == m.dom().contains(other),
        other != key && m.dom().contains(other) ==> route_subscribe_spec(m, key, lists).0[other] == m[other],
{
}

/// The routing table after a route subscription, and the call's answer:
/// the client id.
pub open spec fn route_subscribe_spec(
    m: Map<RouteKeyView, StorageKeys<Seq<Seq<char>>>>,
    key: RouteKeyView,
    lists: Seq<Seq<Seq<char>>>,
) -> (Map<RouteKeyView, StorageKeys<Seq<Seq<char>>>>, Result<ResultValueView, RpcErrorView>) {
    match route_keys_spec(lists) {
        Err(e) => (m, Err(e)),
        Ok(keys) => (m.insert(key, keys), Ok(ResultValueView::String(key.client_id))),
    }
}

/// What a route handler leaves behind for an answer: a success is written
/// as a response to the key's client, an error is handed back as a
/// JSON-RPC error.
pub open spec fn route_post(
    answer: Result<ResultValueView, RpcErrorView>,
    key: RouteKeyView,
    id: RpcIdView,
    r: Result<ResponseMessage, ServiceError>,
) -> bool {
    match answer {
        Ok(v) => r matches Ok(resp) && resp.id@ == key.client_id && resp.chain@ == key.chain_name
            && resp.result@ == output_text(true, Ok(v), id),
        Err(ev) => r matches Err(ServiceError::JsonrpcError(e)) && e@ == ev,
    }
}

/// map (chain_name ++ client_id) -> (keys set)
pub struct SubscriptionRoute(pub AssocMap<RouteKey, StorageKeys<Vec<String>>>);

impl SubscriptionRoute {
    /// No routes.
    pub fn new() -> (r: Self)
        ensures
            r.0@ == Map::<RouteKeyView, StorageKeys<Seq<Seq<char>>>>::empty(),
    {
        SubscriptionRoute(AssocMap::new())
    }

    /// Routes the key to the storage keys that the parameter lists ask
    /// for, and answers with the key's client id.
    pub fn subscribe_keys(&mut self, key: RouteKey, rpc_id: RpcId, lists: Vec<Vec<String>>) -> (r: Result<ResponseMessage, ServiceError>)
        ensures
            ({
                let (m, answer) = route_subscribe_spec(old(self).0@, key@, lists.deep_view());
                &&& final(self).0@ == m
                &&& route_post(answer, key@, rpc_id@, r)
            }),
    {
        let keys = match route_keys_from(lists) {
            Ok(k) => k,
            Err(e) => return Err(ServiceError::JsonrpcError(e)),
        };
        self.0.insert(key.clone(), keys);
        let result = response_json(true, Ok(ResultValue::String(key.client_id.clone())), rpc_id)?;
        Ok(ResponseMessage { id: key.client_id, chain: key.chain_name, result })
    }

    /// Handles `state_subscribeStorage` for a route: the parameters are
    /// read as lists of storage keys. When they cannot be read, the call is
    /// refused as having invalid parameters and nothing changes.
    #[allow(non_snake_case)]
    pub fn handle_state_subscribeStorage(&mut self, key: RouteKey, request: RpcCall) -> (r: Result<ResponseMessage, ServiceError>)
        ensures
            match params_key_lists(request.params@) {
                None => final(self).0@ == old(self).0@ && (r matches Err(ServiceError::JsonrpcError(e))
                    && e.code == INVALID_PARAMS),
                Some(lists) => {
                    let (m, answer) = route_subscribe_spec(old(self).0@, key@, lists);
                    &&& final(self).0@ == m
                    &&& route_post(answer, key@, request.id@, r)
                },
            },
    {
        let rpc_id = request.id.duplicate();
        let ghost old_map = self.0@;
        match request.key_lists() {
            Ok(lists) => {
                let ghost lv = lists.deep_view();
                let ghost kv = key@;
                let r = self.subscribe_keys(key, rpc_id, lists);
                assert(route_subscribe_spec(old_map, kv, lv).0 == self.0@);
                r
            },
            Err(e) => Err(ServiceError::JsonrpcError(e)),
        }
    }

    /// Handles a client's request against the routing table: the call must
    /// be readable, and only `state_subscribeStorage` is known.
    pub fn handle_request(&mut self, msg: RequestMessage) -> (r: Result<ResponseMessage, ServiceError>)
        ensures
            ({
                let key = RouteKeyView { chain_name: msg.chain@, client_id: msg.id@ };
                match method_call_of(msg.request@) {
                    None => final(self).0@ == old(self).0@ && r matches Err(ServiceError::JsonError(_)),
                    Some((method, id, params)) => if method == "state_subscribeStorage"@ {
                        match params_key_lists(params) {
                            None => final(self).0@ == old(self).0@ && (r matches Err(ServiceError::JsonrpcError(e))
                                && e.code == INVALID_PARAMS),
                            Some(lists) => {
                                let (m, answer) = route_subscribe_spec(old(self).0@, key, lists);
                                &&& final(self).0@ == m
                                &&& route_post(answer, key, id, r)
                            },
                        }
                    } else {
                        final(self).0@ == old(self).0@ && (r matches Err(ServiceError::JsonrpcError(e))
                            && e@ == method_not_found_view())
                    },
                }
            }),
    {
        let key = RouteKey::from(&msg);
        let request = RpcCall::from_json(msg.request.as_str())?;
        if request.method == String::from_str("state_subscribeStorage") {
            self.handle_state_subscribeStorage(key, request)
        } else {
            Err(ServiceError::JsonrpcError(RpcError::method_not_found()))
        }
    }

    /// The clients routed to all storage keys: one entry per routing key
    /// routed to all keys, carrying that key's client id; those are the
    /// clients a storage change is pushed to unconditionally. The order of
    /// the entries is left open.
    pub fn all_keys_clients(&self) -> (r: Vec<String>)
        ensures
            exists|ks: Seq<RouteKeyView>| #[trigger] all_keys_listing(self.0@, ks, r@),
    {
        let entries = self.0.iter();
        let mut r: Vec<String> = Vec::new();
        let ghost mut ks: Seq<RouteKeyView> = Seq::empty();
        let ghost mut idx: Seq<int> = Seq::empty();
        let mut i: usize = 0;
        while i < entries.len()
            invariant
                i <= entries@.len(),
                forall|j: int| 0 <= j < entries@.len() ==> self.0@.dom().contains(#[trigger] entries@[j].0@)
                    && self.0@[entries@[j].0@] == entries@[j].1@,
                forall|j: int, k: int| 0 <= j < k < entries@.len() ==> #[trigger] entries@[j].0@ != #[trigger] entries@[k].0@,
                forall|k: RouteKeyView| self.0@.dom().contains(k) ==> exists|j: int| 0 <= j < entries@.len()
                    && #[trigger] entries@[j].0@ == k,
                ks.len() == r@.len(),
                idx.len() == r@.len(),
                forall|t: int| 0 <= t < idx.len() ==> 0 <= #[trigger] idx[t] < i,
                forall|t: int, u: int| 0 <= t < u < idx.len() ==> #[trigger] idx[t] < #[trigger] idx[u],
                forall|t: int| 0 <= t < ks.len() ==> #[trigger] ks[t] == entries@[idx[t]].0@
                    && entries@[idx[t]].1@ is All && r@[t]@ == ks[t].client_id,
                forall|j: int| 0 <= j < i && (#[trigger] entries@[j]).1@ is All ==> exists|t: int|
                    0 <= t < idx.len() && idx[t] == j,
            decreases entries@.len() - i,
        {
            let e = entries[i];
            match &e.1 {
                StorageKeys::All => {
                    r.push(e.0.client_id.clone());
                    proof {
                        let old_idx = idx;
                        ks = ks.push(e.0@);
                        idx = idx.push(i as int);
                        assert forall|j: int| 0 <= j < i + 1 && (#[trigger] entries@[j]).1@ is All implies exists|t: int|
                            0 <= t < idx.len() && idx[t] == j by {
                            if j < i {
                                let t = choose|t: int| 0 <= t < old_idx.len() && old_idx[t] == j;
                                assert(idx[t] == j);
                            } else {
                                assert(idx[idx.len() - 1] == j);
                            }
                        }
                    }
                },
                StorageKeys::Keys(_) => {},
            }
            i = i + 1;
        }
        proof {
            assert forall|t: int, u: int| 0 <= t < u < ks.len() implies #[trigger] ks[t] != #[trigger] ks[u] by {
                assert(idx[t] < idx[u]);
            }
            assert forall|k: RouteKeyView| #[trigger] self.0@.dom().contains(k) && self.0@[k] is All implies exists|t: int|
                0 <= t < ks.len() && ks[t] == k by {
                let j = choose|j: int| 0 <= j < entries@.len() && #[trigger] entries@[j].0@ == k;
                assert(entries@[j].1@ is All);
                let t = choose|t: int| 0 <= t < idx.len() && idx[t] == j;
                assert(ks[t] == k);
            }
            assert(all_keys_listing(self.0@, ks, r@));
        }
        r
    }
}

impl SubscriptionRoute {
    /// The notifications of a storage change: one per routing key routed to
    /// all storage keys, each naming that key's client id as its
    /// subscription and carrying the change; none for keys routed to
    /// selected keys. The order is left open.
    pub fn all_keys_notifications(&self, result: &SubscribedResult) -> (r: Vec<SubscribedData>)
        ensures
            exists|ks: Seq<RouteKeyView>| #[trigger] all_keys_notified(self.0@, ks, r@, result@),
    {
        let clients = self.all_keys_clients();
        let ghost ks = choose|ks: Seq<RouteKeyView>| all_keys_listing(self.0@, ks, clients@);
        let mut r: Vec<SubscribedData> = Vec::new();
        let mut i: usize = 0;
        while i < clients.len()
            invariant
                i <= clients@.len(),
                r@.len() == i,
                all_keys_listing(self.0@, ks, clients@),
                forall|t: int| 0 <= t < i ==> {
                    &&& notified_id(#[trigger] r@[t]) == Some(clients@[t]@)
                    &&& r@[t].jsonrpc == Some(Version::V2)
                    &&& r@[t].method@ == Seq::<char>::empty()
                    &&& r@[t].params.result@ == result@
                },
            decreases clients@.len() - i,
        {
            r.push(SubscribedData {
                jsonrpc: Some(Version::V2),
                method: String::new(),
                params: SubscribedParams {
                    subscription: SubscriptionId::String(clients[i].clone()),
                    result: result.duplicate(),
                },
            });
            i = i + 1;
        }
        assert(all_keys_notified(self.0@, ks, r@, result@));
        r
    }
}

/// `r` holds, in the order of `ks`, one notification per key of `ks`: the
/// keys routed to all storage keys, each exactly once. Each is of version
/// 2, with no method, names the key's client id as its subscription and
/// carries `result`.
pub open spec fn all_keys_notified(
    m: Map<RouteKeyView, StorageKeys<Seq<Seq<char>>>>,
    ks: Seq<RouteKeyView>,
    r: Seq<SubscribedData>,
    result: SubscribedResultView,
) -> bool {
    &&& ks.len() == r.len()
    &&& forall|t: int| 0 <= t < ks.len() ==> {
        &&& #[trigger] m.dom().contains(ks[t]) && m[ks[t]] is All
        &&& notified_id(r[t]) == Some(ks[t].client_id)
        &&& r[t].jsonrpc == Some(Version::V2)
        &&& r[t].method@ == Seq::<char>::empty()
        &&& r[t].params.result@ == result
    }
    &&& forall|t: int, u: int| 0 <= t < u < ks.len() ==> #[trigger] ks[t] != #[trigger] ks[u]
    &&& forall|k: RouteKeyView| #[trigger] m.dom().contains(k) && m[k] is All ==> exists|t: int|
        0 <= t < ks.len() && ks[t] == k
}

/// `r` lists, in the order of `ks`, the client ids of the keys in `ks`:
/// the keys routed to all storage keys, each exactly once.
pub open spec fn all_keys_listing(
    m: Map<RouteKeyView, StorageKeys<Seq<Seq<char>>>>,
    ks: Seq<RouteKeyView>,
    r: Seq<String>,
) -> bool {
    &&& ks.len() == r.len()
    &&& forall|t: int| 0 <= t < ks.len() ==> #[trigger] m.dom().contains(ks[t]) && m[ks[t]] is All
        && r[t]@ == ks[t].client_id
    &&& forall|t: int, u: int| 0 <= t < u < ks.len() ==> #[trigger] ks[t] != #[trigger] ks[u]
    &&& forall|k: RouteKeyView| #[trigger] m.dom().contains(k) && m[k] is All ==> exists|t: int|
        0 <= t < ks.len() && ks[t] == k
}

impl Default for SubscriptionRoute {
    fn default() -> (r: Self)
        ensures
            r.0@ == Map::<RouteKeyView, StorageKeys<Seq<Seq<char>>>>::empty(),
    {
        SubscriptionRoute::new()
    }
}

} // verus!
