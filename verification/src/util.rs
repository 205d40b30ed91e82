//! Handling of the storage subscription calls `state_subscribeStorage` and
//! `state_unsubscribeStorage`, and of whole client requests.
use vstd::prelude::*;
use vstd::string::*;
use crate::message::{RequestMessage, ResponseMessage};
use crate::rpc::{
    code_description, method_call_of, output_text, params_key_lists, params_one_string,
    response_json, ResultValue, ResultValueView,
    RpcCall, RpcError, RpcErrorView, RpcId, RpcIdView, ServiceError, INTERNAL_ERROR,
    INVALID_PARAMS, METHOD_NOT_FOUND, PARSE_ERROR,
};
use crate::session::{Session, SessionView, StorageKeys, StorageSessions};
use crate::text::decimal;

verus! {

/// Some key occurs twice in the list.
pub open spec fn has_duplicates(keys: Seq<Seq<char>>) -> bool {
    exists|i: int, j: int| 0 <= i < j < keys.len() && #[trigger] keys[i] == #[trigger] keys[j]
}

/// The error that refuses malformed subscription parameters.
pub open spec fn invalid_params_error() -> RpcErrorView {
    RpcErrorView { code: INVALID_PARAMS, message: "some params are invalid"@ }
}

/// The error given when no subscription id is left to hand out.
pub open spec fn exhausted_error() -> RpcErrorView {
    RpcErrorView { code: INTERNAL_ERROR, message: code_description(INTERNAL_ERROR) }
}

/// The error answered to a request that is no JSON-RPC method call.
pub open spec fn parse_error_view() -> RpcErrorView {
    RpcErrorView { code: PARSE_ERROR, message: code_description(PARSE_ERROR) }
}

/// The error answered to a call of an unknown method.
pub open spec fn method_not_found_view() -> RpcErrorView {
    RpcErrorView { code: METHOD_NOT_FOUND, message: code_description(METHOD_NOT_FOUND) }
}

/// The storage keys that subscription parameters ask for: more than one
/// list is refused; no list, or an empty first list, asks for all keys;
/// a list with a repeated key is refused; otherwise the keys of the list.
pub open spec fn storage_keys_spec(lists: Seq<Seq<Seq<char>>>) -> Result<
    StorageKeys<Seq<Seq<char>>>,
    RpcErrorView,
> {
    if lists.len() > 1 {
        Err(invalid_params_error())
    } else if lists.len() == 0 || lists[0].len() == 0 {
        Ok(StorageKeys::All)
    } else if has_duplicates(lists[0]) {
        Err(invalid_params_error())
    } else {
        Ok(StorageKeys::Keys(lists[0]))
    }
}

/// The subscriptions after a subscription, and the call's answer.
pub open spec fn subscribe_spec(
    m: Map<Seq<char>, (SessionView, StorageKeys<Seq<Seq<char>>>)>,
    next_id: Seq<char>,
    exhausted: bool,
    session: SessionView,
    lists: Seq<Seq<Seq<char>>>,
) -> (Map<Seq<char>, (SessionView, StorageKeys<Seq<Seq<char>>>)>, Result<ResultValueView, RpcErrorView>) {
    match storage_keys_spec(lists) {
        Err(e) => (m, Err(e)),
        Ok(keys) => if exhausted {
            (m, Err(exhausted_error()))
        } else {
            (m.insert(next_id, (session, keys)), Ok(ResultValueView::String(next_id)))
        },
    }
}

/// The subscriptions after an unsubscription, and the call's answer:
/// whether the subscription existed.
pub open spec fn unsubscribe_spec(
    m: Map<Seq<char>, (SessionView, StorageKeys<Seq<Seq<char>>>)>,
    sub_id: Seq<char>,
) -> (Map<Seq<char>, (SessionView, StorageKeys<Seq<Seq<char>>>)>, Result<ResultValueView, RpcErrorView>) {
    (m.remove(sub_id), Ok(ResultValueView::Bool(m.dom().contains(sub_id))))
}

/// The response text for an answer: a success carries the protocol
/// version, a failure does not.
pub open spec fn answer_text(answer: Result<ResultValueView, RpcErrorView>, id: RpcIdView) -> Seq<char> {
    match answer {
        Ok(v) => output_text(true, Ok(v), id),
        Err(e) => output_text(false, Err(e), id),
    }
}

/// What a handler leaves behind for an answer: a success is written as a
/// response to the session, an error is handed back as a JSON-RPC error.
pub open spec fn handler_post(
    answer: Result<ResultValueView, RpcErrorView>,
    session: SessionView,
    id: RpcIdView,
    r: Result<ResponseMessage, ServiceError>,
) -> bool {
    match answer {
        Ok(v) => r matches Ok(resp) && resp.id@ == session.client_id && resp.chain@ == session.chain_name
            && resp.result@ == output_text(true, Ok(v), id),
        Err(ev) => r matches Err(ServiceError::JsonrpcError(e)) && e@ == ev,
    }
}

/// Whether some key occurs twice.
pub(crate) fn has_duplicate(keys: &Vec<String>) -> (b: bool)
    ensures
        b == has_duplicates(keys.deep_view()),
{
    let n = keys.len();
    let ghost ks = keys.deep_view();
    let mut i: usize = 0;
    while i < n
        invariant
            n == keys@.len(),
            ks == keys.deep_view(),
            i <= n,
            forall|a: int, b: int| 0 <= a < i && a < b < n ==> ks[a] != ks[b],
        decreases n - i,
    {
        let mut j: usize = i + 1;
        while j < n
            invariant
                n == keys@.len(),
                ks == keys.deep_view(),
                i < n,
                i + 1 <= j <= n,
                forall|a: int, b: int| 0 <= a < i && a < b < n ==> ks[a] != ks[b],
                forall|b: int| i < b < j ==> ks[i as int] != ks[b],
            decreases n - j,
        {
            if keys[i] == keys[j] {
                proof {
                    assert(ks[i as int] == ks[j as int]);
                }
                return true;
            }
            j = j + 1;
        }
        i = i + 1;
    }
    false
}

/// The storage keys that subscription parameters ask for.
pub fn storage_keys_from(lists: Vec<Vec<String>>) -> (r: Result<StorageKeys<Vec<String>>, RpcError>)
    ensures
        match storage_keys_spec(lists.deep_view()) {
            Ok(k) => r matches Ok(x) && x@ == k,
            Err(e) => r matches Err(x) && x@ == e,
        },
{
    let ghost lv = lists.deep_view();
    let mut lists = lists;
    if lists.len() > 1 {
        return Err(RpcError::invalid_params("some params are invalid"));
    }
    if lists.len() == 0 {
        return Ok(StorageKeys::All);
    }
    let first = lists.pop().unwrap();
    assert(first.deep_view() == lv[0]);
    if first.len() == 0 {
        return Ok(StorageKeys::All);
    }
    if has_duplicate(&first) {
        return Err(RpcError::invalid_params("some params are invalid"));
    }
    Ok(StorageKeys::Keys(first))
}

/// Subscribes the session to the storage keys that the parameter lists ask
/// for, under a new subscription id, and answers with that id.
pub fn subscribe_storage(
    sessions: &mut StorageSessions,
    session: Session,
    rpc_id: RpcId,
    lists: Vec<Vec<String>>,
) -> (r: Result<ResponseMessage, ServiceError>)
    ensures
        ({
            let (m, answer) = subscribe_spec(old(sessions)@, old(sessions).next_id(),
                old(sessions).exhausted(), session@, lists.deep_view());
            &&& final(sessions)@ == m
            &&& handler_post(answer, session@, rpc_id@, r)
        }),
        forall|k: Seq<char>| old(sessions).issued(k) ==> final(sessions).issued(k),
        final(sessions)@.dom().contains(old(sessions).next_id()) ==> final(sessions).issued(old(sessions).next_id()),
        r is Err ==> final(sessions).next_id() == old(sessions).next_id(),
        forall|n: nat| #![trigger decimal(n)] old(sessions).next_id() == decimal(n) && r is Ok
            ==> final(sessions).next_id() == decimal(n + 1),
{
    sessions.next_id_is_fresh();
    let keys = match storage_keys_from(lists) {
        Ok(k) => k,
        Err(e) => return Err(ServiceError::JsonrpcError(e)),
    };
    let id = match sessions.new_subscription_id() {
        Some(id) => id,
        None => return Err(ServiceError::JsonrpcError(RpcError::new(INTERNAL_ERROR))),
    };
    sessions.insert(id.clone(), (session.clone(), keys));
    let result = response_json(true, Ok(ResultValue::String(id)), rpc_id)?;
    Ok(ResponseMessage { id: session.client_id, chain: session.chain_name, result })
}

/// Ends the subscription with the given id, and answers whether it
/// existed.
pub fn unsubscribe_storage(
    sessions: &mut StorageSessions,
    session: Session,
    rpc_id: RpcId,
    sub_id: String,
) -> (r: Result<ResponseMessage, ServiceError>)
    ensures
        ({
            let (m, answer) = unsubscribe_spec(old(sessions)@, sub_id@);
            &&& final(sessions)@ == m
            &&& handler_post(answer, session@, rpc_id@, r)
        }),
{
    let subscribed = sessions.remove(&sub_id).is_some();
    let result = response_json(true, Ok(ResultValue::Bool(subscribed)), rpc_id)?;
    Ok(ResponseMessage { id: session.client_id, chain: session.chain_name, result })
}

/// Handles `state_subscribeStorage`: the parameters are read as lists of
/// storage keys, and the session is subscribed to the keys they ask for.
/// When the parameters cannot be read, the call is refused as having
/// invalid parameters and nothing changes.
#[allow(non_snake_case)]
pub fn handle_state_subscribeStorage(
    sessions: &mut StorageSessions,
    session: Session,
    request: RpcCall,
) -> (r: Result<ResponseMessage, ServiceError>)
    ensures
        match params_key_lists(request.params@) {
            None => final(sessions)@ == old(sessions)@ && (r matches Err(ServiceError::JsonrpcError(e))
                && e.code == INVALID_PARAMS),
            Some(lists) => {
                let (m, answer) = subscribe_spec(old(sessions)@, old(sessions).next_id(),
                    old(sessions).exhausted(), session@, lists);
                &&& final(sessions)@ == m
                &&& handler_post(answer, session@, request.id@, r)
            },
        },
{
    let rpc_id = request.id.duplicate();
    let ghost old_sessions = *sessions;
    match request.key_lists() {
        Ok(lists) => {
            let ghost lv = lists.deep_view();
            let r = subscribe_storage(sessions, session, rpc_id, lists);
            assert(subscribe_spec(old_sessions@, old_sessions.next_id(), old_sessions.exhausted(),
                session@, lv).0 == sessions@);
            r
        },
        Err(e) => Err(ServiceError::JsonrpcError(e)),
    }
}

/// Handles `state_unsubscribeStorage`: the parameters are read as one
/// subscription id, and that subscription ends. When the parameters cannot
/// be read, the call is refused as having invalid parameters and nothing
/// changes.
#[allow(non_snake_case)]
pub fn handle_state_unsubscribeStorage(
    sessions: &mut StorageSessions,
    session: Session,
    request: RpcCall,
) -> (r: Result<ResponseMessage, ServiceError>)
    ensures
        match params_one_string(request.params@) {
            None => final(sessions)@ == old(sessions)@ && (r matches Err(ServiceError::JsonrpcError(e))
                && e.code == INVALID_PARAMS),
            Some(sub_id) => {
                let (m, answer) = unsubscribe_spec(old(sessions)@, sub_id);
                &&& final(sessions)@ == m
                &&& handler_post(answer, session@, request.id@, r)
            },
        },
{
    let rpc_id = request.id.duplicate();
    let ghost old_sessions = *sessions;
    match request.one_string() {
        Ok(sub_id) => {
            let ghost sv = sub_id@;
            let r = unsubscribe_storage(sessions, session, rpc_id, sub_id);
            assert(unsubscribe_spec(old_sessions@, sv).0 == sessions@);
            r
        },
        Err(e) => Err(ServiceError::JsonrpcError(e)),
    }
}

/// What a request leaves behind for an answer: the answer written as a
/// response to the session.
pub open spec fn reply_post(
    answer: Result<ResultValueView, RpcErrorView>,
    session: SessionView,
    id: RpcIdView,
    r: Result<ResponseMessage, ServiceError>,
) -> bool {
    r matches Ok(resp) && resp.id@ == session.client_id && resp.chain@ == session.chain_name
        && resp.result@ == answer_text(answer, id)
}

/// Writes an answer as a response to the session.
fn reply(session: Session, answer: Result<ResultValue, RpcError>, id: RpcId) -> (r: Result<ResponseMessage, ServiceError>)
    ensures
        reply_post(crate::rpc::result_view(answer), session@, id@, r),
{
    let v2 = answer.is_ok();
    let result = response_json(v2, answer, id)?;
    Ok(ResponseMessage { id: session.client_id, chain: session.chain_name, result })
}

/// Handles a client's request: its JSON-RPC call is read and dispatched by
/// method, and every outcome but a failure to write JSON is answered to
/// the client. A request that is no method call is answered with a parse
/// error and a null id, an unknown method with "method not found".
pub fn handle_request_message(sessions: &mut StorageSessions, msg: RequestMessage) -> (r: Result<ResponseMessage, ServiceError>)
    ensures
        ({
            let session = SessionView { chain_name: msg.chain@, client_id: msg.id@ };
            match method_call_of(msg.request@) {
                None => final(sessions)@ == old(sessions)@
                    && reply_post(Err(parse_error_view()), session, RpcIdView::Null, r),
                Some((method, id, params)) => if method == "state_subscribeStorage"@ {
                    match params_key_lists(params) {
                        None => final(sessions)@ == old(sessions)@ && exists|e: RpcErrorView|
                            e.code == INVALID_PARAMS && #[trigger] reply_post(Err(e), session, id, r),
                        Some(lists) => {
                            let (m, answer) = subscribe_spec(old(sessions)@,
                                old(sessions).next_id(), old(sessions).exhausted(), session, lists);
                            &&& final(sessions)@ == m
                            &&& reply_post(answer, session, id, r)
                        },
                    }
                } else if method == "state_unsubscribeStorage"@ {
                    match params_one_string(params) {
                        None => final(sessions)@ == old(sessions)@ && exists|e: RpcErrorView|
                            e.code == INVALID_PARAMS && #[trigger] reply_post(Err(e), session, id, r),
                        Some(sub_id) => {
                            let (m, answer) = unsubscribe_spec(old(sessions)@, sub_id);
                            &&& final(sessions)@ == m
                            &&& reply_post(answer, session, id, r)
                        },
                    }
                } else {
                    final(sessions)@ == old(sessions)@
                        && reply_post(Err(method_not_found_view()), session, id, r)
                },
            }
        }),
{
    let session = Session::from(&msg);
    let call = match RpcCall::from_json(msg.request.as_str()) {
        Ok(c) => c,
        Err(_) => return reply(session, Err(RpcError::parse_error()), RpcId::Null),
    };
    let rpc_id = call.id.duplicate();
    let ghost sv = session@;
    let ghost idv = rpc_id@;
    let res = if call.method == String::from_str("state_subscribeStorage") {
        handle_state_subscribeStorage(sessions, session.clone(), call)
    } else if call.method == String::from_str("state_unsubscribeStorage") {
        handle_state_unsubscribeStorage(sessions, session.clone(), call)
    } else {
        Err(ServiceError::JsonrpcError(RpcError::method_not_found()))
    };
    match res {
        Ok(resp) => Ok(resp),
        Err(ServiceError::JsonrpcError(e)) => {
            let ghost ev = e@;
            let r = reply(session, Err(e), rpc_id);
            assert(reply_post(Err(ev), sv, idv, r));
            r
        },
        Err(e) => Err(e),
    }
}

/// A subscription that is refused for its parameters changes nothing.
pub proof fn lemma_refused_subscription_changes_nothing(
    m: Map<Seq<char>, (SessionView, StorageKeys<Seq<Seq<char>>>)>,
    next_id: Seq<char>,
    exhausted: bool,
    session: SessionView,
    lists: Seq<Seq<Seq<char>>>,
)
    requires
        storage_keys_spec(lists) is Err,
    ensures
        subscribe_spec(m, next_id, exhausted, session, lists).0 == m,
        subscribe_spec(m, next_id, exhausted, session, lists).1 == Err::<ResultValueView, RpcErrorView>(
            invalid_params_error(),
        ),
{
}

/// A subscription touches no other subscription: every other id keeps
/// what it had.
pub proof fn lemma_subscription_leaves_others(
    m: Map<Seq<char>, (SessionView, StorageKeys<Seq<Seq<char>>>)>,
    next_id: Seq<char>,
    exhausted: bool,
    session: SessionView,
    lists: Seq<Seq<Seq<char>>>,
    other: Seq<char>,
)
    requires
        other != next_id,
    ensures
        subscribe_spec(m, next_id, exhausted, session, lists).0.dom().contains(other) == m.dom().contains(other),
        m.dom().contains(other) ==> subscribe_spec(m, next_id, exhausted, session, lists).0[other] == m[other],
{
}

/// Unsubscribing with the id that a subscription answered with ends it:
/// the answer is `true` and the subscriptions are as before.
pub proof fn lemma_unsubscribe_undoes_subscribe(
    m: Map<Seq<char>, (SessionView, StorageKeys<Seq<Seq<char>>>)>,
    next_id: Seq<char>,
    session: SessionView,
    lists: Seq<Seq<Seq<char>>>,
)
    requires
        !m.dom().contains(next_id),
        storage_keys_spec(lists) is Ok,
    ensures
        ({
            let (m1, a1) = subscribe_spec(m, next_id, false, session, lists);
            let (m2, a2) = unsubscribe_spec(m1, next_id);
            &&& a1 == Ok::<ResultValueView, RpcErrorView>(ResultValueView::String(next_id))
            &&& m1.dom().contains(next_id)
            &&& m2 == m
            &&& a2 == Ok::<ResultValueView, RpcErrorView>(ResultValueView::Bool(true))
        }),
{
    let (m1, a1) = subscribe_spec(m, next_id, false, session, lists);
    assert(m1.remove(next_id) =~= m);
}

/// The rules on subscription keys: more than one list is refused; a single
/// list that repeats a key is refused as having invalid parameters, with
/// the message "some params are invalid"; and an accepted subscription to
/// selected keys holds exactly the keys of its one list, each once.
pub proof fn lemma_storage_keys_rules(lists: Seq<Seq<Seq<char>>>)
    ensures
        lists.len() > 1 ==> storage_keys_spec(lists) == Err::<StorageKeys<Seq<Seq<char>>>, RpcErrorView>(
            RpcErrorView { code: INVALID_PARAMS, message: "some params are invalid"@ },
        ),
        lists.len() == 1 && (exists|i: int, j: int| 0 <= i < j < lists[0].len() && #[trigger] lists[0][i]
            == #[trigger] lists[0][j]) ==> storage_keys_spec(lists) == Err::<
            StorageKeys<Seq<Seq<char>>>,
            RpcErrorView,
        >(RpcErrorView { code: INVALID_PARAMS, message: "some params are invalid"@ }),
        storage_keys_spec(lists) matches Ok(StorageKeys::Keys(ks)) ==> lists.len() == 1 && ks == lists[0]
            && ks.len() > 0 && forall|i: int, j: int| 0 <= i < j < ks.len() ==> #[trigger] ks[i] != #[trigger] ks[j],
        storage_keys_spec(lists) matches Ok(StorageKeys::All) ==> lists.len() == 0 || (lists.len() == 1
            && lists[0].len() == 0),
{
}

/// Subscriptions are refused for want of ids only when the 64-bit counter
/// has run out: on a map that has handed out `n < u64::MAX` ids, a
/// subscription with acceptable keys is recorded under the id `n`, in
/// decimal, and answered with it.
pub proof fn lemma_subscription_before_counter_end(
    sessions: StorageSessions,
    n: nat,
    session: SessionView,
    lists: Seq<Seq<Seq<char>>>,
)
    requires
        sessions.next_id() == decimal(n),
        n < u64::MAX,
        storage_keys_spec(lists) is Ok,
    ensures
        ({
            let (m, answer) = subscribe_spec(sessions@, sessions.next_id(), sessions.exhausted(), session, lists);
            &&& answer == Ok::<ResultValueView, RpcErrorView>(ResultValueView::String(decimal(n)))
            &&& m.dom().contains(decimal(n))
            &&& m[decimal(n)] == (session, storage_keys_spec(lists)->Ok_0)
        }),
{
    sessions.lemma_exhausted_only_at_counter_end(n);
}

/// Two subscriptions never share an id: an id handed out earlier differs
/// from the id a map hands out next, which no subscription has.
pub proof fn lemma_distinct_ids(earlier: Seq<char>, sessions: StorageSessions)
    requires
        sessions.issued(earlier),
        !sessions.issued(sessions.next_id()),
    ensures
        earlier != sessions.next_id(),
{
}

/// Unsubscribing twice: the second call finds nothing, answers `false`,
/// and changes nothing.
pub proof fn lemma_unsubscribe_twice(
    m: Map<Seq<char>, (SessionView, StorageKeys<Seq<Seq<char>>>)>,
    sub_id: Seq<char>,
)
    ensures
        ({
            let (m1, a1) = unsubscribe_spec(m, sub_id);
            let (m2, a2) = unsubscribe_spec(m1, sub_id);
            &&& !m1.dom().contains(sub_id)
            &&& m2 == m1
            &&& a2 == Ok::<ResultValueView, RpcErrorView>(ResultValueView::Bool(false))
        }),
{
    let (m1, a1) = unsubscribe_spec(m, sub_id);
    assert(m1.remove(sub_id) =~= m1);
}

} // verus!
