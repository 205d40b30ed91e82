use elara_kv_component::message::{RequestMessage, ResponseMessage};
use elara_kv_component::rpc::{RpcCall, RpcId, ServiceError, INVALID_PARAMS, METHOD_NOT_FOUND, PARSE_ERROR};
use elara_kv_component::session::{Session, StorageKeys, StorageSessions};
use elara_kv_component::util::{
    handle_request_message, handle_state_subscribeStorage, handle_state_unsubscribeStorage,
    storage_keys_from, subscribe_storage, unsubscribe_storage,
};
use jsonrpc_core::{Failure, Id, Params, Success, Value, Version};

fn session(chain: &str, client: &str) -> Session {
    Session { chain_name: chain.to_string(), client_id: client.to_string() }
}

#[allow(non_snake_case)]
#[test]
fn test_state_subscribeStorage() {
    let mut sessions = StorageSessions::default();

    // subscribe
    let session = Session {
        chain_name: "test-net".to_string(),
        client_id: "0x1".to_string(),
    };

    let request = RpcCall::from_json(
        r##"
{
  "jsonrpc": "2.0",
  "method": "state_subscribeStorage",
  "params": [],
  "id": 1
}
        "##,
    )
    .unwrap();

    let resp = handle_state_subscribeStorage(&mut sessions, session.clone(), request).unwrap();

    let result: Success = serde_json::from_str(&*resp.result).unwrap();

    // unsubscribe
    let session = Session {
        chain_name: "test-net".to_string(),
        client_id: "0x2".to_string(),
    };
    let make_request = || RpcCall {
        method: "state_unsubscribeStorage".to_string(),
        params: serde_json::to_string(&Params::Array(vec![Value::String(
            result.result.as_str().unwrap().to_string(),
        )]))
        .unwrap(),
        id: RpcId::Num(2),
    };

    let resp = handle_state_unsubscribeStorage(&mut sessions, session.clone(), make_request()).unwrap();
    assert_eq!(
        resp,
        ResponseMessage {
            id: "0x2".to_string(),
            chain: "test-net".to_string(),
            result: serde_json::to_string(&Success {
                jsonrpc: Some(Version::V2),
                result: Value::Bool(true),
                id: Id::Num(2),
            })
            .unwrap(),
        }
    );

    // unsubscribe again
    let resp = handle_state_unsubscribeStorage(&mut sessions, session, make_request()).unwrap();
    assert_eq!(
        resp,
        ResponseMessage {
            id: "0x2".to_string(),
            chain: "test-net".to_string(),
            result: serde_json::to_string(&Success {
                jsonrpc: Some(Version::V2),
                result: Value::Bool(false),
                id: Id::Num(2),
            })
            .unwrap(),
        }
    );
}

fn lists(v: &[&[&str]]) -> Vec<Vec<String>> {
    v.iter().map(|l| l.iter().map(|s| s.to_string()).collect()).collect()
}

#[test]
fn storage_keys_rules() {
    assert!(matches!(storage_keys_from(lists(&[])), Ok(StorageKeys::All)));
    assert!(matches!(storage_keys_from(lists(&[&[]])), Ok(StorageKeys::All)));
    match storage_keys_from(lists(&[&["0xaa", "0xbb"]])) {
        Ok(StorageKeys::Keys(k)) => assert_eq!(k, vec!["0xaa".to_string(), "0xbb".to_string()]),
        other => panic!("unexpected {:?}", other),
    }
    let e = storage_keys_from(lists(&[&["0xaa", "0xaa"]])).unwrap_err();
    assert_eq!(e.code, INVALID_PARAMS);
    assert_eq!(e.message, "some params are invalid");
    let e = storage_keys_from(lists(&[&["0xaa"], &["0xbb"]])).unwrap_err();
    assert_eq!(e.code, -32602);
}

#[test]
fn subscription_ids_are_fresh_and_counted() {
    let mut sessions = StorageSessions::new();
    let r1 = subscribe_storage(&mut sessions, session("polkadot", "a"), RpcId::Num(1), lists(&[])).unwrap();
    let r2 = subscribe_storage(&mut sessions, session("polkadot", "a"), RpcId::Num(2), lists(&[])).unwrap();
    assert_eq!(r1.result, r#"{"jsonrpc":"2.0","result":"0","id":1}"#);
    assert_eq!(r2.result, r#"{"jsonrpc":"2.0","result":"1","id":2}"#);
    assert_eq!(r1.id, "a");
    assert_eq!(r1.chain, "polkadot");
    assert_eq!(sessions.iter().len(), 2);
    let (s, keys) = sessions.get(&"1".to_string()).unwrap();
    assert_eq!(s.client_id, "a");
    assert!(matches!(keys, StorageKeys::All));
}

#[test]
fn subscribe_then_unsubscribe_restores() {
    let mut sessions = StorageSessions::new();
    let _ = subscribe_storage(&mut sessions, session("kusama", "c"), RpcId::Null, lists(&[&["k1"]])).unwrap();
    let r = unsubscribe_storage(&mut sessions, session("kusama", "c"), RpcId::Str("x".to_string()), "0".to_string()).unwrap();
    assert_eq!(r.result, r#"{"jsonrpc":"2.0","result":true,"id":"x"}"#);
    assert_eq!(sessions.iter().len(), 0);
    let r = unsubscribe_storage(&mut sessions, session("kusama", "c"), RpcId::Str("x".to_string()), "0".to_string()).unwrap();
    assert_eq!(r.result, r#"{"jsonrpc":"2.0","result":false,"id":"x"}"#);
}

#[test]
fn refused_subscription_changes_nothing() {
    let mut sessions = StorageSessions::new();
    match subscribe_storage(&mut sessions, session("kusama", "c"), RpcId::Num(3), lists(&[&["k"], &["j"]])) {
        Err(ServiceError::JsonrpcError(e)) => assert_eq!(e.code, INVALID_PARAMS),
        other => panic!("unexpected {:?}", other),
    }
    assert_eq!(sessions.iter().len(), 0);
    // the next subscription still gets the first id
    let r = subscribe_storage(&mut sessions, session("kusama", "c"), RpcId::Num(4), lists(&[])).unwrap();
    assert_eq!(r.result, r#"{"jsonrpc":"2.0","result":"0","id":4}"#);
}

#[test]
fn unreadable_params_are_invalid_params() {
    let mut sessions = StorageSessions::new();
    let call = RpcCall { method: "state_subscribeStorage".to_string(), params: serde_json::to_string(&Params::None).unwrap(), id: RpcId::Num(1) };
    match handle_state_subscribeStorage(&mut sessions, session("a", "b"), call) {
        Err(ServiceError::JsonrpcError(e)) => assert_eq!(e.code, INVALID_PARAMS),
        other => panic!("unexpected {:?}", other),
    }
    let call = RpcCall {
        method: "state_unsubscribeStorage".to_string(),
        params: serde_json::to_string(&Params::Array(vec![Value::Bool(true)])).unwrap(),
        id: RpcId::Num(1),
    };
    match handle_state_unsubscribeStorage(&mut sessions, session("a", "b"), call) {
        Err(ServiceError::JsonrpcError(e)) => assert_eq!(e.code, INVALID_PARAMS),
        other => panic!("unexpected {:?}", other),
    }
}

fn request(id: &str, chain: &str, text: &str) -> RequestMessage {
    RequestMessage { id: id.to_string(), chain: chain.to_string(), request: text.to_string() }
}

#[test]
fn request_that_is_no_call_gets_parse_error() {
    let mut sessions = StorageSessions::new();
    let resp = handle_request_message(&mut sessions, request("c1", "polkadot", "not json")).unwrap();
    assert_eq!(resp.id, "c1");
    assert_eq!(resp.chain, "polkadot");
    let failure: Failure = serde_json::from_str(&resp.result).unwrap();
    assert_eq!(failure.error.code.code(), PARSE_ERROR);
    assert_eq!(failure.id, Id::Null);
    assert_eq!(failure.jsonrpc, None);
}

#[test]
fn unknown_method_gets_method_not_found() {
    let mut sessions = StorageSessions::new();
    let resp = handle_request_message(
        &mut sessions,
        request("c1", "polkadot", r#"{"jsonrpc":"2.0","method":"chain_getBlock","params":[],"id":7}"#),
    )
    .unwrap();
    assert_eq!(resp.result, r#"{"error":{"code":-32601,"message":"Method not found"},"id":7}"#);
    assert_eq!(METHOD_NOT_FOUND, -32601);
}

#[test]
fn request_flow_subscribe_and_unsubscribe() {
    let mut sessions = StorageSessions::new();
    let resp = handle_request_message(
        &mut sessions,
        request("c1", "polkadot", r#"{"jsonrpc":"2.0","method":"state_subscribeStorage","params":[["0x01"]],"id":1}"#),
    )
    .unwrap();
    assert_eq!(resp.result, r#"{"jsonrpc":"2.0","result":"0","id":1}"#);
    let resp = handle_request_message(
        &mut sessions,
        request("c1", "polkadot", r#"{"jsonrpc":"2.0","method":"state_subscribeStorage","params":[["0x01","0x01"]],"id":2}"#),
    )
    .unwrap();
    assert_eq!(resp.result, r#"{"error":{"code":-32602,"message":"some params are invalid"},"id":2}"#);
    let resp = handle_request_message(
        &mut sessions,
        request("c1", "polkadot", r#"{"jsonrpc":"2.0","method":"state_unsubscribeStorage","params":["0"],"id":3}"#),
    )
    .unwrap();
    assert_eq!(resp.result, r#"{"jsonrpc":"2.0","result":true,"id":3}"#);
}
