use elara_kv_component::config::toml::{chain_targets, log_level, ChainConfig, LogConfig, LogLevel};
use elara_kv_component::kafka_api::KafkaStoragePayloadItem;
use elara_kv_component::message::{RequestMessage, ResponseErrorMessage, SubscriptionId};
use elara_kv_component::route::{RouteKey, StorageKeys as RouteKeys, SubscriptionRoute};
use elara_kv_component::rpc::{JsonValue, RpcCall, RpcError, RpcId, ServiceError};
use elara_kv_component::rpc_api::state::StateStorageResult;
use elara_kv_component::rpc_api::SubscribedResult;
use elara_kv_component::session::{Session, Sessions, StorageKeys, StorageSessions, SubscriptionSession};
use elara_kv_component::text::{parse_u32, split_str, u64_to_decimal};
use elara_kv_component::util::subscribe_storage;
use elara_kv_component::websocket::{
    collect_subscribed_storage, echo_action, frame_action, kafka_route, EchoAction, Frame, FrameAction, KafkaRoute,
};

#[test]
fn test_request_message() {
    let request_data = r#"
{
    "id": "b6c6d0aa16b0f5eb65e6fd87c6ffbba2",
    "chain": "polkadot",
    "request": "{\n\"id\": 141,\n\"jsonrpc\": \"2.0\",\n\"method\": \"state_subscribeStorage\",\n\"params\": [ [\"0x2aeddc77fe58c98d50bd37f1b90840f9cd7f37317cd20b61e9bd46fab87047149c21b6ab44c00eb3127a30e486492921e58f2564b36ab1ca21ff630672f0e76920edd601f8f2b89a\"]]}"
}
"#;
    let v: serde_json::Value = serde_json::from_str(request_data).unwrap();
    let v = RequestMessage {
        id: v["id"].as_str().unwrap().to_string(),
        chain: v["chain"].as_str().unwrap().to_string(),
        request: v["request"].as_str().unwrap().to_string(),
    };
    let call = RpcCall::from_json(&*v.request).unwrap();
    assert_eq!(call.method, "state_subscribeStorage");
    assert!(matches!(call.id, RpcId::Num(141)));
    let keys = call.key_lists().unwrap();
    assert_eq!(keys.len(), 1);
}

#[test]
fn test_response_message() {
    let data = r#"
{
    "id": "b6c6d0aa16b0f5eb65e6fd87c6ffbba2",
    "chain": "polkadot",
    "result": "{\n\"jsonrpc\": \"2.0\",\n\"result\": \"0x91b171bb158e2d3848fa23a9f1c25182fb8e20313b2c1eb49219da7a70ce90c3\",\"id\": 1}"
}
"#;
    let v: serde_json::Value = serde_json::from_str(data).unwrap();
    let result = v["result"].as_str().unwrap();
    let _v: jsonrpc_core::Success = serde_json::from_str(result).unwrap();
}

#[test]
fn parse_value_and_conversions() {
    assert!(matches!(SubscriptionId::parse_value(&JsonValue::String("ab".to_string())), Some(SubscriptionId::String(s)) if s == "ab"));
    assert!(matches!(SubscriptionId::parse_value(&JsonValue::Number(Some(5))), Some(SubscriptionId::Number(5))));
    assert!(SubscriptionId::parse_value(&JsonValue::Number(None)).is_none());
    assert!(SubscriptionId::parse_value(&JsonValue::Bool(true)).is_none());
    assert!(SubscriptionId::parse_value(&JsonValue::Null).is_none());
    assert!(matches!(SubscriptionId::from(7u8), SubscriptionId::Number(7)));
    assert!(matches!(SubscriptionId::from(70000u32), SubscriptionId::Number(70000)));
    assert!(matches!(JsonValue::from(SubscriptionId::Number(3)), JsonValue::Number(Some(3))));
    assert!(matches!(JsonValue::from(SubscriptionId::from("x".to_string())), JsonValue::String(s) if s == "x"));
}

#[test]
fn error_texts() {
    assert_eq!(RpcError::method_not_found().to_text(), "Method not found: Method not found");
    assert_eq!(RpcError::invalid_params("bad").to_text(), "Invalid params: bad");
    assert_eq!(RpcError::new(-1).to_text(), "Server error: Server error");
    let m = ResponseErrorMessage::from(ServiceError::JsonrpcError(RpcError::parse_error()));
    assert_eq!(m.error, "Parse error: Parse error");
    let e = serde_json::from_str::<u8>("x").unwrap_err();
    let text = e.to_string();
    assert_eq!(ResponseErrorMessage::from(ServiceError::JsonError(e)).error, text);
    assert!(matches!(RpcCall::from_json("{"), Err(ServiceError::JsonError(_))));
}

#[test]
fn sessions_ids_follow_sessions() {
    let mut s = Sessions::default();
    let a = Session { chain_name: "polkadot".to_string(), client_id: "0x1".to_string() };
    s.insert(a.clone(), StorageKeys::All);
    assert_eq!(s.subscription_id(&a), Some("3:0x1polkadot".to_string()));
    // Sessions whose client id and chain name run together alike still get distinct ids.
    let b = Session { chain_name: "bc".to_string(), client_id: "a".to_string() };
    let c = Session { chain_name: "c".to_string(), client_id: "ab".to_string() };
    s.insert(b.clone(), StorageKeys::All);
    s.insert(c.clone(), StorageKeys::All);
    assert_eq!(s.subscription_id(&b), Some("1:abc".to_string()));
    assert_eq!(s.subscription_id(&c), Some("2:abc".to_string()));
    s.remove(&b);
    s.remove(&c);
    assert_eq!(s.iter().len(), 1);
    s.insert(a.clone(), StorageKeys::Keys(vec!["k".to_string()]));
    assert_eq!(s.iter().len(), 1);
    s.remove(&a);
    assert_eq!(s.subscription_id(&a), None);
    let msg = RequestMessage { id: "c".to_string(), chain: "k".to_string(), request: String::new() };
    let sess = Session::from(&msg);
    assert_eq!((sess.chain_name.as_str(), sess.client_id.as_str()), ("k", "c"));
}

#[test]
fn route_subscriptions() {
    let mut route = SubscriptionRoute::default();
    let msg = RequestMessage {
        id: "c1".to_string(),
        chain: "polkadot".to_string(),
        request: r#"{"jsonrpc":"2.0","method":"state_subscribeStorage","params":[[]],"id":1}"#.to_string(),
    };
    let resp = route.handle_request(msg).unwrap();
    assert_eq!(resp.result, r#"{"jsonrpc":"2.0","result":"c1","id":1}"#);
    let key = RouteKey { chain_name: "polkadot".to_string(), client_id: "c1".to_string() };
    assert!(matches!(route.0.get(&key), Some(RouteKeys::All)));
    assert_eq!(route.all_keys_clients(), vec!["c1".to_string()]);
    // The route table needs exactly one list of keys.
    let msg = RequestMessage {
        id: "c2".to_string(),
        chain: "polkadot".to_string(),
        request: r#"{"jsonrpc":"2.0","method":"state_subscribeStorage","params":[],"id":2}"#.to_string(),
    };
    assert!(matches!(route.handle_request(msg), Err(ServiceError::JsonrpcError(e)) if e.code == -32602));
    let msg = RequestMessage { id: "c2".to_string(), chain: "polkadot".to_string(), request: "[".to_string() };
    assert!(matches!(route.handle_request(msg), Err(ServiceError::JsonError(_))));
    let msg = RequestMessage {
        id: "c2".to_string(),
        chain: "polkadot".to_string(),
        request: r#"{"jsonrpc":"2.0","method":"other","params":[],"id":2}"#.to_string(),
    };
    assert!(matches!(route.handle_request(msg), Err(ServiceError::JsonrpcError(e)) if e.code == -32601));
    let msg = RequestMessage {
        id: "c3".to_string(),
        chain: "kusama".to_string(),
        request: r#"{"jsonrpc":"2.0","method":"state_subscribeStorage","params":[["k"]],"id":3}"#.to_string(),
    };
    assert!(route.handle_request(msg).is_ok());
    assert_eq!(route.all_keys_clients(), vec!["c1".to_string()]);
    // One entry per routing key: the same client on two chains is listed twice, once per key.
    let msg = RequestMessage {
        id: "c1".to_string(),
        chain: "kusama".to_string(),
        request: r#"{"jsonrpc":"2.0","method":"state_subscribeStorage","params":[[]],"id":4}"#.to_string(),
    };
    assert!(route.handle_request(msg).is_ok());
    assert_eq!(route.all_keys_clients(), vec!["c1".to_string(), "c1".to_string()]);
}

fn item(hash: &str, key: &str, storage: Option<&str>) -> KafkaStoragePayloadItem {
    KafkaStoragePayloadItem {
        id: 1,
        block_num: 2,
        hash: hash.to_string(),
        is_full: false,
        key: key.to_string(),
        storage: storage.map(|s| s.to_string()),
    }
}

#[test]
fn storage_notifications() {
    let payload = vec![item("0xb", "k1", None), item("0xb", "k2", Some("v"))];
    let r = StateStorageResult::from(&payload);
    assert_eq!(r.block, "0xb");
    assert_eq!(r.changes, vec![("k1".to_string(), None), ("k2".to_string(), Some("v".to_string()))]);
    assert_eq!(StateStorageResult::from(&vec![]).block, "");

    let mut sessions = StorageSessions::new();
    let s = Session { chain_name: "polkadot".to_string(), client_id: "a".to_string() };
    subscribe_storage(&mut sessions, s.clone(), RpcId::Num(1), vec![]).unwrap();
    subscribe_storage(&mut sessions, s.clone(), RpcId::Num(2), vec![]).unwrap();
    let pushes = collect_subscribed_storage(&sessions, &SubscribedResult::StateStorageResult(r));
    assert_eq!(pushes.len(), 2);
    let mut ids: Vec<String> = pushes
        .iter()
        .map(|(sess, d)| {
            assert_eq!(sess.client_id, "a");
            assert_eq!(d.method, "");
            match &d.params.subscription {
                SubscriptionId::String(id) => id.clone(),
                SubscriptionId::Number(_) => panic!("numeric id"),
            }
        })
        .collect();
    ids.sort();
    assert_eq!(ids, vec!["0".to_string(), "1".to_string()]);
}

#[test]
fn frames_and_kafka_messages() {
    assert_eq!(frame_action(Frame::Text(String::new())), FrameAction::Skip);
    assert_eq!(frame_action(Frame::Text("x".to_string())), FrameAction::Handle("x".to_string()));
    assert_eq!(frame_action(Frame::Ping(4)), FrameAction::SendPong);
    assert_eq!(frame_action(Frame::Ping(0)), FrameAction::Skip);
    assert_eq!(frame_action(Frame::Pong(4)), FrameAction::Ignore);
    assert_eq!(frame_action(Frame::Close(2)), FrameAction::Stop);
    assert_eq!(frame_action(Frame::Binary(3)), FrameAction::Ignore);
    assert_eq!(echo_action(&Frame::Binary(3)), EchoAction::Echo);
    assert_eq!(echo_action(&Frame::Close(0)), EchoAction::Stop);
    assert_eq!(echo_action(&Frame::Ping(1)), EchoAction::Ignore);
    assert_eq!(kafka_route("polkadot", Some(b"storage"), true), KafkaRoute::Storage);
    assert_eq!(kafka_route("kusama", Some(b"storage"), true), KafkaRoute::Storage);
    assert_eq!(kafka_route("kusama", Some(b"block"), true), KafkaRoute::UnknownKey);
    assert_eq!(kafka_route("kusama", None, true), KafkaRoute::NoKey);
    assert_eq!(kafka_route("westend", Some(b"storage"), true), KafkaRoute::UnknownTopic);
    assert_eq!(kafka_route("polkadot", Some(b"storage"), false), KafkaRoute::EmptyPayload);
}

#[test]
fn configuration() {
    let chains = vec![
        ChainConfig { name: "polkadot".to_string(), rpcUrl: "r1".to_string(), wsUrl: "w1".to_string() },
        ChainConfig { name: "kusama".to_string(), rpcUrl: "r2".to_string(), wsUrl: "w2".to_string() },
        ChainConfig { name: "polkadot".to_string(), rpcUrl: "r3".to_string(), wsUrl: "w3".to_string() },
    ];
    let (ws, rpc) = chain_targets(&chains);
    assert_eq!(ws.len(), 2);
    assert_eq!(ws.get(&"polkadot".to_string()), Some(&"w3".to_string()));
    assert_eq!(rpc.get(&"kusama".to_string()), Some(&"r2".to_string()));
    assert_eq!(log_level(&LogConfig { level: "Warn".to_string() }), LogLevel::Warn);
    assert_eq!(log_level(&LogConfig { level: "Trace".to_string() }), LogLevel::Trace);
    assert_eq!(log_level(&LogConfig { level: "warn".to_string() }), LogLevel::Off);
}

#[test]
fn text_helpers() {
    assert_eq!(split_str("a, b, c", ", "), vec!["a", "b", "c"]);
    assert_eq!(split_str("/x/y", "/"), vec!["", "x", "y"]);
    assert_eq!(split_str("", "/"), vec![""]);
    assert_eq!(u64_to_decimal(0), "0");
    assert_eq!(u64_to_decimal(1234567890), "1234567890");
    assert_eq!(u64_to_decimal(u64::MAX), u64::MAX.to_string());
    assert_eq!(parse_u32("1088"), Some(1088));
    assert_eq!(parse_u32("4294967295"), Some(u32::MAX));
    assert_eq!(parse_u32("4294967296"), None);
    assert_eq!(parse_u32(""), None);
    assert_eq!(parse_u32("12a"), None);
}

#[test]
fn call_parameters_are_read() {
    let call = RpcCall::from_json(r#"{"jsonrpc":"2.0","method":"m","params":[["a","b"],[]],"id":"x"}"#).unwrap();
    assert!(matches!(&call.id, RpcId::Str(s) if s == "x"));
    assert_eq!(call.key_lists().unwrap(), vec![vec!["a".to_string(), "b".to_string()], vec![]]);
    let call = RpcCall::from_json(r#"{"jsonrpc":"2.0","method":"m","params":["7"],"id":1}"#).unwrap();
    assert_eq!(call.one_string().unwrap(), "7");
    let call = RpcCall::from_json(r#"{"jsonrpc":"2.0","method":"m","id":1}"#).unwrap();
    assert_eq!(call.params, "null");
    assert_eq!(call.key_lists().unwrap_err().code, -32602);
    let call = RpcCall::from_json(r#"{"jsonrpc":"2.0","method":"m","params":["7","8"],"id":1}"#).unwrap();
    assert_eq!(call.one_string().unwrap_err().code, -32602);
    let call = RpcCall { method: "m".to_string(), params: "not json".to_string(), id: RpcId::Null };
    assert_eq!(call.key_lists().unwrap_err().code, -32602);
}

fn sub_id(d: &elara_kv_component::message::SubscribedData) -> String {
    match &d.params.subscription {
        SubscriptionId::String(id) => id.clone(),
        SubscriptionId::Number(_) => panic!("numeric id"),
    }
}

#[test]
fn route_notifications() {
    let mut route = SubscriptionRoute::default();
    for (client, chain, params) in [("c1", "polkadot", "[[]]"), ("c2", "polkadot", r#"[["k"]]"#), ("c1", "kusama", "[[]]")] {
        let msg = RequestMessage {
            id: client.to_string(),
            chain: chain.to_string(),
            request: format!(r#"{{"jsonrpc":"2.0","method":"state_subscribeStorage","params":{},"id":1}}"#, params),
        };
        assert!(route.handle_request(msg).is_ok());
    }
    let result = SubscribedResult::StateStorageResult(StateStorageResult::from(&vec![item("0xb", "k", None)]));
    let pushes = route.all_keys_notifications(&result);
    assert_eq!(pushes.len(), 2);
    for d in &pushes {
        assert_eq!(sub_id(d), "c1");
        assert_eq!(d.method, "");
        assert!(d.jsonrpc.is_some());
        let SubscribedResult::StateStorageResult(r) = &d.params.result;
        assert_eq!(r.block, "0xb");
    }
}

#[test]
fn session_table_requests_and_notifications() {
    let mut table = SubscriptionSession::new();
    let request = |client: &str, body: &str| RequestMessage {
        id: client.to_string(),
        chain: "polkadot".to_string(),
        request: body.to_string(),
    };
    let resp = table
        .handle_request(request("c1", r#"{"jsonrpc":"2.0","method":"state_subscribeStorage","params":[],"id":1}"#))
        .unwrap();
    assert_eq!(resp.result, r#"{"jsonrpc":"2.0","result":"c1","id":1}"#);
    assert!(table
        .handle_request(request("c2", r#"{"jsonrpc":"2.0","method":"state_subscribeStorage","params":[["k"]],"id":2}"#))
        .is_ok());
    match table.handle_request(request("c3", r#"{"jsonrpc":"2.0","method":"state_subscribeStorage","params":[["k","k"]],"id":3}"#)) {
        Err(ServiceError::JsonrpcError(e)) => assert_eq!(e.message, "some params are invalid"),
        other => panic!("unexpected {:?}", other),
    }
    match table.handle_request(request("c3", r#"{"jsonrpc":"2.0","method":"other","params":[],"id":4}"#)) {
        Err(ServiceError::JsonrpcError(e)) => assert_eq!(e.code, -32601),
        other => panic!("unexpected {:?}", other),
    }
    assert!(matches!(table.handle_request(request("c3", "{")), Err(ServiceError::JsonError(_))));
    let result = SubscribedResult::StateStorageResult(StateStorageResult::from(&vec![]));
    let pushes = table.all_keys_notifications(&result);
    assert_eq!(pushes.len(), 1);
    assert_eq!(sub_id(&pushes[0]), "c1");
}
