use elara_kv_component::http::actix_server::TransferRefusal;
use elara_kv_component::assoc::AssocMap;
use elara_kv_component::http::server::ReqMessage;
use elara_kv_component::relay::{
    client_ip, client_method_update, headerString, makeReqMessageTemplate, message_method, newReqMessage,
    relay_admission, relay_target, server_report, MethodField,
};

#[test]
fn template_from_path() {
    let mut m = ReqMessage::new();
    makeReqMessageTemplate(&mut m, "/polkadot/p123/extra", "1.2.3.4".to_string(), "{h}".to_string());
    assert_eq!(m.protocol, "websocket");
    assert_eq!(m.chain, "polkadot");
    assert_eq!(m.pid, "p123");
    assert_eq!(m.ip, "1.2.3.4");
    assert_eq!(m.header, "{h}");
    let n = newReqMessage(&m);
    assert_eq!(n.chain, "polkadot");
    assert_eq!(n.method, "");
    assert_eq!(n.code, 0);
}

#[test]
fn client_address() {
    assert_eq!(client_ip("1.1.1.1:5".to_string(), None), "1.1.1.1:5");
    assert_eq!(client_ip("1.1.1.1:5".to_string(), Some("8.8.8.8".to_string())), "8.8.8.8");
}

#[test]
fn headers_last_wins() {
    let m = headerString(vec![
        ("host".to_string(), "a".to_string()),
        ("x".to_string(), "1".to_string()),
        ("host".to_string(), "b".to_string()),
    ]);
    assert_eq!(m.len(), 2);
    assert_eq!(m.get(&"host".to_string()), Some(&"b".to_string()));
    assert_eq!(m.get(&"x".to_string()), Some(&"1".to_string()));
}

#[test]
fn relay_targets() {
    let mut t = AssocMap::new();
    t.insert("polkadot".to_string(), "ws://node".to_string());
    assert_eq!(relay_target(&t, "/polkadot/p"), Some("ws://node".to_string()));
    assert_eq!(relay_target(&t, "/kusama/p"), None);
}

#[test]
fn relay_admissions() {
    let mut t = AssocMap::new();
    t.insert("polkadot".to_string(), "ws://node".to_string());
    assert_eq!(relay_admission(true, &t, "/polkadot/p"), Ok("ws://node".to_string()));
    assert_eq!(relay_admission(true, &t, "/kusama/p"), Err(TransferRefusal::ChainNotConfigured));
    assert_eq!(relay_admission(false, &t, "/polkadot/p"), Err(TransferRefusal::ProjectMismatch));
}

#[test]
fn method_members() {
    assert!(matches!(message_method(r#"{"method":"chain_getBlock"}"#), Some(MethodField::Str(s)) if s == "chain_getBlock"));
    assert!(matches!(message_method(r#"{"result":1}"#), Some(MethodField::Absent)));
    assert!(matches!(message_method(r#"{"method":3}"#), Some(MethodField::Other)));
    assert!(message_method("not json").is_none());
}

#[test]
fn reports_of_relayed_messages() {
    let mut t = ReqMessage::new();
    makeReqMessageTemplate(&mut t, "/polkadot/p", "ip".to_string(), "h".to_string());
    let cached = "state_getStorage".to_string();
    let r = server_report(&t, &MethodField::Absent, &cached, "{\"result\":1}", 99);
    assert_eq!(r.method, "state_getStorage");
    assert_eq!(r.bandwidth, 12);
    assert_eq!((r.start, r.end, r.code), (99, 99, 200));
    let r = server_report(&t, &MethodField::Str("m".to_string()), &cached, "é", 1);
    assert_eq!(r.method, "m");
    assert_eq!(r.bandwidth, 2);
    let r = server_report(&t, &MethodField::Other, &cached, "", 1);
    assert_eq!(r.method, "");
    let mut c = "old".to_string();
    client_method_update(&mut c, MethodField::Other);
    assert_eq!(c, "old");
    client_method_update(&mut c, MethodField::Str("new".to_string()));
    assert_eq!(c, "new");
}
