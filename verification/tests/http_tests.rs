use elara_kv_component::assoc::AssocMap;
use elara_kv_component::http::actix_server::{parseActixRequest, refusal_body, transfer_path, transfer_target, TransferRefusal};
use elara_kv_component::http::curl::{RequestCurl, RequestMock};
use elara_kv_component::http::request::ApiResp;
use elara_kv_component::http::server::{parseIp, KafkaInfo, ReqMessage};
use elara_kv_component::http::validator::Validator;

#[test]
fn parse_ip_takes_first_forwarded() {
    assert_eq!(parseIp("1.2.3.4, 5.6.7.8", "9.9.9.9".to_string()), "1.2.3.4");
    assert_eq!(parseIp("1.2.3.4", "9.9.9.9".to_string()), "1.2.3.4");
    assert_eq!(parseIp("", "9.9.9.9".to_string()), "9.9.9.9");
    assert_eq!(parseIp(", 5.6.7.8", "9.9.9.9".to_string()), "9.9.9.9");
}

#[test]
fn req_message_new_is_blank() {
    let m = ReqMessage::new();
    assert_eq!(m.protocol, "");
    assert_eq!(m.code, 0);
    assert_eq!(m.bandwidth, 0);
    assert_eq!(m.start, 0);
    let k = KafkaInfo::request(m);
    assert_eq!(k.key, "request");
}

#[test]
fn mock_client_answers() {
    let mock = RequestMock;
    let (r, ok) = mock.Get("http://x");
    assert!(ok);
    assert_eq!(r.code, 0);
    assert_eq!(r.mssage, "");
    let (r, ok) = mock.Rpc("http://x", "{}".to_string());
    assert!(ok);
    assert_eq!(r.mssage, "mock");
    assert!(r.data.unwrap().starts_with("HTTP/1.1 200 OK\r\nContent-Length: 1088"));
}

#[test]
fn client_outcomes() {
    let (r, ok) = RequestCurl::failed("boom".to_string());
    assert!(!ok);
    assert_eq!(r.code, -1);
    assert_eq!(r.mssage, "boom");
    let (r, ok) = RequestCurl::get_outcome(Some(ApiResp { code: 7, message: "fine".to_string(), data: None }));
    assert!(ok);
    assert_eq!(r.code, 7);
    assert_eq!(r.mssage, "fine");
    let (r, ok) = RequestCurl::get_outcome(None);
    assert!(!ok);
    assert_eq!(r.code, -1);
    let (r, ok) = RequestCurl::rpc_outcome("body".to_string(), "head".to_string());
    assert!(ok);
    assert_eq!(r.code, 0);
    assert_eq!(r.data.as_deref(), Some("head"));
}

#[test]
fn validator_url() {
    let v = Validator::new("http://stat/".to_string());
    assert_eq!(v.limit_url("/polkadot/abc"), "http://stat//polkadot/abc");
    assert_eq!(v.clone().limit_url(""), "http://stat/");
}

#[test]
fn transfer_decisions() {
    assert_eq!(transfer_path("polkadot", "p1"), "/polkadot/p1");
    let mut targets = AssocMap::new();
    targets.insert("polkadot".to_string(), "http://node".to_string());
    assert_eq!(transfer_target(false, &targets, &"polkadot".to_string()), Err(TransferRefusal::ProjectMismatch));
    assert_eq!(transfer_target(true, &targets, &"kusama".to_string()), Err(TransferRefusal::ChainNotConfigured));
    assert_eq!(transfer_target(true, &targets, &"polkadot".to_string()), Ok("http://node".to_string()));
    let b = refusal_body(TransferRefusal::ProjectMismatch);
    assert_eq!((b.code, b.message.as_str()), (-1, "chain or project not match"));
    let b = refusal_body(TransferRefusal::ChainNotConfigured);
    assert_eq!((b.code, b.message.as_str()), (-3, "chain not config"));
    let b = refusal_body(TransferRefusal::NoResponse);
    assert_eq!((b.code, b.message.as_str()), (-4, "no response"));
}

const HEAD: &str = "HTTP/1.1 200 OK\r\nContent-Length: 1088\r\nContent-Type: application/json; charset=utf-8\r\nDate: Wed, 09 Dec 2020 07:40:22 GMT\r\nServer: Caddy\r\n";

#[test]
fn actix_request_report() {
    let m = parseActixRequest(HEAD, "1.1.1.1:80".to_string(), "{}".to_string(), "POST".to_string(), "polkadot", "p1", "{\"id\":1}", 10, 20).unwrap();
    assert_eq!(m.protocol, "HTTP/1.1");
    assert_eq!(m.code, 200);
    assert_eq!(m.bandwidth, 1088);
    assert_eq!(m.chain, "polkadot");
    assert_eq!(m.pid, "p1");
    assert_eq!(m.method, "POST");
    assert_eq!(m.req, "{\"id\":1}");
    assert_eq!((m.start, m.end), (10, 20));
    // Too few lines: the head cannot be read.
    assert!(parseActixRequest("HTTP/1.1 200 OK\r\n", String::new(), String::new(), String::new(), "c", "p", "", 0, 0).is_none());
    // A status line with a single word cannot be read.
    assert!(parseActixRequest("HTTP/1.1\r\na\r\nb\r\nc\r\n", String::new(), String::new(), String::new(), "c", "p", "", 0, 0).is_none());
    // No content length: bandwidth zero.
    let m = parseActixRequest("HTTP/1.1 404 Not Found\r\nServer: x\r\nA: b\r\n\r\n", String::new(), String::new(), String::new(), "c", "p", "", 0, 0).unwrap();
    assert_eq!((m.code, m.bandwidth), (404, 0));
}
