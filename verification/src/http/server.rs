//! The request reports that the proxies send to Kafka, and the client
//! address taken from a forwarding header.
use vstd::prelude::*;
use vstd::string::*;
use crate::text::{split_seq, split_str};

verus! {

/// A report of one proxied request.
#[derive(Debug)]
pub struct ReqMessage {
    pub protocol: String,
    pub header: String,
    pub ip: String,
    pub chain: String,
    pub pid: String,
    pub method: String,
    pub req: String,
    pub resp: String,
    pub code: u32,
    pub bandwidth: u32,
    pub start: i64,
    pub end: i64,
}

/// A report keyed for Kafka.
#[derive(Debug)]
pub struct KafkaInfo {
    pub key: String,
    pub message: ReqMessage,
}

impl ReqMessage {
    /// A report with empty texts and zero numbers.
    pub fn new() -> (m: Self)
        ensures
            m.protocol@ == Seq::<char>::empty(),
            m.header@ == Seq::<char>::empty(),
            m.ip@ == Seq::<char>::empty(),
            m.chain@ == Seq::<char>::empty(),
            m.pid@ == Seq::<char>::empty(),
            m.method@ == Seq::<char>::empty(),
            m.req@ == Seq::<char>::empty(),
            m.resp@ == Seq::<char>::empty(),
            m.code == 0,
            m.bandwidth == 0,
            m.start == 0,
            m.end == 0,
    {
        ReqMessage {
            protocol: String::new(),
            header: String::new(),
            ip: String::new(),
            chain: String::new(),
            pid: String::new(),
            method: String::new(),
            req: String::new(),
            resp: String::new(),
            code: 0,
            bandwidth: 0,
            start: 0,
            end: 0,
        }
    }
}

impl KafkaInfo {
    /// The report of a proxied request, under the key `request`.
    pub fn request(message: ReqMessage) -> (k: KafkaInfo)
        ensures
            k.key@ == "request"@,
            k.message == message,
    {
        KafkaInfo { key: String::from_str("request"), message }
    }
}

/// The client address named by a forwarding header: the first entry of
/// its comma-separated list when that entry is not empty, and the default
/// address otherwise.
#[allow(non_snake_case)]
pub fn parseIp(forward: &str, defaultIp: String) -> (ip: String)
    ensures
        ip@ == (if split_seq(forward@, ", "@)[0].len() != 0 {
            split_seq(forward@, ", "@)[0]
        } else {
            defaultIp@
        }),
{
    let ips = split_str(forward, ", ");
    assert(ips.deep_view().len() >= 1);
    let first = ips[0].clone();
    if first.unicode_len() != 0 {
        return first;
    }
    defaultIp
}

} // verus!
