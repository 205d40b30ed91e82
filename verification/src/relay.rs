//! The websocket relay between clients and chain nodes: which node a
//! client's path leads to, and the reports of relayed messages.
use vstd::prelude::*;
use vstd::string::*;
use crate::assoc::{lemma_map_of_dom, lemma_map_of_last, map_of, AssocMap};
use crate::http::actix_server::TransferRefusal;
use crate::http::server::ReqMessage;
use crate::text::{split_seq, split_str};

verus! {

/// What a JSON message says under its `method` member: nothing, a string,
/// or something else.
#[derive(Debug, Clone)]
pub enum MethodField {
    Absent,
    Other,
    Str(String),
}

/// A method member taken as a value.
pub enum MethodFieldView {
    Absent,
    Other,
    Str(Seq<char>),
}

impl View for MethodField {
    type V = MethodFieldView;

    open spec fn view(&self) -> MethodFieldView {
        match self {
            MethodField::Absent => MethodFieldView::Absent,
            MethodField::Other => MethodFieldView::Other,
            MethodField::Str(s) => MethodFieldView::Str(s@),
        }
    }
}

/// What the JSON text says under its `method` member, as `serde_json`
/// reads it into a `Value`; nothing when the text is not JSON.
pub uninterp spec fn json_method_field(text: Seq<char>) -> Option<MethodFieldView>;

/// Reads the `method` member of a JSON message. The outside functions are
/// `serde_json::from_str::<serde_json::Value>` and `Value::get`. The
/// contract claims that the outcome is a function of the text alone
/// (named `json_method_field`).
#[verifier::external_body]
fn read_method_field(text: &str) -> (r: Option<MethodField>)
    ensures
        r is None <==> json_method_field(text@) is None,
        r matches Some(f) ==> json_method_field(text@) == Some(f@),
{
    let v = serde_json::from_str::<serde_json::Value>(text).ok()?;
    Some(match v.get("method") {
        None => MethodField::Absent,
        Some(serde_json::Value::String(s)) => MethodField::Str(s.clone()),
        Some(_) => MethodField::Other,
    })
}

/// The `method` member of a relayed message; none when the message is not
/// JSON.
pub fn message_method(text: &str) -> (r: Option<MethodField>)
    ensures
        r is None <==> json_method_field(text@) is None,
        r matches Some(f) ==> json_method_field(text@) == Some(f@),
{
    read_method_field(text)
}

/// The client's address: the forwarding header's value when there is one,
/// and the connection's address otherwise.
pub fn client_ip(default: String, forwarded: Option<String>) -> (ip: String)
    ensures
        ip@ == (match forwarded {
            Some(f) => f@,
            None => default@,
        }),
{
    match forwarded {
        Some(f) => f,
        None => default,
    }
}

/// Fills the report template of a websocket connection from its path
/// `/chain/project/...`, the client's address and the request headers.
#[allow(non_snake_case)]
pub fn makeReqMessageTemplate(msg: &mut ReqMessage, path: &str, client: String, header: String)
    requires
        split_seq(path@, "/"@).len() >= 3,
    ensures
        final(msg).protocol@ == "websocket"@,
        final(msg).ip@ == client@,
        final(msg).chain@ == split_seq(path@, "/"@)[1],
        final(msg).pid@ == split_seq(path@, "/"@)[2],
        final(msg).header@ == header@,
        final(msg).method@ == old(msg).method@,
        final(msg).req@ == old(msg).req@,
        final(msg).resp@ == old(msg).resp@,
        final(msg).code == old(msg).code,
        final(msg).bandwidth == old(msg).bandwidth,
        final(msg).start == old(msg).start,
        final(msg).end == old(msg).end,
{
    msg.protocol = String::from_str("websocket");
    msg.ip = client;
    let segs = split_str(path, "/");
    msg.chain = segs[1].clone();
    msg.pid = segs[2].clone();
    msg.header = header;
}

/// A fresh report of a relayed message, carrying over the template's
/// protocol, address, chain, project and headers.
#[allow(non_snake_case)]
pub fn newReqMessage(temp: &ReqMessage) -> (m: ReqMessage)
    ensures
        m.protocol@ == temp.protocol@,
        m.ip@ == temp.ip@,
        m.chain@ == temp.chain@,
        m.pid@ == temp.pid@,
        m.header@ == temp.header@,
        m.method@ == Seq::<char>::empty(),
        m.req@ == Seq::<char>::empty(),
        m.resp@ == Seq::<char>::empty(),
        m.code == 0,
        m.bandwidth == 0,
        m.start == 0,
        m.end == 0,
{
    let mut msg = ReqMessage::new();
    msg.protocol = temp.protocol.clone();
    msg.ip = temp.ip.clone();
    msg.chain = temp.chain.clone();
    msg.pid = temp.pid.clone();
    msg.method = String::new();
    msg.header = temp.header.clone();
    msg
}

/// The request headers as a map: a later header replaces an earlier one
/// with the same name.
#[allow(non_snake_case)]
pub fn headerString(h: Vec<(String, String)>) -> (m: AssocMap<String, String>)
    ensures
        m@ == map_of(h@.map_values(|e: (String, String)| (e.0@, e.1@))),
        m@ == map_of(header_view(h@)),
{
    let ghost hv = h@.map_values(|e: (String, String)| (e.0@, e.1@));
    let mut container = AssocMap::new();
    let n = h.len();
    let mut i: usize = 0;
    while i < n
        invariant
            n == h@.len(),
            i <= n,
            hv == h@.map_values(|e: (String, String)| (e.0@, e.1@)),
            container@ == map_of(hv.take(i as int)),
        decreases n - i,
    {
        let k = h[i].0.clone();
        let v = h[i].1.clone();
        proof {
            assert(hv[i as int] == (k@, v@));
            assert(hv.take(i as int + 1).drop_last() =~= hv.take(i as int));
        }
        container.insert(k, v);
        i = i + 1;
    }
    proof {
        assert(hv.take(n as int) =~= hv);
    }
    container
}

/// The request headers taken as pairs of texts.
pub open spec fn header_view(h: Seq<(String, String)>) -> Seq<(Seq<char>, Seq<char>)> {
    h.map_values(|e: (String, String)| (e.0@, e.1@))
}

/// The header map holds every header name of the request, with the value
/// of the last header of that name, and no other name.
pub proof fn lemma_header_map(h: Seq<(String, String)>)
    ensures
        forall|i: int| 0 <= i < h.len() ==> map_of(header_view(h)).dom().contains(
            #[trigger] h[i].0@),
        forall|i: int| 0 <= i < h.len() && (forall|j: int| i < j < h.len() ==> #[trigger] h[j].0@ != h[i].0@)
            ==> map_of(header_view(h))[#[trigger] h[i].0@] == h[i].1@,
        forall|k: Seq<char>| #[trigger] map_of(header_view(h)).dom().contains(k)
            ==> exists|i: int| 0 <= i < h.len() && #[trigger] h[i].0@ == k,
{
    let hv = header_view(h);
    assert forall|i: int| 0 <= i < h.len() implies map_of(hv).dom().contains(#[trigger] h[i].0@) by {
        assert(hv[i].0 == h[i].0@);
        lemma_map_of_dom(hv, h[i].0@);
    }
    assert forall|i: int| 0 <= i < h.len() && (forall|j: int| i < j < h.len() ==> #[trigger] h[j].0@ != h[i].0@)
        implies map_of(hv)[#[trigger] h[i].0@] == h[i].1@ by {
        assert forall|j: int| i < j < hv.len() implies #[trigger] hv[j].0 != hv[i].0 by {
            assert(h[j].0@ != h[i].0@);
        }
        lemma_map_of_last(hv, i);
    }
    assert forall|k: Seq<char>| #[trigger] map_of(hv).dom().contains(k) implies exists|i: int|
        0 <= i < h.len() && #[trigger] h[i].0@ == k by {
        lemma_map_of_dom(hv, k);
        let i = choose|i: int| 0 <= i < hv.len() && #[trigger] hv[i].0 == k;
        assert(h[i].0@ == k);
    }
}

/// The chain node that a client's path `/chain/...` leads to, if a node is
/// configured for the chain.
pub fn relay_target(targets: &AssocMap<String, String>, path: &str) -> (r: Option<String>)
    requires
        split_seq(path@, "/"@).len() >= 2,
    ensures
        match r {
            Some(addr) => targets@.dom().contains(split_seq(path@, "/"@)[1]) && addr@
                == targets@[split_seq(path@, "/"@)[1]],
            None => !targets@.dom().contains(split_seq(path@, "/"@)[1]),
        },
{
    let segs = split_str(path, "/");
    match targets.get(&segs[1]) {
        Some(addr) => Some(addr.clone()),
        None => None,
    }
}

/// Admits a client's connection on the path `/chain/project/...`: refused
/// when the validator did not accept the chain and project, refused when
/// no node is configured for the chain, and otherwise the address of the
/// chain's node, which the connection is relayed to.
pub fn relay_admission(limit_ok: bool, targets: &AssocMap<String, String>, path: &str) -> (r: Result<String, TransferRefusal>)
    requires
        split_seq(path@, "/"@).len() >= 2,
    ensures
        !limit_ok ==> r == Err::<String, TransferRefusal>(TransferRefusal::ProjectMismatch),
        limit_ok && !targets@.dom().contains(split_seq(path@, "/"@)[1]) ==> r == Err::<String, TransferRefusal>(
            TransferRefusal::ChainNotConfigured,
        ),
        limit_ok && targets@.dom().contains(split_seq(path@, "/"@)[1]) ==> (r matches Ok(addr) && addr@
            == targets@[split_seq(path@, "/"@)[1]]),
{
    if !limit_ok {
        return Err(TransferRefusal::ProjectMismatch);
    }
    match relay_target(targets, path) {
        Some(addr) => Ok(addr),
        None => Err(TransferRefusal::ChainNotConfigured),
    }
}

/// The report of a message relayed from a chain node to a client: the
/// method it names, or the method the client last called when it names
/// none, its size in bytes as bandwidth, status 200, and one timestamp.
pub fn server_report(template: &ReqMessage, field: &MethodField, cached: &String, contents: &str, now_ms: i64) -> (m: ReqMessage)
    requires
        contents.spec_bytes().len() <= u32::MAX,
    ensures
        m.protocol@ == template.protocol@,
        m.ip@ == template.ip@,
        m.chain@ == template.chain@,
        m.pid@ == template.pid@,
        m.header@ == template.header@,
        m.method@ == (match field {
            MethodField::Str(s) => s@,
            MethodField::Other => Seq::<char>::empty(),
            MethodField::Absent => cached@,
        }),
        m.bandwidth == contents.spec_bytes().len(),
        m.start == now_ms,
        m.end == now_ms,
        m.code == 200,
        m.req@ == Seq::<char>::empty(),
        m.resp@ == Seq::<char>::empty(),
{
    let mut msg = newReqMessage(template);
    match field {
        MethodField::Str(s) => {
            msg.method = s.clone();
        },
        MethodField::Other => {},
        MethodField::Absent => {
            msg.method = cached.clone();
        },
    }
    msg.bandwidth = contents.len() as u32;
    msg.start = now_ms;
    msg.end = msg.start;
    msg.code = 200;
    msg
}

/// Remembers the method of a client's message, when it names one.
pub fn client_method_update(cached: &mut String, field: MethodField)
    ensures
        final(cached)@ == (match field {
            MethodField::Str(s) => s@,
            _ => old(cached)@,
        }),
{
    match field {
        MethodField::Str(s) => {
            *cached = s;
        },
        _ => {},
    }
}

} // verus!
