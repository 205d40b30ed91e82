//! The decisions of the HTTP proxy handler: which chain node a request
//! goes to, what a refused request is answered, and the report of a
//! proxied request read from the node's response head.
use vstd::prelude::*;
use vstd::string::*;
use crate::assoc::AssocMap;
use crate::http::request::ApiResp;
use crate::http::server::ReqMessage;
use crate::text::{contains_seq, contains_str, decimal_value, parse_u32, split_seq, split_str};

verus! {

/// Why the proxy refuses a request.
#[derive(Debug, Clone, Copy, PartialEq, Eq, Structural)]
pub enum TransferRefusal {
    /// The validator does not know the chain and project.
    ProjectMismatch,
    /// No node is configured for the chain.
    ChainNotConfigured,
    /// The node did not answer.
    NoResponse,
}

/// The code of the answer to a refused request.
pub open spec fn refusal_code(kind: TransferRefusal) -> i32 {
    match kind {
        TransferRefusal::ProjectMismatch => -1i32,
        TransferRefusal::ChainNotConfigured => -3i32,
        TransferRefusal::NoResponse => -4i32,
    }
}

/// The message of the answer to a refused request.
pub open spec fn refusal_message(kind: TransferRefusal) -> Seq<char> {
    match kind {
        TransferRefusal::ProjectMismatch => "chain or project not match"@,
        TransferRefusal::ChainNotConfigured => "chain not config"@,
        TransferRefusal::NoResponse => "no response"@,
    }
}

/// The answer to a refused request.
pub fn refusal_body(kind: TransferRefusal) -> (a: ApiResp)
    ensures
        a.code == refusal_code(kind),
        a.message@ == refusal_message(kind),
        a.data is None,
{
    match kind {
        TransferRefusal::ProjectMismatch => ApiResp {
            code: -1,
            message: String::from_str("chain or project not match"),
            data: None,
        },
        TransferRefusal::ChainNotConfigured => ApiResp {
            code: -3,
            message: String::from_str("chain not config"),
            data: None,
        },
        TransferRefusal::NoResponse => ApiResp {
            code: -4,
            message: String::from_str("no response"),
            data: None,
        },
    }
}

/// The path that the validator checks for a chain and project.
pub fn transfer_path(chain: &str, pid: &str) -> (p: String)
    ensures
        p@ == "/"@ + chain@ + "/"@ + pid@,
{
    String::from_str("/").concat(chain).concat("/").concat(pid)
}

/// The node a request goes to: refused when the validator did not accept
/// the chain and project, refused when no node is configured for the
/// chain, and otherwise the chain's node address.
pub fn transfer_target(limit_ok: bool, targets: &AssocMap<String, String>, chain: &String) -> (r: Result<String, TransferRefusal>)
    ensures
        !limit_ok ==> r == Err::<String, TransferRefusal>(TransferRefusal::ProjectMismatch),
        limit_ok && !targets@.dom().contains(chain@) ==> r == Err::<String, TransferRefusal>(
            TransferRefusal::ChainNotConfigured,
        ),
        limit_ok && targets@.dom().contains(chain@) ==> (r matches Ok(addr) && addr@ == targets@[chain@]),
{
    if !limit_ok {
        return Err(TransferRefusal::ProjectMismatch);
    }
    match targets.get(chain) {
        Some(addr) => Ok(addr.clone()),
        None => Err(TransferRefusal::ChainNotConfigured),
    }
}

/// The first line among `lines[from..to]` that mentions `Content-Length`.
pub open spec fn content_length_line(lines: Seq<Seq<char>>, from: int, to: int) -> Option<int>
    decreases to - from,
{
    if from >= to {
        None
    } else if contains_seq(lines[from], "Content-Length"@) {
        Some(from)
    } else {
        content_length_line(lines, from + 1, to)
    }
}

/// A decimal number that fits in 32 bits, and zero for anything else.
pub open spec fn u32_or_zero(s: Seq<char>) -> u32 {
    match decimal_value(s) {
        Some(v) => if v <= u32::MAX { v as u32 } else { 0 },
        None => 0,
    }
}

/// The lines of a response head.
pub open spec fn head_lines(resp: Seq<char>) -> Seq<Seq<char>> {
    split_seq(resp, "\r\n"@)
}

/// The words of the status line.
pub open spec fn status_words(resp: Seq<char>) -> Seq<Seq<char>> {
    split_seq(head_lines(resp)[0], " "@)
}

/// The line that gives the content length, searched among all lines but
/// the status line and the last three.
pub open spec fn length_line(resp: Seq<char>) -> Option<int> {
    content_length_line(head_lines(resp), 1, head_lines(resp).len() - 3)
}

/// A response head can be read: it has at least three lines, its status
/// line has at least two words, and the line giving the content length,
/// if any, has at least two words.
pub open spec fn head_readable(resp: Seq<char>) -> bool {
    &&& head_lines(resp).len() >= 3
    &&& status_words(resp).len() >= 2
    &&& length_line(resp) matches Some(i) ==> split_seq(head_lines(resp)[i], " "@).len() >= 2
}

/// The bandwidth text of a response head: the second word of the line
/// that gives the content length, or nothing.
pub open spec fn bandwidth_text(resp: Seq<char>) -> Seq<char> {
    match length_line(resp) {
        Some(i) => split_seq(head_lines(resp)[i], " "@)[1],
        None => Seq::empty(),
    }
}

/// The search for the `Content-Length` line finds the first line at or
/// after `from`, and before `to`, that mentions it.
proof fn lemma_content_length_line_first(lines: Seq<Seq<char>>, from: int, to: int, i: int)
    requires
        from <= i < to,
        contains_seq(lines[i], "Content-Length"@),
        forall|j: int| from <= j < i ==> !contains_seq(#[trigger] lines[j], "Content-Length"@),
    ensures
        content_length_line(lines, from, to) == Some(i),
    decreases i - from,
{
    if from < i {
        lemma_content_length_line_first(lines, from + 1, to, i);
    }
}

/// The search for the `Content-Length` line finds nothing when no line at
/// or after `from`, and before `to`, mentions it.
proof fn lemma_content_length_line_none(lines: Seq<Seq<char>>, from: int, to: int)
    requires
        forall|j: int| from <= j < to ==> !contains_seq(#[trigger] lines[j], "Content-Length"@),
    ensures
        content_length_line(lines, from, to) is None,
    decreases to - from,
{
    if from < to {
        lemma_content_length_line_none(lines, from + 1, to);
    }
}

/// The bandwidth of a report is read from the first head line that
/// mentions `Content-Length`, among the lines after the status line and
/// before the last three: it is that line's second word. When no such
/// line mentions it, the bandwidth text is empty.
pub proof fn lemma_bandwidth_from_first_length_line(resp: Seq<char>)
    ensures
        forall|i: int| 1 <= i < head_lines(resp).len() - 3
            && contains_seq(#[trigger] head_lines(resp)[i], "Content-Length"@)
            && (forall|j: int| 1 <= j < i ==> !contains_seq(#[trigger] head_lines(resp)[j], "Content-Length"@))
            ==> bandwidth_text(resp) == split_seq(head_lines(resp)[i], " "@)[1],
        (forall|j: int| 1 <= j < head_lines(resp).len() - 3 ==> !contains_seq(#[trigger] head_lines(resp)[j],
            "Content-Length"@)) ==> bandwidth_text(resp) == Seq::<char>::empty(),
{
    let lines = head_lines(resp);
    assert forall|i: int| 1 <= i < lines.len() - 3
        && contains_seq(#[trigger] lines[i], "Content-Length"@)
        && (forall|j: int| 1 <= j < i ==> !contains_seq(#[trigger] lines[j], "Content-Length"@))
        implies bandwidth_text(resp) == split_seq(lines[i], " "@)[1] by {
        lemma_content_length_line_first(lines, 1, lines.len() - 3, i);
    }
    if forall|j: int| 1 <= j < lines.len() - 3 ==> !contains_seq(#[trigger] lines[j], "Content-Length"@) {
        lemma_content_length_line_none(lines, 1, lines.len() - 3);
    }
}

/// The report of a request proxied to a chain node, read from the node's
/// response head: the protocol and status code of its status line, and
/// the content length as bandwidth; none when the head cannot be read.
#[allow(non_snake_case)]
pub fn parseActixRequest(
    resp: &str,
    ip: String,
    header: String,
    method: String,
    chain: &str,
    pid: &str,
    param: &str,
    start: i64,
    end: i64,
) -> (r: Option<ReqMessage>)
    ensures
        r is Some <==> head_readable(resp@),
        r matches Some(m) ==> {
            &&& m.protocol@ == status_words(resp@)[0]
            &&& m.code == u32_or_zero(status_words(resp@)[1])
            &&& m.bandwidth == u32_or_zero(bandwidth_text(resp@))
            &&& m.ip@ == ip@
            &&& m.header@ == header@
            &&& m.method@ == method@
            &&& m.chain@ == chain@
            &&& m.pid@ == pid@
            &&& m.req@ == param@
            &&& m.resp@ == Seq::<char>::empty()
            &&& m.start == start
            &&& m.end == end
        },
{
    let lines = split_str(resp, "\r\n");
    let ghost lv = lines.deep_view();
    assert(lv.len() >= 1);
    if lines.len() < 3 {
        return None;
    }
    let heads = split_str(lines[0].as_str(), " ");
    if heads.len() < 2 {
        return None;
    }
    let length = lines.len() - 3;
    let mut band = String::new();
    let mut i: usize = 1;
    let mut found = false;
    while !found && i < length
        invariant
            lv == lines.deep_view(),
            lv == head_lines(resp@),
            length == lv.len() - 3,
            1 <= i,
            !found ==> content_length_line(lv, 1, length as int)
                == content_length_line(lv, i as int, length as int),
            !found ==> band@ == Seq::<char>::empty(),
            found ==> content_length_line(lv, 1, length as int) == Some(i as int)
                && band@ == split_seq(lv[i as int], " "@)[1]
                && split_seq(lv[i as int], " "@).len() >= 2,
        decreases length - i + (if found { 0int } else { 1int }),
    {
        if contains_str(lines[i].as_str(), "Content-Length") {
            let words = split_str(lines[i].as_str(), " ");
            if words.len() < 2 {
                return None;
            }
            band = words[1].clone();
            found = true;
        } else {
            i = i + 1;
        }
    }
    assert(band@ == bandwidth_text(resp@));
    let code = match parse_u32(heads[1].as_str()) { Some(v) => v, None => 0 };
    let bandwidth = match parse_u32(band.as_str()) { Some(v) => v, None => 0 };
    let mut msg = ReqMessage::new();
    msg.protocol = heads[0].clone();
    msg.ip = ip;
    msg.header = header;
    msg.chain = String::from_str(chain);
    msg.pid = String::from_str(pid);
    msg.method = method;
    msg.req = String::from_str(param);
    msg.code = code;
    msg.bandwidth = bandwidth;
    msg.start = start;
    msg.end = end;
    Some(msg)
}

} // verus!
