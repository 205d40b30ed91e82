//! The decisions of the key-value websocket server: what a client's frame
//! asks for, which Kafka messages are storage changes, and the
//! notifications a storage change makes for a connection's
//! subscriptions.
use vstd::prelude::*;
use vstd::string::*;
use crate::message::{SubscribedData, SubscribedParams, SubscriptionId};
use crate::rpc::Version;
use crate::rpc_api::SubscribedResult;
use crate::session::{Session, StorageKeys, StorageSessions};

verus! {

/// The subscription a notification is for, when it names one by text.
pub open spec fn notified_id(d: SubscribedData) -> Option<Seq<char>> {
    match d.params.subscription {
        SubscriptionId::String(s) => Some(s@),
        SubscriptionId::Number(_) => None,
    }
}

/// The notifications that a storage change makes for a connection: one
/// per subscription, each to the subscribing session, naming the
/// subscription and carrying the change. Only subscriptions to all keys
/// are served.
pub fn collect_subscribed_storage(sessions: &StorageSessions, result: &SubscribedResult) -> (r: Vec<(Session, SubscribedData)>)
    requires
        forall|id: Seq<char>| #[trigger] sessions@.dom().contains(id) ==> sessions@[id].1 is All,
    ensures
        r@.len() == sessions@.dom().len(),
        forall|i: int| 0 <= i < r@.len() ==> {
            let (s, d) = #[trigger] r@[i];
            &&& notified_id(d) matches Some(id) && sessions@.dom().contains(id) && sessions@[id].0 == s@
            &&& d.jsonrpc == Some(Version::V2)
            &&& d.method@ == Seq::<char>::empty()
            &&& d.params.result@ == result@
        },
        forall|i: int, j: int| 0 <= i < j < r@.len() ==> notified_id(#[trigger] r@[i].1) != notified_id(#[trigger] r@[j].1),
        forall|id: Seq<char>| #[trigger] sessions@.dom().contains(id) ==> exists|i: int| 0 <= i < r@.len()
            && notified_id(#[trigger] r@[i].1) == Some(id),
{
    let entries = sessions.iter();
    let n = entries.len();
    let mut msgs: Vec<(Session, SubscribedData)> = Vec::new();
    let mut i: usize = 0;
    while i < n
        invariant
            n == entries@.len(),
            i <= n,
            msgs@.len() == i,
            entries@.len() == sessions@.dom().len(),
            forall|j: int| 0 <= j < entries@.len() ==> sessions@.dom().contains(#[trigger] entries@[j].0@)
                && sessions@[entries@[j].0@] == entries@[j].1@,
            forall|j: int, k: int| 0 <= j < k < entries@.len() ==> #[trigger] entries@[j].0@ != #[trigger] entries@[k].0@,
            forall|id: Seq<char>| sessions@.dom().contains(id) ==> exists|j: int| 0 <= j < entries@.len()
                && #[trigger] entries@[j].0@ == id,
            forall|j: int| 0 <= j < i ==> {
                let (s, d) = #[trigger] msgs@[j];
                &&& notified_id(d) == Some(entries@[j].0@)
                &&& s@ == entries@[j].1.0@
                &&& d.jsonrpc == Some(Version::V2)
                &&& d.method@ == Seq::<char>::empty()
                &&& d.params.result@ == result@
            },
        decreases n - i,
    {
        let (subscription_id, (session, _storage)) = entries[i];
        let data = SubscribedData {
            jsonrpc: Some(Version::V2),
            method: String::new(),
            params: SubscribedParams {
                result: result.duplicate(),
                subscription: SubscriptionId::String(subscription_id.clone()),
            },
        };
        msgs.push((session.clone(), data));
        i = i + 1;
    }
    proof {
        assert forall|i: int| 0 <= i < msgs@.len() implies {
            let (s, d) = #[trigger] msgs@[i];
            &&& notified_id(d) matches Some(id) && sessions@.dom().contains(id) && sessions@[id].0 == s@
            &&& d.jsonrpc == Some(Version::V2)
            &&& d.method@ == Seq::<char>::empty()
            &&& d.params.result@ == result@
        } by {
            assert(sessions@.dom().contains(entries@[i].0@));
        }
        assert forall|i: int, j: int| 0 <= i < j < msgs@.len() implies notified_id(#[trigger] msgs@[i].1)
            != notified_id(#[trigger] msgs@[j].1) by {
            assert(entries@[i].0@ != entries@[j].0@);
        }
        assert forall|id: Seq<char>| #[trigger] sessions@.dom().contains(id) implies exists|i: int| 0 <= i < msgs@.len()
            && notified_id(#[trigger] msgs@[i].1) == Some(id) by {
            let j = choose|j: int| 0 <= j < entries@.len() && #[trigger] entries@[j].0@ == id;
            assert(notified_id(msgs@[j].1) == Some(id));
        }
    }
    msgs
}

/// A websocket frame from a client, with the byte length of each payload.
pub enum Frame {
    Text(String),
    Binary(usize),
    Ping(usize),
    Pong(usize),
    Close(usize),
    Raw(usize),
}

/// What the server does with a client's frame.
#[derive(Debug, PartialEq, Eq)]
pub enum FrameAction {
    /// The frame is empty: wait for the next one.
    Skip,
    /// Answer a ping with the pong `pong`.
    SendPong,
    /// Nothing to do.
    Ignore,
    /// The client closes: stop serving it.
    Stop,
    /// Handle the text as a request.
    Handle(String),
}

/// The frame has no content.
pub open spec fn frame_empty(f: Frame) -> bool {
    match f {
        Frame::Text(s) => s@.len() == 0,
        Frame::Binary(n) => n == 0,
        Frame::Ping(n) => n == 0,
        Frame::Pong(n) => n == 0,
        Frame::Close(n) => n == 0,
        Frame::Raw(n) => n == 0,
    }
}

/// Decides on a client's frame: empty frames are skipped; a ping is
/// answered; a close ends the connection; a text is handled as a request;
/// anything else is ignored.
pub fn frame_action(frame: Frame) -> (a: FrameAction)
    ensures
        frame_empty(frame) ==> a == FrameAction::Skip,
        !frame_empty(frame) ==> match frame {
            Frame::Ping(_) => a == FrameAction::SendPong,
            Frame::Close(_) => a == FrameAction::Stop,
            Frame::Text(s) => a matches FrameAction::Handle(t) && t@ == s@,
            _ => a == FrameAction::Ignore,
        },
{
    match frame {
        Frame::Text(s) => if s.unicode_len() == 0 {
            FrameAction::Skip
        } else {
            FrameAction::Handle(s)
        },
        Frame::Binary(n) => if n == 0 { FrameAction::Skip } else { FrameAction::Ignore },
        Frame::Ping(n) => if n == 0 { FrameAction::Skip } else { FrameAction::SendPong },
        Frame::Pong(n) => if n == 0 { FrameAction::Skip } else { FrameAction::Ignore },
        Frame::Close(n) => if n == 0 { FrameAction::Skip } else { FrameAction::Stop },
        Frame::Raw(n) => if n == 0 { FrameAction::Skip } else { FrameAction::Ignore },
    }
}

/// What the echo server does with a frame.
#[derive(Debug, PartialEq, Eq)]
pub enum EchoAction {
    Echo,
    Stop,
    Ignore,
}

/// Decides on a frame of the echo server: text and binary frames are sent
/// back, a close ends the connection, anything else is ignored.
pub fn echo_action(frame: &Frame) -> (a: EchoAction)
    ensures
        a == (match frame {
            Frame::Text(_) => EchoAction::Echo,
            Frame::Binary(_) => EchoAction::Echo,
            Frame::Close(_) => EchoAction::Stop,
            _ => EchoAction::Ignore,
        }),
{
    match frame {
        Frame::Text(_) => EchoAction::Echo,
        Frame::Binary(_) => EchoAction::Echo,
        Frame::Close(_) => EchoAction::Stop,
        _ => EchoAction::Ignore,
    }
}

/// How a Kafka message is dealt with.
#[derive(Debug, PartialEq, Eq)]
pub enum KafkaRoute {
    /// The message has no payload.
    EmptyPayload,
    /// A storage change of a served chain.
    Storage,
    /// A served chain, but a key other than `storage`.
    UnknownKey,
    /// A served chain, but no key.
    NoKey,
    /// A topic that is not served.
    UnknownTopic,
}

/// The key of storage changes.
pub open spec fn storage_key() -> Seq<u8> {
    seq![115u8, 116u8, 111u8, 114u8, 97u8, 103u8, 101u8]
}

/// Decides on a Kafka message by its topic, key and payload: only the
/// topics `polkadot` and `kusama` are served, and on them only the key
/// `storage`.
pub fn kafka_route(topic: &str, key: Option<&[u8]>, has_payload: bool) -> (r: KafkaRoute)
    ensures
        !has_payload ==> r == KafkaRoute::EmptyPayload,
        has_payload && !(topic@ == "polkadot"@ || topic@ == "kusama"@) ==> r == KafkaRoute::UnknownTopic,
        has_payload && (topic@ == "polkadot"@ || topic@ == "kusama"@) ==> r == (match key {
            Some(k) => if k@ == storage_key() { KafkaRoute::Storage } else { KafkaRoute::UnknownKey },
            None => KafkaRoute::NoKey,
        }),
{
    if !has_payload {
        return KafkaRoute::EmptyPayload;
    }
    let t = String::from_str(topic);
    if !(t == String::from_str("polkadot") || t == String::from_str("kusama")) {
        return KafkaRoute::UnknownTopic;
    }
    match key {
        Some(k) => if bytes_are_storage(k) { KafkaRoute::Storage } else { KafkaRoute::UnknownKey },
        None => KafkaRoute::NoKey,
    }
}

/// Whether the bytes spell `storage`.
fn bytes_are_storage(k: &[u8]) -> (b: bool)
    ensures
        b == (k@ == storage_key()),
{
    let expected: [u8; 7] = [115u8, 116u8, 111u8, 114u8, 97u8, 103u8, 101u8];
    assert(expected@ =~= storage_key());
    if k.len() != 7 {
        return false;
    }
    let mut i: usize = 0;
    while i < 7
        invariant
            k@.len() == 7,
            expected@ == storage_key(),
            i <= 7,
            forall|j: int| 0 <= j < i ==> k@[j] == storage_key()[j],
        decreases 7 - i,
    {
        if k[i] != expected[i] {
            return false;
        }
        i = i + 1;
    }
    assert(k@ =~= storage_key());
    true
}

} // verus!
