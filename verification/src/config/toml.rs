//! The api service's configuration: Kafka, the statistics and websocket
//! services, the chains, and logging; and what the service derives from
//! it at start.
use vstd::prelude::*;
use vstd::string::*;
use crate::assoc::{lemma_map_of_dom, lemma_map_of_last, map_of, AssocMap};

verus! {

/// The Kafka broker and topic that reports go to.
#[derive(Debug)]
pub struct KafkaConfig {
    pub url: String,
    pub topic: String,
    mode: String,
    username: String,
    password: String,
}

impl KafkaConfig {
    /// A Kafka configuration from all its settings.
    pub fn new(url: String, topic: String, mode: String, username: String, password: String) -> (c: Self)
        ensures
            c.settings() == (url@, topic@, mode@, username@, password@),
    {
        KafkaConfig { url, topic, mode, username, password }
    }

    /// Broker, topic, mode, user name and password.
    pub closed spec fn settings(&self) -> (Seq<char>, Seq<char>, Seq<char>, Seq<char>, Seq<char>) {
        (self.url@, self.topic@, self.mode@, self.username@, self.password@)
    }
}

/// A service: its name and address.
#[derive(Debug)]
pub struct SvrConfig {
    pub name: String,
    pub url: String,
}

/// A chain and its node addresses.
#[allow(non_snake_case)]
#[derive(Debug)]
pub struct ChainConfig {
    pub name: String,
    pub rpcUrl: String,
    pub wsUrl: String,
}

/// The logging level.
#[derive(Debug)]
pub struct LogConfig {
    pub level: String,
}

/// The api service's configuration.
#[derive(Debug)]
pub struct ApiConfig {
    pub log: LogConfig,
    pub kafka: KafkaConfig,
    pub stat: SvrConfig,
    pub ws: SvrConfig,
    pub chains: Vec<ChainConfig>,
}

/// The levels of the service's log.
#[derive(Debug, Clone, Copy, PartialEq, Eq, Structural)]
pub enum LogLevel {
    Off,
    Error,
    Warn,
    Info,
    Debug,
    Trace,
}

/// The level a configured name selects: the five level names, and off for
/// any other name.
pub open spec fn level_of(name: Seq<char>) -> LogLevel {
    if name == "Warn"@ {
        LogLevel::Warn
    } else if name == "Error"@ {
        LogLevel::Error
    } else if name == "Info"@ {
        LogLevel::Info
    } else if name == "Debug"@ {
        LogLevel::Debug
    } else if name == "Trace"@ {
        LogLevel::Trace
    } else {
        LogLevel::Off
    }
}

/// The level that the log configuration selects.
pub fn log_level(cfg: &LogConfig) -> (l: LogLevel)
    ensures
        l == level_of(cfg.level@),
{
    let name = &cfg.level;
    if *name == String::from_str("Warn") {
        LogLevel::Warn
    } else if *name == String::from_str("Error") {
        LogLevel::Error
    } else if *name == String::from_str("Info") {
        LogLevel::Info
    } else if *name == String::from_str("Debug") {
        LogLevel::Debug
    } else if *name == String::from_str("Trace") {
        LogLevel::Trace
    } else {
        LogLevel::Off
    }
}

/// The chains' websocket node addresses, by chain name.
pub open spec fn ws_targets(chains: Seq<ChainConfig>) -> Map<Seq<char>, Seq<char>> {
    map_of(chains.map_values(|c: ChainConfig| (c.name@, c.wsUrl@)))
}

/// The chains' RPC node addresses, by chain name.
pub open spec fn rpc_targets(chains: Seq<ChainConfig>) -> Map<Seq<char>, Seq<char>> {
    map_of(chains.map_values(|c: ChainConfig| (c.name@, c.rpcUrl@)))
}

/// Every configured chain has a node for websocket and for RPC: the
/// addresses of the last entry with its name. Only configured chains have
/// one.
pub proof fn lemma_chain_targets_cover(chains: Seq<ChainConfig>)
    ensures
        forall|i: int| 0 <= i < chains.len() ==> ws_targets(chains).dom().contains(#[trigger] chains[i].name@)
            && rpc_targets(chains).dom().contains(chains[i].name@),
        forall|i: int| 0 <= i < chains.len() && (forall|j: int| i < j < chains.len() ==> #[trigger] chains[j].name@
            != chains[i].name@) ==> ws_targets(chains)[#[trigger] chains[i].name@] == chains[i].wsUrl@
            && rpc_targets(chains)[chains[i].name@] == chains[i].rpcUrl@,
        forall|k: Seq<char>| #[trigger] ws_targets(chains).dom().contains(k) ==> exists|i: int| 0 <= i < chains.len()
            && #[trigger] chains[i].name@ == k,
        forall|k: Seq<char>| #[trigger] rpc_targets(chains).dom().contains(k) ==> exists|i: int| 0 <= i < chains.len()
            && #[trigger] chains[i].name@ == k,
{
    let wv = chains.map_values(|c: ChainConfig| (c.name@, c.wsUrl@));
    let rv = chains.map_values(|c: ChainConfig| (c.name@, c.rpcUrl@));
    assert forall|i: int| 0 <= i < chains.len() implies ws_targets(chains).dom().contains(#[trigger] chains[i].name@)
        && rpc_targets(chains).dom().contains(chains[i].name@) by {
        assert(wv[i].0 == chains[i].name@);
        assert(rv[i].0 == chains[i].name@);
        lemma_map_of_dom(wv, chains[i].name@);
        lemma_map_of_dom(rv, chains[i].name@);
    }
    assert forall|i: int| 0 <= i < chains.len() && (forall|j: int| i < j < chains.len() ==> #[trigger] chains[j].name@
        != chains[i].name@) implies ws_targets(chains)[#[trigger] chains[i].name@] == chains[i].wsUrl@
        && rpc_targets(chains)[chains[i].name@] == chains[i].rpcUrl@ by {
        assert forall|j: int| i < j < wv.len() implies #[trigger] wv[j].0 != wv[i].0 by {
            assert(chains[j].name@ != chains[i].name@);
        }
        assert forall|j: int| i < j < rv.len() implies #[trigger] rv[j].0 != rv[i].0 by {
            assert(chains[j].name@ != chains[i].name@);
        }
        lemma_map_of_last(wv, i);
        lemma_map_of_last(rv, i);
    }
    assert forall|k: Seq<char>| #[trigger] ws_targets(chains).dom().contains(k) implies exists|i: int|
        0 <= i < chains.len() && #[trigger] chains[i].name@ == k by {
        lemma_map_of_dom(wv, k);
        let i = choose|i: int| 0 <= i < wv.len() && #[trigger] wv[i].0 == k;
        assert(chains[i].name@ == k);
    }
    assert forall|k: Seq<char>| #[trigger] rpc_targets(chains).dom().contains(k) implies exists|i: int|
        0 <= i < chains.len() && #[trigger] chains[i].name@ == k by {
        lemma_map_of_dom(rv, k);
        let i = choose|i: int| 0 <= i < rv.len() && #[trigger] rv[i].0 == k;
        assert(chains[i].name@ == k);
    }
}

/// The node addresses of the configured chains, by chain name, for
/// websocket and for RPC: when a chain is configured twice, the later
/// entry counts.
pub fn chain_targets(chains: &Vec<ChainConfig>) -> (r: (AssocMap<String, String>, AssocMap<String, String>))
    ensures
        r.0@ == ws_targets(chains@),
        r.1@ == rpc_targets(chains@),
{
    let ghost wv = chains@.map_values(|c: ChainConfig| (c.name@, c.wsUrl@));
    let ghost rv = chains@.map_values(|c: ChainConfig| (c.name@, c.rpcUrl@));
    let mut ws = AssocMap::new();
    let mut rpc = AssocMap::new();
    let n = chains.len();
    let mut i: usize = 0;
    while i < n
        invariant
            n == chains@.len(),
            i <= n,
            wv == chains@.map_values(|c: ChainConfig| (c.name@, c.wsUrl@)),
            rv == chains@.map_values(|c: ChainConfig| (c.name@, c.rpcUrl@)),
            ws@ == map_of(wv.take(i as int)),
            rpc@ == map_of(rv.take(i as int)),
        decreases n - i,
    {
        let item = &chains[i];
        proof {
            assert(wv.take(i as int + 1).drop_last() =~= wv.take(i as int));
            assert(rv.take(i as int + 1).drop_last() =~= rv.take(i as int));
        }
        ws.insert(item.name.clone(), item.wsUrl.clone());
        rpc.insert(item.name.clone(), item.rpcUrl.clone());
        i = i + 1;
    }
    proof {
        assert(wv.take(n as int) =~= wv);
        assert(rv.take(n as int) =~= rv);
    }
    (ws, rpc)
}

} // verus!
