//! The subscriptions of one websocket connection: which sessions
//! (a chain and a client) subscribed to which storage keys, under which
//! subscription ids.
use vstd::prelude::*;
use vstd::string::*;
use crate::assoc::{AssocMap, KeyEq};
use crate::message::RequestMessage;
use crate::text::{decimal, lemma_decimal_digits, lemma_decimal_injective, u64_to_decimal};

verus! {

/// SubscriptionId is generated according to Session uniquely.
pub type SubscriptionId = String;

/// All represent for all storage keys.
/// Keys contains some keys.
#[derive(Debug, Clone)]
pub enum StorageKeys<T> {
    All,
    Keys(T),
}

impl<T: DeepView> View for StorageKeys<T> {
    type V = StorageKeys<T::V>;

    open spec fn view(&self) -> StorageKeys<T::V> {
        match self {
            StorageKeys::All => StorageKeys::All,
            StorageKeys::Keys(t) => StorageKeys::Keys(t.deep_view()),
        }
    }
}

/// Session as a subscription session
#[derive(Debug, PartialEq, Eq, Hash)]
pub struct Session {
    pub chain_name: String,
    pub client_id: String,
}

/// A session taken as a value.
pub struct SessionView {
    pub chain_name: Seq<char>,
    pub client_id: Seq<char>,
}

impl View for Session {
    type V = SessionView;

    open spec fn view(&self) -> SessionView {
        SessionView { chain_name: self.chain_name@, client_id: self.client_id@ }
    }
}

impl KeyEq for Session {
    fn key_eq(&self, other: &Self) -> (b: bool) {
        self.chain_name == other.chain_name && self.client_id == other.client_id
    }
}

impl Clone for Session {
    fn clone(&self) -> (r: Self)
        ensures
            r@ == self@,
    {
        Session { chain_name: self.chain_name.clone(), client_id: self.client_id.clone() }
    }
}

impl Session {
    /// The session a request belongs to: its chain and its client.
    pub fn from(msg: &RequestMessage) -> (r: Session)
        ensures
            r@ == (SessionView { chain_name: msg.chain@, client_id: msg.id@ }),
    {
        Session { chain_name: msg.chain.clone(), client_id: msg.id.clone() }
    }
}

/// The subscription id that a session is given: the length of its client
/// id in decimal, a colon, its client id, then its chain name. The length
/// tells where the client id ends, so no two sessions share an id.
pub open spec fn session_subscription_id(s: SessionView) -> Seq<char> {
    decimal(s.client_id.len()) + ":"@ + s.client_id + s.chain_name
}

/// The subscription id is generated from the session uniquely: distinct
/// sessions get distinct ids.
pub proof fn lemma_session_ids_distinct(a: SessionView, b: SessionView)
    requires
        a != b,
    ensures
        session_subscription_id(a) != session_subscription_id(b),
{
    if session_subscription_id(a) == session_subscription_id(b) {
        let ia = session_subscription_id(a);
        let da = decimal(a.client_id.len());
        let db = decimal(b.client_id.len());
        lemma_decimal_digits(a.client_id.len());
        lemma_decimal_digits(b.client_id.len());
        reveal_strlit(":");
        assert(ia[da.len() as int] == ':');
        assert(ia[db.len() as int] == ':');
        if da.len() < db.len() {
            assert(ia[da.len() as int] == db[da.len() as int]);
        } else if db.len() < da.len() {
            assert(ia[db.len() as int] == da[db.len() as int]);
        }
        assert(da =~= ia.subrange(0, da.len() as int));
        assert(db =~= ia.subrange(0, da.len() as int));
        lemma_decimal_injective(a.client_id.len(), b.client_id.len());
        let start: int = da.len() as int + 1;
        let n: int = a.client_id.len() as int;
        assert(a.client_id =~= ia.subrange(start, start + n));
        assert(b.client_id =~= ia.subrange(start, start + n));
        assert(a.chain_name =~= ia.subrange(start + n, ia.len() as int));
        assert(b.chain_name =~= ia.subrange(start + n, ia.len() as int));
    }
}

/// Sessions maintains the ws sessions for different subscriptions for one connection
pub struct Sessions(AssocMap<Session, (SubscriptionId, StorageKeys<Vec<String>>)>);

impl View for Sessions {
    type V = Map<SessionView, (Seq<char>, StorageKeys<Seq<Seq<char>>>)>;

    closed spec fn view(&self) -> Map<SessionView, (Seq<char>, StorageKeys<Seq<Seq<char>>>)> {
        self.0@
    }
}

impl Sessions {
    #[verifier::type_invariant]
    closed spec fn ids_generated(&self) -> bool {
        forall|s: SessionView| #[trigger] self.0@.dom().contains(s) ==> self.0@[s].0 == session_subscription_id(s)
    }

    /// Every recorded session's id is the one generated from it: a law of
    /// every value of the type.
    pub fn ids_follow_sessions(&self)
        ensures
            forall|s: SessionView| #[trigger] self@.dom().contains(s) ==> self@[s].0 == session_subscription_id(s),
    {
        proof {
            use_type_invariant(self);
        }
    }

    /// No sessions.
    pub fn new() -> (s: Self)
        ensures
            s@ == Map::<SessionView, (Seq<char>, StorageKeys<Seq<Seq<char>>>)>::empty(),
    {
        Sessions(AssocMap::new())
    }

    /// Records the session's keys, under the id generated from the session.
    pub fn insert(&mut self, session: Session, keys: StorageKeys<Vec<String>>)
        ensures
            final(self)@ == old(self)@.insert(session@, (session_subscription_id(session@), keys@)),
    {
        let len = u64_to_decimal(session.client_id.unicode_len() as u64);
        let id = len.concat(":").concat(session.client_id.as_str()).concat(session.chain_name.as_str());
        proof {
            use_type_invariant(&*self);
        }
        let mut map = AssocMap::new();
        std::mem::swap(&mut map, &mut self.0);
        map.insert(session, (id, keys));
        self.0 = map;
    }

    /// Forgets the session.
    pub fn remove(&mut self, session: &Session)
        ensures
            final(self)@ == old(self)@.remove(session@),
    {
        proof {
            use_type_invariant(&*self);
        }
        let mut map = AssocMap::new();
        std::mem::swap(&mut map, &mut self.0);
        let _ = map.remove(session);
        self.0 = map;
    }

    /// The subscription id of the session, if it is recorded: the id
    /// generated from the session.
    pub fn subscription_id(&self, session: &Session) -> (r: Option<SubscriptionId>)
        ensures
            match r {
                Some(id) => self@.dom().contains(session@) && id@ == self@[session@].0
                    && id@ == session_subscription_id(session@),
                None => !self@.dom().contains(session@),
            },
    {
        proof {
            use_type_invariant(self);
        }
        match self.0.get(session) {
            Some(v) => Some(v.0.clone()),
            None => None,
        }
    }

    /// The recorded sessions, each once, with their ids and keys.
    pub fn iter(&self) -> (r: Vec<&(Session, (SubscriptionId, StorageKeys<Vec<String>>))>)
        ensures
            r@.len() == self@.dom().len(),
            forall|i: int| 0 <= i < r@.len() ==> self@.dom().contains(#[trigger] r@[i].0@)
                && self@[r@[i].0@] == r@[i].1@,
            forall|i: int, j: int| 0 <= i < j < r@.len() ==> #[trigger] r@[i].0@ != #[trigger] r@[j].0@,
            forall|k: SessionView| self@.dom().contains(k) ==> exists|i: int| 0 <= i < r@.len() && #[trigger] r@[i].0@ == k,
    {
        self.0.iter()
    }
}

/// Read after write: the session just recorded has the id generated from
/// it, and the keys it was given.
pub proof fn lemma_sessions_insert_then_lookup(
    m: Map<SessionView, (Seq<char>, StorageKeys<Seq<Seq<char>>>)>,
    s: SessionView,
    keys: StorageKeys<Seq<Seq<char>>>,
    other: SessionView,
)
    ensures
        m.insert(s, (session_subscription_id(s), keys)).dom().contains(s),
        m.insert(s, (session_subscription_id(s), keys))[s] == (session_subscription_id(s), keys),
        other != s ==> m.insert(s, (session_subscription_id(s), keys)).dom().contains(other) == m.dom().contains(other),
        other != s && m.dom().contains(other) ==> m.insert(s, (session_subscription_id(s), keys))[other] == m[other],
{
}

/// A removed session has no subscription id any more, and the other
/// sessions keep theirs.
pub proof fn lemma_sessions_remove_then_lookup(
    m: Map<SessionView, (Seq<char>, StorageKeys<Seq<Seq<char>>>)>,
    s: SessionView,
    other: SessionView,
)
    ensures
        !m.remove(s).dom().contains(s),
        other != s ==> m.remove(s).dom().contains(other) == m.dom().contains(other),
        other != s && m.dom().contains(other) ==> m.remove(s)[other] == m[other],
{
}

impl Default for Sessions {
    fn default() -> (s: Self)
        ensures
            s@ == Map::<SessionView, (Seq<char>, StorageKeys<Seq<Seq<char>>>)>::empty(),
    {
        Sessions::new()
    }
}

/// SubscriptionSession maintains the ws sessions for different subscriptions for one connection
pub struct SubscriptionSession(pub AssocMap<Session, StorageKeys<Vec<String>>>);

impl SubscriptionSession {
    /// No subscriptions.
    pub fn new() -> (s: Self)
        ensures
            s.0@ == Map::<SessionView, StorageKeys<Seq<Seq<char>>>>::empty(),
    {
        SubscriptionSession(AssocMap::new())
    }
}

/// The subscriptions of a connection by subscription id: which session
/// subscribed, and to which storage keys. Ids are handed out by the map
/// itself, so that no two subscriptions share one.
pub struct StorageSessions {
    map: AssocMap<SubscriptionId, (Session, StorageKeys<Vec<String>>)>,
    next: u64,
}

impl View for StorageSessions {
    type V = Map<Seq<char>, (SessionView, StorageKeys<Seq<Seq<char>>>)>;

    closed spec fn view(&self) -> Map<Seq<char>, (SessionView, StorageKeys<Seq<Seq<char>>>)> {
        self.map@
    }
}

impl StorageSessions {
    /// The id has been handed out by this map.
    pub closed spec fn issued(&self, id: Seq<char>) -> bool {
        exists|n: nat| n < self.next && #[trigger] decimal(n) == id
    }

    /// The id that the map hands out next.
    pub closed spec fn next_id(&self) -> Seq<char> {
        decimal(self.next as nat)
    }

    /// The map can hand out no more ids.
    pub closed spec fn exhausted(&self) -> bool {
        self.next == u64::MAX
    }

    #[verifier::type_invariant]
    closed spec fn ids_issued(&self) -> bool {
        forall|id: Seq<char>| #[trigger] self.map@.dom().contains(id) ==> self.issued(id)
    }

    proof fn lemma_next_fresh(&self)
        requires
            self.ids_issued(),
        ensures
            !self@.dom().contains(self.next_id()),
            !self.issued(self.next_id()),
    {
        let nx = self.next as nat;
        assert forall|n: nat| n < nx implies #[trigger] decimal(n) != decimal(nx) by {
            if decimal(n) == decimal(nx) {
                lemma_decimal_injective(n, nx);
            }
        }
    }

    /// The id handed out next belongs to no subscription: a law of every
    /// subscription map.
    pub fn next_id_is_fresh(&self)
        ensures
            !self@.dom().contains(self.next_id()),
            !self.issued(self.next_id()),
    {
        proof {
            use_type_invariant(self);
            self.lemma_next_fresh();
        }
    }

    /// Ids run out only when the counter does: a map whose next id is the
    /// decimal rendering of `n` is exhausted exactly when `n` is the
    /// largest 64-bit number.
    pub proof fn lemma_exhausted_only_at_counter_end(&self, n: nat)
        requires
            self.next_id() == decimal(n),
        ensures
            self.exhausted() <==> n == u64::MAX,
    {
        lemma_decimal_injective(self.next as nat, n);
    }

    /// No subscriptions, and no ids handed out: the first id is `0`.
    pub fn new() -> (s: Self)
        ensures
            s@ == Map::<Seq<char>, (SessionView, StorageKeys<Seq<Seq<char>>>)>::empty(),
            !s.exhausted(),
            s.next_id() == decimal(0),
    {
        StorageSessions { map: AssocMap::new(), next: 0 }
    }

    /// Hands out an id that no subscription has, and that is never handed
    /// out again; none once the ids are exhausted.
    pub fn new_subscription_id(&mut self) -> (r: Option<SubscriptionId>)
        ensures
            final(self)@ == old(self)@,
            forall|id: Seq<char>| old(self).issued(id) ==> final(self).issued(id),
            r is None <==> old(self).exhausted(),
            r is None ==> final(self).exhausted(),
            r matches Some(id) ==> id@ == old(self).next_id() && !old(self).issued(id@)
                && final(self).issued(id@) && !old(self)@.dom().contains(id@),
            r is None ==> final(self).next_id() == old(self).next_id(),
            forall|n: nat| #![trigger decimal(n)] old(self).next_id() == decimal(n) && r is Some
                ==> final(self).next_id() == decimal(n + 1),
    {
        proof {
            use_type_invariant(&*self);
        }
        if self.next == u64::MAX {
            return None;
        }
        let id = u64_to_decimal(self.next);
        proof {
            let nx = self.next as nat;
            assert forall|n: nat| n < nx implies #[trigger] decimal(n) != id@ by {
                if decimal(n) == id@ {
                    lemma_decimal_injective(n, nx);
                }
            }
            assert(!self.issued(id@));
        }
        self.next = self.next + 1;
        proof {
            assert(decimal(old(self).next as nat) == id@);
            assert forall|n: nat| #![trigger decimal(n)] old(self).next_id() == decimal(n)
                implies self.next_id() == decimal(n + 1) by {
                lemma_decimal_injective(old(self).next as nat, n);
            }
        }
        Some(id)
    }

    /// Records a subscription under an id that this map handed out.
    pub fn insert(&mut self, id: SubscriptionId, value: (Session, StorageKeys<Vec<String>>))
        requires
            old(self).issued(id@),
        ensures
            final(self)@ == old(self)@.insert(id@, (value.0@, value.1@)),
            forall|k: Seq<char>| final(self).issued(k) == old(self).issued(k),
            final(self).exhausted() == old(self).exhausted(),
            final(self).next_id() == old(self).next_id(),
    {
        proof {
            use_type_invariant(&*self);
        }
        let mut map = AssocMap::new();
        std::mem::swap(&mut map, &mut self.map);
        map.insert(id, value);
        self.map = map;
    }

    /// Takes a subscription out, handing back its session and keys.
    pub fn remove(&mut self, id: &SubscriptionId) -> (r: Option<(Session, StorageKeys<Vec<String>>)>)
        ensures
            final(self)@ == old(self)@.remove(id@),
            forall|k: Seq<char>| final(self).issued(k) == old(self).issued(k),
            final(self).exhausted() == old(self).exhausted(),
            final(self).next_id() == old(self).next_id(),
            match r {
                Some(v) => old(self)@.dom().contains(id@) && old(self)@[id@] == (v.0@, v.1@),
                None => !old(self)@.dom().contains(id@),
            },
    {
        proof {
            use_type_invariant(&*self);
        }
        let mut map = AssocMap::new();
        std::mem::swap(&mut map, &mut self.map);
        let r = map.remove(id);
        self.map = map;
        r
    }

    /// The session and keys of a subscription, if it exists.
    pub fn get(&self, id: &SubscriptionId) -> (r: Option<&(Session, StorageKeys<Vec<String>>)>)
        ensures
            match r {
                Some(v) => self@.dom().contains(id@) && self@[id@] == (v.0@, v.1@),
                None => !self@.dom().contains(id@),
            },
    {
        self.map.get(id)
    }

    /// The subscriptions, each once, with their sessions and keys.
    pub fn iter(&self) -> (r: Vec<&(SubscriptionId, (Session, StorageKeys<Vec<String>>))>)
        ensures
            r@.len() == self@.dom().len(),
            forall|i: int| 0 <= i < r@.len() ==> self@.dom().contains(#[trigger] r@[i].0@)
                && self@[r@[i].0@] == r@[i].1@,
            forall|i: int, j: int| 0 <= i < j < r@.len() ==> #[trigger] r@[i].0@ != #[trigger] r@[j].0@,
            forall|k: Seq<char>| self@.dom().contains(k) ==> exists|i: int| 0 <= i < r@.len() && #[trigger] r@[i].0@ == k,
    {
        self.map.iter()
    }
}

impl Default for StorageSessions {
    fn default() -> (s: Self)
        ensures
            s@ == Map::<Seq<char>, (SessionView, StorageKeys<Seq<Seq<char>>>)>::empty(),
            !s.exhausted(),
            s.next_id() == decimal(0),
    {
        StorageSessions::new()
    }
}

} // verus!
