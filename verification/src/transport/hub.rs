//! The transport hub: one global channel, named topic channels created on
//! first use, and per-user channels, one for each live connection of a user.

use vstd::prelude::*;
use tokio::sync::broadcast::{Receiver, Sender};
use super::channel::{
    clone_sender, message_receiver_source, new_connection_id, open_message_channel,
    open_text_channel, send, subscribe_messages, subscribe_text, text_receiver_source, SendLog,
};
use super::message::{is_data, is_ui, ServerMessage};
use crate::keyed::{
    keys_unique, lemma_push_unique, lemma_to_map_dom, lemma_to_map_index, lemma_to_map_len,
    lemma_to_map_remove, lemma_to_map_update, to_map,
};
use crate::text::str_eq;

verus! {

/// Buffer sizes of the hub's channels.
#[derive(Debug, Clone, Copy)]
pub struct TransportHubConfig {
    pub global_broadcast_buffer: usize,
    pub topic_buffer: usize,
    pub user_buffer: usize,
}

/// A buffer size that a broadcast channel accepts.
pub open spec fn valid_buffer(n: usize) -> bool {
    0 < n <= usize::MAX / 2
}

impl TransportHubConfig {
    /// Every buffer size is one that a channel accepts.
    pub open spec fn valid(&self) -> bool {
        valid_buffer(self.global_broadcast_buffer) && valid_buffer(self.topic_buffer)
            && valid_buffer(self.user_buffer)
    }
}

impl Default for TransportHubConfig {
    fn default() -> (r: Self)
        ensures
            r.global_broadcast_buffer == 256,
            r.topic_buffer == 64,
            r.user_buffer == 64,
    {
        TransportHubConfig { global_broadcast_buffer: 256, topic_buffer: 64, user_buffer: 64 }
    }
}

/// Why a hub operation failed.
#[derive(Debug, Clone, Copy, PartialEq, Eq, Structural)]
pub enum BroadcastError {
    NoReceivers,
    HubPoisoned,
}

impl BroadcastError {
    /// The human-readable description of the error.
    pub fn message(&self) -> (r: &'static str)
        ensures
            *self == BroadcastError::NoReceivers ==> r@ == "No receivers for this message"@,
            *self == BroadcastError::HubPoisoned ==> r@ == "Hub state is poisoned"@,
    {
        match self {
            BroadcastError::NoReceivers => "No receivers for this message",
            BroadcastError::HubPoisoned => "Hub state is poisoned",
        }
    }
}

struct Topic {
    name: String,
    sender: Sender<String>,
}

struct Connection {
    id: u128,
    sender: Sender<ServerMessage>,
}

struct UserConnections {
    user_id: String,
    connections: Vec<Connection>,
}

/// Marks one registered connection of a user; `TransportHub::release`
/// takes it back.
#[derive(Clone)]
pub struct ConnectionHandle {
    user_id: String,
    connection_id: u128,
}

impl ConnectionHandle {
    /// The user the connection belongs to.
    pub closed spec fn user(&self) -> Seq<char> {
        self.user_id@
    }

    /// The connection's id.
    pub closed spec fn id(&self) -> u128 {
        self.connection_id
    }
}

spec fn topic_pairs(s: Seq<Topic>) -> Seq<(Seq<char>, Sender<String>)> {
    s.map_values(|t: Topic| (t.name@, t.sender))
}

spec fn conn_pairs(s: Seq<Connection>) -> Seq<(u128, Sender<ServerMessage>)> {
    s.map_values(|c: Connection| (c.id, c.sender))
}

spec fn user_pairs(s: Seq<UserConnections>) -> Seq<(Seq<char>, Map<u128, Sender<ServerMessage>>)> {
    s.map_values(|u: UserConnections| (u.user_id@, to_map(conn_pairs(u.connections@))))
}

/// The per-user table after registering connection `id` of user `u` with
/// channel `s`.
pub open spec fn users_after_register(
    users: Map<Seq<char>, Map<u128, Sender<ServerMessage>>>,
    u: Seq<char>,
    id: u128,
    s: Sender<ServerMessage>,
) -> Map<Seq<char>, Map<u128, Sender<ServerMessage>>> {
    let conns = if users.contains_key(u) {
        users[u]
    } else {
        Map::empty()
    };
    users.insert(u, conns.insert(id, s))
}

/// The per-user table after connection `id` of user `u` goes away: the
/// connection leaves the user's table, and a user left without connections
/// leaves the table.
pub open spec fn users_after_release(
    users: Map<Seq<char>, Map<u128, Sender<ServerMessage>>>,
    u: Seq<char>,
    id: u128,
) -> Map<Seq<char>, Map<u128, Sender<ServerMessage>>> {
    if users.contains_key(u) {
        let rest = users[u].remove(id);
        if rest.dom() == Set::<u128>::empty() {
            users.remove(u)
        } else {
            users.insert(u, rest)
        }
    } else {
        users
    }
}

/// The topic table after `topic` is looked up: it exists afterwards, and
/// topics that existed keep their channels.
pub open spec fn topics_after_lookup(
    before: Map<Seq<char>, Sender<String>>,
    after: Map<Seq<char>, Sender<String>>,
    topic: Seq<char>,
) -> bool {
    &&& after.dom() == before.dom().insert(topic)
    &&& forall|k: Seq<char>| #[trigger] before.contains_key(k) ==> after[k] == before[k]
}

/// `chans` holds, once for each connection of user `u` in `users`, that
/// connection's channel, and nothing else; it is empty for a user without
/// connections.
pub open spec fn channels_cover(
    users: Map<Seq<char>, Map<u128, Sender<ServerMessage>>>,
    u: Seq<char>,
    chans: Seq<Sender<ServerMessage>>,
) -> bool {
    if users.contains_key(u) {
        &&& chans.len() == users[u].dom().len()
        &&& forall|k: int|
            #![trigger chans[k]]
            0 <= k < chans.len() ==> exists|id: u128| #[trigger]
                users[u].contains_key(id) && users[u][id] == chans[k]
        &&& forall|id: u128| #[trigger]
            users[u].contains_key(id) ==> exists|k: int| 0 <= k < chans.len() && chans[k] == users[u][id]
    } else {
        chans.len() == 0
    }
}

/// The global channel and the channels of the connections are all
/// different channels: no connection shares the global channel, or another
/// connection's channel.
pub open spec fn message_channels_apart(
    global: Sender<ServerMessage>,
    users: Map<Seq<char>, Map<u128, Sender<ServerMessage>>>,
) -> bool {
    &&& forall|u: Seq<char>, id: u128|
        #![trigger users[u][id]]
        users.contains_key(u) && users[u].contains_key(id) ==> users[u][id] != global
    &&& forall|u1: Seq<char>, id1: u128, u2: Seq<char>, id2: u128|
        #![trigger users[u1][id1], users[u2][id2]]
        users.contains_key(u1) && users[u1].contains_key(id1) && users.contains_key(u2)
            && users[u2].contains_key(id2) && (u1 != u2 || id1 != id2) ==> users[u1][id1]
            != users[u2][id2]
}

/// `s` is neither the global channel nor the channel of any connection in
/// `users`.
pub open spec fn fresh_message_channel(
    global: Sender<ServerMessage>,
    users: Map<Seq<char>, Map<u128, Sender<ServerMessage>>>,
    s: Sender<ServerMessage>,
) -> bool {
    &&& s != global
    &&& forall|u: Seq<char>, id: u128|
        #![trigger users[u][id]]
        users.contains_key(u) && users[u].contains_key(id) ==> users[u][id] != s
}

/// Different topics have different channels.
pub open spec fn topic_channels_apart(topics: Map<Seq<char>, Sender<String>>) -> bool {
    forall|t1: Seq<char>, t2: Seq<char>|
        #![trigger topics[t1], topics[t2]]
        topics.contains_key(t1) && topics.contains_key(t2) && t1 != t2 ==> topics[t1] != topics[t2]
}

proof fn lemma_push_contains<A>(s: Seq<A>, x: A)
    ensures
        forall|e: A| s.contains(e) ==> #[trigger] s.push(x).contains(e),
        s.push(x).contains(x),
{
    assert forall|e: A| s.contains(e) implies #[trigger] s.push(x).contains(e) by {
        let i = choose|i: int| 0 <= i < s.len() && s[i] == e;
        assert(s.push(x)[i] == e);
    }
    assert(s.push(x)[s.len() as int] == x);
}

proof fn lemma_register_keeps_apart(
    global: Sender<ServerMessage>,
    users: Map<Seq<char>, Map<u128, Sender<ServerMessage>>>,
    u: Seq<char>,
    id: u128,
    s: Sender<ServerMessage>,
)
    requires
        message_channels_apart(global, users),
        fresh_message_channel(global, users, s),
    ensures
        message_channels_apart(global, users_after_register(users, u, id, s)),
{
    let after = users_after_register(users, u, id, s);
    assert forall|v: Seq<char>, j: u128|
        #![trigger after[v][j]]
        after.contains_key(v) && after[v].contains_key(j) implies after[v][j] != global by {
        if v == u && j == id {
        } else {
            assert(users.contains_key(v) && users[v].contains_key(j) && after[v][j] == users[v][j]);
        }
    }
    assert forall|v1: Seq<char>, j1: u128, v2: Seq<char>, j2: u128|
        #![trigger after[v1][j1], after[v2][j2]]
        after.contains_key(v1) && after[v1].contains_key(j1) && after.contains_key(v2)
            && after[v2].contains_key(j2) && (v1 != v2 || j1 != j2) implies after[v1][j1]
        != after[v2][j2] by {
        if v1 == u && j1 == id {
            assert(users.contains_key(v2) && users[v2].contains_key(j2) && after[v2][j2] == users[v2][j2]);
        } else if v2 == u && j2 == id {
            assert(users.contains_key(v1) && users[v1].contains_key(j1) && after[v1][j1] == users[v1][j1]);
        } else {
            assert(after[v1][j1] == users[v1][j1]);
            assert(after[v2][j2] == users[v2][j2]);
        }
    }
}

proof fn lemma_release_keeps_apart(
    global: Sender<ServerMessage>,
    users: Map<Seq<char>, Map<u128, Sender<ServerMessage>>>,
    u: Seq<char>,
    id: u128,
)
    requires
        message_channels_apart(global, users),
    ensures
        message_channels_apart(global, users_after_release(users, u, id)),
{
    let after = users_after_release(users, u, id);
    assert forall|v: Seq<char>, j: u128|
        after.contains_key(v) && after[v].contains_key(j) implies users.contains_key(v)
        && users[v].contains_key(j) && #[trigger] after[v][j] == users[v][j] by {}
    assert forall|v1: Seq<char>, j1: u128, v2: Seq<char>, j2: u128|
        #![trigger after[v1][j1], after[v2][j2]]
        after.contains_key(v1) && after[v1].contains_key(j1) && after.contains_key(v2)
            && after[v2].contains_key(j2) && (v1 != v2 || j1 != j2) implies after[v1][j1]
        != after[v2][j2] by {
        assert(after[v1][j1] == users[v1][j1]);
        assert(after[v2][j2] == users[v2][j2]);
    }
}

proof fn lemma_new_topic_keeps_apart(topics: Map<Seq<char>, Sender<String>>, t: Seq<char>, s: Sender<String>)
    requires
        topic_channels_apart(topics),
        forall|t2: Seq<char>| #[trigger] topics.contains_key(t2) ==> topics[t2] != s,
    ensures
        topic_channels_apart(topics.insert(t, s)),
{
    let after = topics.insert(t, s);
    assert forall|t1: Seq<char>, t2: Seq<char>|
        #![trigger after[t1], after[t2]]
        after.contains_key(t1) && after.contains_key(t2) && t1 != t2 implies after[t1] != after[t2] by {
        if t1 == t {
            assert(topics.contains_key(t2));
        } else if t2 == t {
            assert(topics.contains_key(t1));
        } else {
            assert(after[t1] == topics[t1] && after[t2] == topics[t2]);
        }
    }
}

/// Routes messages to all subscribers, to the subscribers of a topic, or to
/// the connections of one user.
pub struct TransportHub {
    tx: Sender<ServerMessage>,
    topics: Vec<Topic>,
    users: Vec<UserConnections>,
    config: TransportHubConfig,
    topic_log: SendLog<String>,
    message_log: SendLog<ServerMessage>,
}

impl TransportHub {
    /// The global channel.
    pub closed spec fn global(&self) -> Sender<ServerMessage> {
        self.tx
    }

    /// Each topic and its channel.
    pub closed spec fn topics_view(&self) -> Map<Seq<char>, Sender<String>> {
        to_map(topic_pairs(self.topics@))
    }

    /// Each user and the channels of their connections, by connection id.
    pub closed spec fn users_view(&self) -> Map<Seq<char>, Map<u128, Sender<ServerMessage>>> {
        to_map(user_pairs(self.users@))
    }

    /// Every message the hub has handed to a topic channel, with the
    /// channel, in order.
    pub closed spec fn published(&self) -> Seq<(Sender<String>, String)> {
        self.topic_log.records()
    }

    /// For each message the hub has handed to a topic channel, whether the
    /// channel had a subscriber at that moment (the send succeeded).
    pub closed spec fn publish_outcomes(&self) -> Seq<bool> {
        self.topic_log.outcomes()
    }

    /// Every message the hub has handed to the global channel or to a
    /// connection's channel, with the channel, in order.
    pub closed spec fn delivered(&self) -> Seq<(Sender<ServerMessage>, ServerMessage)> {
        self.message_log.records()
    }

    /// The channels of the connections of user `u`, in the order of the
    /// hub's table; empty for a user without connections.
    pub closed spec fn channels_of(&self, u: Seq<char>) -> Seq<Sender<ServerMessage>> {
        if exists|i: int| 0 <= i < self.users@.len() && self.users@[i].user_id@ == u {
            let i = choose|i: int| 0 <= i < self.users@.len() && self.users@[i].user_id@ == u;
            self.users@[i].connections@.map_values(|c: Connection| c.sender)
        } else {
            Seq::empty()
        }
    }

    /// The hub has the channels and tables of `other`: the same global
    /// channel, topics, users with their connections, and buffer sizes.
    pub open spec fn unchanged_tables(&self, other: TransportHub) -> bool {
        &&& self.global() == other.global()
        &&& self.topics_view() == other.topics_view()
        &&& self.users_view() == other.users_view()
        &&& self.config_view() == other.config_view()
    }

    /// The buffer sizes the hub was made with.
    pub closed spec fn config_view(&self) -> TransportHubConfig {
        self.config
    }

    /// The hub's tables are consistent: topic names and users are unique,
    /// each user has at least one connection, and connection ids of a user
    /// are unique.
    pub closed spec fn wf(&self) -> bool {
        &&& message_channels_apart(self.tx, self.users_view())
        &&& topic_channels_apart(self.topics_view())
        &&& keys_unique(topic_pairs(self.topics@))
        &&& keys_unique(user_pairs(self.users@))
        &&& forall|i: int|
            0 <= i < self.users@.len() ==> {
                &&& #[trigger] self.users@[i].connections@.len() > 0
                &&& keys_unique(conn_pairs(self.users@[i].connections@))
            }
    }

    /// A hub with the default buffer sizes.
    pub fn new() -> (h: Self)
        ensures
            h.wf(),
            h.topics_view() == Map::<Seq<char>, Sender<String>>::empty(),
            h.users_view() == Map::<Seq<char>, Map<u128, Sender<ServerMessage>>>::empty(),
            h.config_view().global_broadcast_buffer == 256,
            h.config_view().topic_buffer == 64,
            h.config_view().user_buffer == 64,
            h.published() == Seq::<(Sender<String>, String)>::empty(),
            h.publish_outcomes() == Seq::<bool>::empty(),
            h.delivered() == Seq::<(Sender<ServerMessage>, ServerMessage)>::empty(),
    {
        Self::with_config(TransportHubConfig::default())
    }

    /// A hub with the given buffer sizes. The global channel is opened
    /// here; a topic or user buffer size is used, and must be one that a
    /// channel accepts, only when the first topic or user channel opens.
    pub fn with_config(config: TransportHubConfig) -> (h: Self)
        requires
            valid_buffer(config.global_broadcast_buffer),
        ensures
            h.wf(),
            h.topics_view() == Map::<Seq<char>, Sender<String>>::empty(),
            h.users_view() == Map::<Seq<char>, Map<u128, Sender<ServerMessage>>>::empty(),
            h.config_view() == config,
            h.published() == Seq::<(Sender<String>, String)>::empty(),
            h.publish_outcomes() == Seq::<bool>::empty(),
            h.delivered() == Seq::<(Sender<ServerMessage>, ServerMessage)>::empty(),
    {
        let none: Vec<Sender<ServerMessage>> = Vec::new();
        let (tx, _rx) = open_message_channel(config.global_broadcast_buffer, &none);
        let h = TransportHub {
            tx,
            topics: Vec::new(),
            users: Vec::new(),
            config,
            topic_log: SendLog::new(),
            message_log: SendLog::new(),
        };
        assert(topic_pairs(h.topics@) =~= Seq::empty());
        assert(user_pairs(h.users@) =~= Seq::empty());
        h
    }

    // ---------- Global ----------

    /// A receiver of the global channel.
    pub fn subscribe(&self) -> (rx: Receiver<ServerMessage>)
        ensures
            message_receiver_source(rx) == self.global(),
    {
        subscribe_messages(&self.tx)
    }

    /// Sends `html` to every global subscriber as a `ui` message: one send,
    /// on the global channel.
    pub fn broadcast_html(&mut self, html: &str)
        requires
            old(self).wf(),
        ensures
            final(self).wf(),
            exists|m: ServerMessage|
                is_ui(m, html@) && final(self).delivered() == old(self).delivered().push(
                    (old(self).global(), m),
                ),
            final(self).published() == old(self).published(),
            final(self).publish_outcomes() == old(self).publish_outcomes(),
            final(self).unchanged_tables(*old(self)),
    {
        let m = ServerMessage::ui(html);
        let ghost g = m;
        let _ = send(&self.tx, m, &mut self.message_log);
        assert(is_ui(g, html@));
    }

    /// Sends `data` to every global subscriber as a `data` message: one
    /// send, on the global channel.
    pub fn broadcast_data(&mut self, data: &str)
        requires
            old(self).wf(),
        ensures
            final(self).wf(),
            exists|m: ServerMessage|
                is_data(m, data@) && final(self).delivered() == old(self).delivered().push(
                    (old(self).global(), m),
                ),
            final(self).published() == old(self).published(),
            final(self).publish_outcomes() == old(self).publish_outcomes(),
            final(self).unchanged_tables(*old(self)),
    {
        let m = ServerMessage::data(data);
        let ghost g = m;
        let _ = send(&self.tx, m, &mut self.message_log);
        assert(is_data(g, data@));
    }

    /// Sends `msg` to every global subscriber: one send, on the global
    /// channel.
    pub fn broadcast(&mut self, msg: ServerMessage)
        requires
            old(self).wf(),
        ensures
            final(self).wf(),
            final(self).delivered() == old(self).delivered().push((old(self).global(), msg)),
            final(self).published() == old(self).published(),
            final(self).publish_outcomes() == old(self).publish_outcomes(),
            final(self).unchanged_tables(*old(self)),
    {
        let _ = send(&self.tx, msg, &mut self.message_log);
    }

    // ---------- Topics ----------

    fn find_topic(&self, topic: &str) -> (r: Option<usize>)
        requires
            self.wf(),
        ensures
            match r {
                Some(i) => i < self.topics@.len() && self.topics@[i as int].name@ == topic@,
                None => !self.topics_view().contains_key(topic@),
            },
    {
        let mut i: usize = 0;
        while i < self.topics.len()
            invariant
                i <= self.topics@.len(),
                forall|j: int| 0 <= j < i ==> self.topics@[j].name@ != topic@,
            decreases self.topics@.len() - i,
        {
            if str_eq(self.topics[i].name.as_str(), topic) {
                return Some(i);
            }
            i = i + 1;
        }
        proof {
            lemma_to_map_dom(topic_pairs(self.topics@));
            if self.topics_view().contains_key(topic@) {
                let j = choose|j: int|
                    0 <= j < topic_pairs(self.topics@).len() && topic_pairs(self.topics@)[j].0
                        == topic@;
                assert(self.topics@[j].name@ == topic@);
            }
        }
        None
    }

    /// Every topic channel the hub holds.
    fn topic_senders(&self) -> (r: Vec<Sender<String>>)
        requires
            self.wf(),
        ensures
            forall|t: Seq<char>| #[trigger]
                self.topics_view().contains_key(t) ==> r@.contains(self.topics_view()[t]),
    {
        let mut r: Vec<Sender<String>> = Vec::new();
        let mut k: usize = 0;
        while k < self.topics.len()
            invariant
                k <= self.topics@.len(),
                forall|j: int| 0 <= j < k ==> r@.contains(#[trigger] self.topics@[j].sender),
            decreases self.topics@.len() - k,
        {
            let ghost before = r@;
            r.push(clone_sender(&self.topics[k].sender));
            proof {
                lemma_push_contains(before, self.topics@[k as int].sender);
            }
            k = k + 1;
        }
        proof {
            let tp = topic_pairs(self.topics@);
            lemma_to_map_dom(tp);
            assert forall|t: Seq<char>| #[trigger]
                self.topics_view().contains_key(t) implies r@.contains(self.topics_view()[t]) by {
                let j = choose|j: int| 0 <= j < tp.len() && tp[j].0 == t;
                lemma_to_map_index(tp, j);
                assert(self.topics_view()[t] == self.topics@[j].sender);
            }
        }
        r
    }

    /// Every channel of server messages the hub holds: the global channel
    /// and the channel of each connection.
    fn message_senders(&self) -> (r: Vec<Sender<ServerMessage>>)
        requires
            self.wf(),
        ensures
            r@.contains(self.global()),
            forall|u: Seq<char>, id: u128|
                #![trigger self.users_view()[u][id]]
                self.users_view().contains_key(u) && self.users_view()[u].contains_key(id) ==> r@.contains(
                    self.users_view()[u][id],
                ),
    {
        let mut r: Vec<Sender<ServerMessage>> = Vec::new();
        r.push(clone_sender(&self.tx));
        assert(r@[0] == self.tx);
        let mut a: usize = 0;
        while a < self.users.len()
            invariant
                a <= self.users@.len(),
                r@.contains(self.tx),
                forall|x: int, y: int|
                    0 <= x < a && 0 <= y < self.users@[x].connections@.len() ==> r@.contains(
                        #[trigger] self.users@[x].connections@[y].sender,
                    ),
            decreases self.users@.len() - a,
        {
            let mut b: usize = 0;
            while b < self.users[a].connections.len()
                invariant
                    a < self.users@.len(),
                    b <= self.users@[a as int].connections@.len(),
                    r@.contains(self.tx),
                    forall|x: int, y: int|
                        0 <= x < a && 0 <= y < self.users@[x].connections@.len() ==> r@.contains(
                            #[trigger] self.users@[x].connections@[y].sender,
                        ),
                    forall|y: int|
                        0 <= y < b ==> r@.contains(#[trigger] self.users@[a as int].connections@[y].sender),
                decreases self.users@[a as int].connections@.len() - b,
            {
                let ghost before = r@;
                r.push(clone_sender(&self.users[a].connections[b].sender));
                proof {
                    lemma_push_contains(before, self.users@[a as int].connections@[b as int].sender);
                }
                b = b + 1;
            }
            a = a + 1;
        }
        proof {
            let up = user_pairs(self.users@);
            lemma_to_map_dom(up);
            assert forall|u: Seq<char>, id: u128|
                #![trigger self.users_view()[u][id]]
                self.users_view().contains_key(u) && self.users_view()[u].contains_key(
                    id,
                ) implies r@.contains(self.users_view()[u][id]) by {
                let x = choose|x: int| 0 <= x < up.len() && up[x].0 == u;
                lemma_to_map_index(up, x);
                let cs = self.users@[x].connections@;
                assert(cs.len() > 0);
                let cp = conn_pairs(cs);
                lemma_to_map_dom(cp);
                let y = choose|y: int| 0 <= y < cp.len() && cp[y].0 == id;
                lemma_to_map_index(cp, y);
                assert(self.users_view()[u][id] == self.users@[x].connections@[y].sender);
            }
        }
        r
    }

    /// The channel of `topic`, created with the configured topic buffer when
    /// the topic is new: the channel that `publish` sends on and that
    /// `subscribe_topic` subscribes to.
    pub fn topic_channel(&mut self, topic: &str) -> (s: Sender<String>)
        requires
            old(self).wf(),
            valid_buffer(old(self).config_view().topic_buffer),
        ensures
            final(self).wf(),
            topics_after_lookup(old(self).topics_view(), final(self).topics_view(), topic@),
            s == final(self).topics_view()[topic@],
            !old(self).topics_view().contains_key(topic@) ==> forall|t: Seq<char>| #[trigger]
                old(self).topics_view().contains_key(t) ==> old(self).topics_view()[t] != s,
            final(self).users_view() == old(self).users_view(),
            final(self).global() == old(self).global(),
            final(self).config_view() == old(self).config_view(),
            final(self).published() == old(self).published(),
            final(self).publish_outcomes() == old(self).publish_outcomes(),
            final(self).delivered() == old(self).delivered(),
    {
        match self.find_topic(topic) {
            Some(i) => {
                proof {
                    lemma_to_map_index(topic_pairs(self.topics@), i as int);
                    lemma_to_map_dom(topic_pairs(self.topics@));
                    assert(self.topics_view().dom() =~= self.topics_view().dom().insert(topic@));
                }
                clone_sender(&self.topics[i].sender)
            },
            None => {
                let others = self.topic_senders();
                let (tx, _rx) = open_text_channel(self.config.topic_buffer, &others);
                proof {
                    assert forall|t: Seq<char>| #[trigger]
                        old(self).topics_view().contains_key(t) implies old(self).topics_view()[t] != tx by {
                        let k = choose|k: int| 0 <= k < others@.len() && others@[k] == old(self).topics_view()[t];
                    }
                    lemma_new_topic_keeps_apart(old(self).topics_view(), topic@, tx);
                }
                let s = clone_sender(&tx);
                let t = Topic { name: topic.to_string(), sender: tx };
                let ghost before = self.topics@;
                proof {
                    lemma_to_map_dom(topic_pairs(before));
                    assert forall|j: int| 0 <= j < topic_pairs(before).len() implies topic_pairs(
                        before,
                    )[j].0 != topic@ by {
                        if topic_pairs(before)[j].0 == topic@ {
                            assert(exists|i: int|
                                0 <= i < topic_pairs(before).len() && topic_pairs(before)[i].0
                                    == topic@);
                        }
                    }
                    lemma_push_unique(topic_pairs(before), (topic@, tx));
                }
                self.topics.push(t);
                assert(topic_pairs(self.topics@) =~= topic_pairs(before).push((topic@, tx)));
                assert(self.topics_view().dom() =~= old(self).topics_view().dom().insert(topic@));
                s
            },
        }
    }

    /// Publishes `message` on `topic_channel(topic)`, to the subscribers of
    /// `topic`, creating the topic if it is new; the send is recorded at the
    /// end of `published()`. The result is `Ok` exactly when the topic's
    /// channel had a subscriber at that moment (the outcome recorded at the
    /// end of `publish_outcomes()`), and `NoReceivers` otherwise.
    pub fn publish(&mut self, topic: &str, message: String) -> (r: Result<(), BroadcastError>)
        requires
            old(self).wf(),
            valid_buffer(old(self).config_view().topic_buffer),
        ensures
            final(self).wf(),
            topics_after_lookup(old(self).topics_view(), final(self).topics_view(), topic@),
            final(self).users_view() == old(self).users_view(),
            final(self).global() == old(self).global(),
            final(self).config_view() == old(self).config_view(),
            final(self).published() == old(self).published().push(
                (final(self).topics_view()[topic@], message),
            ),
            final(self).publish_outcomes() == old(self).publish_outcomes().push(r is Ok),
            final(self).delivered() == old(self).delivered(),
            r matches Err(e) ==> e == BroadcastError::NoReceivers,
    {
        let sender = self.topic_channel(topic);
        match send(&sender, message, &mut self.topic_log) {
            Ok(_) => Ok(()),
            Err(_) => Err(BroadcastError::NoReceivers),
        }
    }

    /// A receiver of `topic`'s channel, creating the topic if it is new.
    pub fn subscribe_topic(&mut self, topic: &str) -> (r: Result<Receiver<String>, BroadcastError>)
        requires
            old(self).wf(),
            valid_buffer(old(self).config_view().topic_buffer),
        ensures
            final(self).wf(),
            topics_after_lookup(old(self).topics_view(), final(self).topics_view(), topic@),
            final(self).users_view() == old(self).users_view(),
            final(self).global() == old(self).global(),
            final(self).config_view() == old(self).config_view(),
            final(self).published() == old(self).published(),
            final(self).publish_outcomes() == old(self).publish_outcomes(),
            final(self).delivered() == old(self).delivered(),
            r is Ok,
            r matches Ok(rx) ==> text_receiver_source(rx) == final(self).topics_view()[topic@],
    {
        let sender = self.topic_channel(topic);
        Ok(subscribe_text(&sender))
    }

    // ---------- Per-user ----------

    fn find_user(&self, user_id: &str) -> (r: Option<usize>)
        requires
            self.wf(),
        ensures
            match r {
                Some(i) => i < self.users@.len() && self.users@[i as int].user_id@ == user_id@,
                None => !self.users_view().contains_key(user_id@),
            },
    {
        let mut i: usize = 0;
        while i < self.users.len()
            invariant
                i <= self.users@.len(),
                forall|j: int| 0 <= j < i ==> self.users@[j].user_id@ != user_id@,
            decreases self.users@.len() - i,
        {
            if str_eq(self.users[i].user_id.as_str(), user_id) {
                return Some(i);
            }
            i = i + 1;
        }
        proof {
            let p = user_pairs(self.users@);
            lemma_to_map_dom(p);
            if self.users_view().contains_key(user_id@) {
                let j = choose|j: int| 0 <= j < p.len() && p[j].0 == user_id@;
                assert(self.users@[j].user_id@ == user_id@);
            }
        }
        None
    }

    /// Registers a new connection of `user_id` and returns the receiver of
    /// its personal channel, made with the configured user buffer, and the
    /// handle that releases it. The connection id is random.
    pub fn register_user(&mut self, user_id: &str) -> (r: Result<
        (Receiver<ServerMessage>, ConnectionHandle),
        BroadcastError,
    >)
        requires
            old(self).wf(),
            valid_buffer(old(self).config_view().user_buffer),
        ensures
            final(self).wf(),
            r is Ok,
            r matches Ok((rx, h)) ==> {
                &&& h.user() == user_id@
                &&& fresh_message_channel(
                    old(self).global(),
                    old(self).users_view(),
                    message_receiver_source(rx),
                )
                &&& final(self).users_view() == users_after_register(
                    old(self).users_view(),
                    user_id@,
                    h.id(),
                    message_receiver_source(rx),
                )
            },
            final(self).topics_view() == old(self).topics_view(),
            final(self).global() == old(self).global(),
            final(self).config_view() == old(self).config_view(),
            final(self).published() == old(self).published(),
            final(self).publish_outcomes() == old(self).publish_outcomes(),
            final(self).delivered() == old(self).delivered(),
    {
        let others = self.message_senders();
        let (tx, rx) = open_message_channel(self.config.user_buffer, &others);
        proof {
            let k0 = choose|k: int| 0 <= k < others@.len() && others@[k] == self.tx;
            assert forall|u: Seq<char>, j: u128|
                #![trigger old(self).users_view()[u][j]]
                old(self).users_view().contains_key(u) && old(self).users_view()[u].contains_key(
                    j,
                ) implies old(self).users_view()[u][j] != tx by {
                let k = choose|k: int| 0 <= k < others@.len() && others@[k] == old(self).users_view()[u][j];
            }
            assert(fresh_message_channel(self.global(), self.users_view(), tx));
        }
        let id = new_connection_id();
        let ghost s = tx;
        let ghost old_users = self.users@;
        match self.find_user(user_id) {
            Some(i) => {
                let ghost old_conns = self.users@[i as int].connections@;
                proof {
                    lemma_to_map_index(user_pairs(old_users), i as int);
                }
                let mut j: usize = 0;
                while j < self.users[i].connections.len() && self.users[i].connections[j].id != id
                    invariant
                        i < self.users@.len(),
                        self.users@ == old_users,
                        self.users@[i as int].connections@ == old_conns,
                        j <= old_conns.len(),
                        forall|k: int| 0 <= k < j ==> old_conns[k].id != id,
                    decreases old_conns.len() - j,
                {
                    j = j + 1;
                }
                let found = j < self.users[i].connections.len();
                let ghost cp = conn_pairs(old_conns);
                let ghost new_conns;
                if found {
                    proof {
                        lemma_to_map_update(cp, j as int, s);
                        assert(cp[j as int].0 == old_conns[j as int].id);
                    }
                    self.users[i].connections.set(j, Connection { id, sender: tx });
                    proof {
                        new_conns = self.users@[i as int].connections@;
                        assert(conn_pairs(new_conns) =~= cp.update(j as int, (id, s)));
                    }
                } else {
                    proof {
                        assert(forall|k: int| 0 <= k < cp.len() ==> cp[k].0 != id);
                        lemma_push_unique(cp, (id, s));
                    }
                    self.users[i].connections.push(Connection { id, sender: tx });
                    proof {
                        new_conns = self.users@[i as int].connections@;
                        assert(conn_pairs(new_conns) =~= cp.push((id, s)));
                    }
                }
                proof {
                    let up = user_pairs(old_users);
                    let m = to_map(conn_pairs(new_conns));
                    lemma_to_map_update(up, i as int, m);
                    assert(user_pairs(self.users@) =~= up.update(i as int, (user_id@, m)));
                    assert(m == to_map(cp).insert(id, s));
                    assert forall|k: int| 0 <= k < self.users@.len() implies {
                        &&& #[trigger] self.users@[k].connections@.len() > 0
                        &&& keys_unique(conn_pairs(self.users@[k].connections@))
                    } by {
                        if k != i {
                            assert(self.users@[k] == old_users[k]);
                        }
                    }
                }
            },
            None => {
                let ghost up = user_pairs(old_users);
                let c = Connection { id, sender: tx };
                let mut conns: Vec<Connection> = Vec::new();
                conns.push(c);
                let entry = UserConnections { user_id: user_id.to_string(), connections: conns };
                proof {
                    lemma_to_map_dom(up);
                    assert forall|j: int| 0 <= j < up.len() implies up[j].0 != user_id@ by {
                        if up[j].0 == user_id@ {
                            assert(exists|i: int| 0 <= i < up.len() && up[i].0 == user_id@);
                        }
                    }
                    let cp = conn_pairs(entry.connections@);
                    assert(cp.len() == 1);
                    assert(cp[0] == (id, s));
                    assert(cp.drop_last() =~= Seq::<(u128, Sender<ServerMessage>)>::empty());
                    assert(to_map(cp.drop_last()) == Map::<u128, Sender<ServerMessage>>::empty());
                    assert(to_map(cp) == Map::<u128, Sender<ServerMessage>>::empty().insert(id, s));
                    lemma_push_unique(up, (user_id@, to_map(cp)));
                }
                self.users.push(entry);
                proof {
                    assert(user_pairs(self.users@) =~= up.push((user_id@, to_map(conn_pairs(entry.connections@)))));
                    assert forall|k: int| 0 <= k < self.users@.len() implies {
                        &&& #[trigger] self.users@[k].connections@.len() > 0
                        &&& keys_unique(conn_pairs(self.users@[k].connections@))
                    } by {
                        if k < old_users.len() {
                            assert(self.users@[k] == old_users[k]);
                        }
                    }
                }
            },
        }
        proof {
            lemma_register_keeps_apart(old(self).global(), old(self).users_view(), user_id@, id, s);
        }
        let handle = ConnectionHandle { user_id: user_id.to_string(), connection_id: id };
        Ok((rx, handle))
    }

    /// Takes back the connection that `handle` marks: it leaves its user's
    /// table, and a user left without connections leaves the hub.
    pub fn release(&mut self, handle: ConnectionHandle)
        requires
            old(self).wf(),
        ensures
            final(self).wf(),
            final(self).users_view() == users_after_release(
                old(self).users_view(),
                handle.user(),
                handle.id(),
            ),
            final(self).topics_view() == old(self).topics_view(),
            final(self).global() == old(self).global(),
            final(self).config_view() == old(self).config_view(),
            final(self).published() == old(self).published(),
            final(self).publish_outcomes() == old(self).publish_outcomes(),
            final(self).delivered() == old(self).delivered(),
    {
        proof {
            lemma_release_keeps_apart(self.tx, self.users_view(), handle.user(), handle.id());
        }
        let ghost old_users = self.users@;
        let ghost up = user_pairs(old_users);
        let id = handle.connection_id;
        match self.find_user(handle.user_id.as_str()) {
            None => {},
            Some(i) => {
                let ghost old_conns = self.users@[i as int].connections@;
                let ghost cp = conn_pairs(old_conns);
                proof {
                    lemma_to_map_index(up, i as int);
                }
                let mut j: usize = 0;
                while j < self.users[i].connections.len() && self.users[i].connections[j].id != id
                    invariant
                        i < self.users@.len(),
                        self.users@ == old_users,
                        self.users@[i as int].connections@ == old_conns,
                        j <= old_conns.len(),
                        forall|k: int| 0 <= k < j ==> old_conns[k].id != id,
                    decreases old_conns.len() - j,
                {
                    j = j + 1;
                }
                let found = j < self.users[i].connections.len();
                if !found {
                    proof {
                        lemma_to_map_dom(cp);
                        assert(!to_map(cp).contains_key(id)) by {
                            if to_map(cp).contains_key(id) {
                                let k = choose|k: int| 0 <= k < cp.len() && cp[k].0 == id;
                                assert(cp[k].0 == old_conns[k].id);
                            }
                        }
                        assert(to_map(cp).remove(id) =~= to_map(cp));
                        assert(cp[0].0 == old_conns[0].id);
                        assert(to_map(cp).contains_key(cp[0].0));
                        assert(to_map(cp).dom() != Set::<u128>::empty());
                        assert(old(self).users_view().insert(handle.user(), to_map(cp)) =~= old(
                            self,
                        ).users_view());
                    }
                } else if self.users[i].connections.len() == 1 {
                    proof {
                        lemma_to_map_remove(cp, j as int);
                        assert(cp[j as int].0 == old_conns[j as int].id);
                        assert(cp.remove(j as int) =~= Seq::empty());
                        assert(to_map(cp).remove(id).dom() =~= Set::<u128>::empty());
                        lemma_to_map_remove(up, i as int);
                    }
                    let _ = self.users.remove(i);
                    proof {
                        assert(user_pairs(self.users@) =~= up.remove(i as int));
                        assert forall|k: int| 0 <= k < self.users@.len() implies {
                            &&& #[trigger] self.users@[k].connections@.len() > 0
                            &&& keys_unique(conn_pairs(self.users@[k].connections@))
                        } by {
                            if k < i {
                                assert(self.users@[k] == old_users[k]);
                            } else {
                                assert(self.users@[k] == old_users[k + 1]);
                            }
                        }
                    }
                } else {
                    proof {
                        lemma_to_map_remove(cp, j as int);
                        assert(cp[j as int].0 == old_conns[j as int].id);
                    }
                    let _ = self.users[i].connections.remove(j);
                    proof {
                        let nc = self.users@[i as int].connections@;
                        assert(conn_pairs(nc) =~= cp.remove(j as int));
                        let m = to_map(conn_pairs(nc));
                        assert(m == to_map(cp).remove(id));
                        lemma_to_map_index(conn_pairs(nc), 0);
                        assert(m.dom().contains(conn_pairs(nc)[0].0));
                        assert(m.dom() != Set::<u128>::empty());
                        lemma_to_map_update(up, i as int, m);
                        assert(user_pairs(self.users@) =~= up.update(i as int, (handle.user(), m)));
                        assert forall|k: int| 0 <= k < self.users@.len() implies {
                            &&& #[trigger] self.users@[k].connections@.len() > 0
                            &&& keys_unique(conn_pairs(self.users@[k].connections@))
                        } by {
                            if k != i {
                                assert(self.users@[k] == old_users[k]);
                            }
                        }
                    }
                }
            },
        }
    }

    /// The channels of the connections of `user_id`, one per connection: the
    /// channels that `direct_to_user` sends to.
    pub fn user_channels(&self, user_id: &str) -> (r: Vec<Sender<ServerMessage>>)
        requires
            self.wf(),
        ensures
            r@ == self.channels_of(user_id@),
            channels_cover(self.users_view(), user_id@, r@),
    {
        let mut r: Vec<Sender<ServerMessage>> = Vec::new();
        match self.find_user(user_id) {
            None => {
                proof {
                    let up = user_pairs(self.users@);
                    lemma_to_map_dom(up);
                    if exists|i: int| 0 <= i < self.users@.len() && self.users@[i].user_id@ == user_id@ {
                        let i = choose|i: int|
                            0 <= i < self.users@.len() && self.users@[i].user_id@ == user_id@;
                        assert(up[i].0 == user_id@);
                    }
                    assert(r@ =~= self.channels_of(user_id@));
                }
                r
            },
            Some(i) => {
                let ghost cs = self.users@[i as int].connections@;
                let ghost cp = conn_pairs(cs);
                proof {
                    lemma_to_map_index(user_pairs(self.users@), i as int);
                }
                let mut j: usize = 0;
                while j < self.users[i].connections.len()
                    invariant
                        self.wf(),
                        i < self.users@.len(),
                        cs == self.users@[i as int].connections@,
                        cp == conn_pairs(cs),
                        j <= cs.len(),
                        r@.len() == j,
                        forall|k: int| 0 <= k < j ==> r@[k] == #[trigger] cp[k].1,
                    decreases cs.len() - j,
                {
                    r.push(clone_sender(&self.users[i].connections[j].sender));
                    j = j + 1;
                }
                proof {
                    let m = to_map(cp);
                    assert(m == self.users_view()[user_id@]);
                    let up = user_pairs(self.users@);
                    let c = choose|c: int| 0 <= c < self.users@.len() && self.users@[c].user_id@ == user_id@;
                    assert(up[c].0 == up[i as int].0);
                    assert(c == i);
                    assert forall|k: int| 0 <= k < r@.len() implies r@[k] == self.channels_of(user_id@)[k] by {
                        assert(r@[k] == cp[k].1);
                    }
                    assert(r@ =~= self.channels_of(user_id@));
                    lemma_to_map_len(cp);
                    lemma_to_map_dom(cp);
                    assert forall|k: int| #![trigger r@[k]] 0 <= k < r@.len() implies exists|id: u128| #[trigger]
                        m.contains_key(id) && m[id] == r@[k] by {
                        lemma_to_map_index(cp, k);
                        assert(m.contains_key(cp[k].0));
                    }
                    assert forall|id: u128| #[trigger] m.contains_key(id) implies exists|k: int|
                        0 <= k < r@.len() && r@[k] == m[id] by {
                        let k = choose|k: int| 0 <= k < cp.len() && cp[k].0 == id;
                        lemma_to_map_index(cp, k);
                        assert(r@[k] == cp[k].1);
                    }
                }
                r
            },
        }
    }

    /// The sends of `m` on each of `chans`, in order.
    pub open spec fn sends_to(
        chans: Seq<Sender<ServerMessage>>,
        m: ServerMessage,
    ) -> Seq<(Sender<ServerMessage>, ServerMessage)> {
        chans.map_values(|c: Sender<ServerMessage>| (c, m))
    }

    /// Sends `msg` on each channel of `user_channels(user_id)`, in order: to
    /// every connection of that user and to no other channel; a user with no
    /// connection gets nothing.
    pub fn direct_to_user(&mut self, user_id: &str, msg: ServerMessage)
        requires
            old(self).wf(),
        ensures
            final(self).wf(),
            final(self).delivered() == old(self).delivered() + Self::sends_to(
                old(self).channels_of(user_id@),
                msg,
            ),
            channels_cover(old(self).users_view(), user_id@, old(self).channels_of(user_id@)),
            final(self).published() == old(self).published(),
            final(self).publish_outcomes() == old(self).publish_outcomes(),
            final(self).unchanged_tables(*old(self)),
    {
        let senders = self.user_channels(user_id);
        let mut k: usize = 0;
        while k < senders.len()
            invariant
                k <= senders@.len(),
                self.tx == old(self).tx,
                self.topics@ == old(self).topics@,
                self.users@ == old(self).users@,
                self.config == old(self).config,
                self.topic_log == old(self).topic_log,
                self.message_log.records() == old(self).delivered() + Self::sends_to(
                    senders@.take(k as int),
                    msg,
                ),
            decreases senders@.len() - k,
        {
            let ghost before = self.message_log.records();
            let m = msg.duplicate();
            let _ = send(&senders[k], m, &mut self.message_log);
            assert(senders@.take(k + 1) =~= senders@.take(k as int).push(senders@[k as int]));
            assert(Self::sends_to(senders@.take(k + 1), msg) =~= Self::sends_to(
                senders@.take(k as int),
                msg,
            ).push((senders@[k as int], msg)));
            assert(self.message_log.records() =~= old(self).delivered() + Self::sends_to(
                senders@.take(k + 1),
                msg,
            ));
            k = k + 1;
        }
        assert(senders@.take(senders@.len() as int) =~= senders@);
    }

    /// Sends `html` to every connection of `user_id` as a `ui` message.
    pub fn direct_html_to_user(&mut self, user_id: &str, html: &str)
        requires
            old(self).wf(),
        ensures
            final(self).wf(),
            exists|m: ServerMessage|
                is_ui(m, html@) && final(self).delivered() == old(self).delivered()
                    + Self::sends_to(old(self).channels_of(user_id@), m),
            channels_cover(old(self).users_view(), user_id@, old(self).channels_of(user_id@)),
            final(self).published() == old(self).published(),
            final(self).publish_outcomes() == old(self).publish_outcomes(),
            final(self).unchanged_tables(*old(self)),
    {
        let m = ServerMessage::ui(html);
        let ghost g = m;
        self.direct_to_user(user_id, m);
        assert(is_ui(g, html@));
    }

    /// Sends `data` to every connection of `user_id` as a `data` message.
    pub fn direct_data_to_user(&mut self, user_id: &str, data: &str)
        requires
            old(self).wf(),
        ensures
            final(self).wf(),
            exists|m: ServerMessage|
                is_data(m, data@) && final(self).delivered() == old(self).delivered()
                    + Self::sends_to(old(self).channels_of(user_id@), m),
            channels_cover(old(self).users_view(), user_id@, old(self).channels_of(user_id@)),
            final(self).published() == old(self).published(),
            final(self).publish_outcomes() == old(self).publish_outcomes(),
            final(self).unchanged_tables(*old(self)),
    {
        let m = ServerMessage::data(data);
        let ghost g = m;
        self.direct_to_user(user_id, m);
        assert(is_data(g, data@));
    }
}

/// Releasing a connection right after registering it gives back the
/// per-user table as it was, provided the new connection id was not already
/// in use by that user (ids are random) and the table holds no user without
/// connections.
pub proof fn law_release_undoes_register(
    users: Map<Seq<char>, Map<u128, Sender<ServerMessage>>>,
    u: Seq<char>,
    id: u128,
    s: Sender<ServerMessage>,
)
    requires
        forall|v: Seq<char>| #[trigger] users.contains_key(v) ==> users[v].dom() != Set::<u128>::empty(),
        users.contains_key(u) ==> !users[u].contains_key(id),
    ensures
        users_after_release(users_after_register(users, u, id, s), u, id) == users,
{
    let after = users_after_register(users, u, id, s);
    let back = users_after_release(after, u, id);
    if users.contains_key(u) {
        assert(after[u].remove(id) =~= users[u]);
        assert(back =~= users);
    } else {
        assert(after[u].remove(id) =~= Map::<u128, Sender<ServerMessage>>::empty());
        assert(after[u].remove(id).dom() =~= Set::<u128>::empty());
        assert(back =~= users);
    }
}

/// Every user in a well-formed hub has at least one connection.
pub proof fn law_users_have_connections(h: TransportHub)
    requires
        h.wf(),
    ensures
        forall|u: Seq<char>| #[trigger]
            h.users_view().contains_key(u) ==> h.users_view()[u].dom() != Set::<u128>::empty(),
{
    let up = user_pairs(h.users@);
    lemma_to_map_dom(up);
    assert forall|u: Seq<char>| #[trigger] h.users_view().contains_key(u) implies h.users_view()[u].dom()
        != Set::<u128>::empty() by {
        let i = choose|i: int| 0 <= i < up.len() && up[i].0 == u;
        lemma_to_map_index(up, i);
        let cp = conn_pairs(h.users@[i].connections@);
        assert(h.users@[i].connections@.len() > 0);
        lemma_to_map_index(cp, 0);
        assert(h.users_view()[u].dom().contains(cp[0].0));
    }
}

/// Looking a topic up twice yields the same channel both times: every
/// subscriber of a topic, and every publisher to it, uses one channel.
pub proof fn law_topic_channel_is_stable(
    t0: Map<Seq<char>, Sender<String>>,
    t1: Map<Seq<char>, Sender<String>>,
    t2: Map<Seq<char>, Sender<String>>,
    topic: Seq<char>,
)
    requires
        topics_after_lookup(t0, t1, topic),
        topics_after_lookup(t1, t2, topic),
    ensures
        t2.contains_key(topic),
        t2[topic] == t1[topic],
{
    assert(t1.contains_key(topic));
}

/// Registering a connection and releasing another one keeps every other
/// user's connections as they were.
pub proof fn law_other_users_unaffected(
    users: Map<Seq<char>, Map<u128, Sender<ServerMessage>>>,
    u: Seq<char>,
    v: Seq<char>,
    id: u128,
    s: Sender<ServerMessage>,
)
    requires
        u != v,
    ensures
        users_after_register(users, u, id, s).contains_key(v) == users.contains_key(v),
        users.contains_key(v) ==> users_after_register(users, u, id, s)[v] == users[v],
        users_after_release(users, u, id).contains_key(v) == users.contains_key(v),
        users.contains_key(v) ==> users_after_release(users, u, id)[v] == users[v],
{
}

/// The hub keeps its channels apart: no connection shares the global
/// channel or another connection's channel, and no two topics share a
/// channel. So what is sent to one user, topic, or to everyone, reaches no
/// other.
pub proof fn law_hub_channels_apart(h: TransportHub)
    requires
        h.wf(),
    ensures
        message_channels_apart(h.global(), h.users_view()),
        topic_channels_apart(h.topics_view()),
{
}

/// The channels that a direct message to user `a` is sent on (those that
/// cover `a`'s connections) are neither the global channel nor the channel
/// of any connection of another user `b`.
pub proof fn law_direct_stays_with_user(
    global: Sender<ServerMessage>,
    users: Map<Seq<char>, Map<u128, Sender<ServerMessage>>>,
    a: Seq<char>,
    b: Seq<char>,
    chans: Seq<Sender<ServerMessage>>,
)
    requires
        message_channels_apart(global, users),
        channels_cover(users, a, chans),
        a != b,
    ensures
        forall|k: int|
            #![trigger chans[k]]
            0 <= k < chans.len() ==> chans[k] != global && (users.contains_key(b) ==> forall|id: u128|
                #[trigger] users[b].contains_key(id) ==> users[b][id] != chans[k]),
{
    assert forall|k: int|
        #![trigger chans[k]]
        0 <= k < chans.len() implies chans[k] != global && (users.contains_key(b) ==> forall|id: u128|
            #[trigger] users[b].contains_key(id) ==> users[b][id] != chans[k]) by {
        let ia = choose|id: u128| #[trigger] users[a].contains_key(id) && users[a][id] == chans[k];
        assert(users[a][ia] != global);
        if users.contains_key(b) {
            assert forall|id: u128| #[trigger] users[b].contains_key(id) implies users[b][id] != chans[k] by {
                assert(users[a][ia] != users[b][id]);
            }
        }
    }
}

/// When user `u` registers two connections with different ids and the
/// first is released, `u` keeps exactly the second, so a direct message to
/// `u` goes on its channel alone; when the second is released too, the
/// table is back as it was and a direct message to `u` goes nowhere.
pub proof fn law_second_connection_survives(
    users: Map<Seq<char>, Map<u128, Sender<ServerMessage>>>,
    u: Seq<char>,
    id1: u128,
    s1: Sender<ServerMessage>,
    id2: u128,
    s2: Sender<ServerMessage>,
    chans: Seq<Sender<ServerMessage>>,
)
    requires
        !users.contains_key(u),
        id1 != id2,
    ensures
        ({
            let kept = users_after_release(
                users_after_register(users_after_register(users, u, id1, s1), u, id2, s2),
                u,
                id1,
            );
            &&& kept.contains_key(u)
            &&& kept[u] == Map::<u128, Sender<ServerMessage>>::empty().insert(id2, s2)
            &&& channels_cover(kept, u, chans) ==> chans == seq![s2]
            &&& users_after_release(kept, u, id2) == users
            &&& channels_cover(users, u, chans) ==> chans.len() == 0
        }),
{
    let one = users_after_register(users, u, id1, s1);
    let two = users_after_register(one, u, id2, s2);
    let kept = users_after_release(two, u, id1);
    let single = Map::<u128, Sender<ServerMessage>>::empty().insert(id2, s2);
    assert(one[u] =~= Map::<u128, Sender<ServerMessage>>::empty().insert(id1, s1));
    assert(two[u].remove(id1) =~= single);
    assert(single.dom() =~= set![id2]);
    assert(single.dom() != Set::<u128>::empty()) by {
        assert(single.dom().contains(id2));
    }
    assert(kept =~= users.insert(u, single));
    if channels_cover(kept, u, chans) {
        assert(single.dom().len() == 1);
        assert(single.contains_key(id2));
        let k = choose|k: int| 0 <= k < chans.len() && chans[k] == single[id2];
        assert(k == 0);
        assert(chans =~= seq![s2]);
    }
    assert(kept[u].remove(id2).dom() =~= Set::<u128>::empty());
    assert(users_after_release(kept, u, id2) =~= users);
}

impl Default for TransportHub {
    fn default() -> (h: Self)
        ensures
            h.wf(),
            h.topics_view() == Map::<Seq<char>, Sender<String>>::empty(),
            h.users_view() == Map::<Seq<char>, Map<u128, Sender<ServerMessage>>>::empty(),
    {
        Self::new()
    }
}

} // verus!
