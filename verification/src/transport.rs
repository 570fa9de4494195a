//! Real-time transport: the message type, the hub that routes messages to
//! global, topic and per-user channels, and the per-connection filtering
//! decisions shared by the SSE and WebSocket endpoints.

pub mod channel;
pub mod message;

pub mod hub;
pub mod query;

pub use hub::{BroadcastError, ConnectionHandle, TransportHub, TransportHubConfig};
pub use message::ServerMessage;

use vstd::prelude::*;
use query::QueryParams;
use crate::text::{split_on, split_spec, str_eq, trim, trim_spec};

verus! {

/// The comma-separated pieces of an `intent` parameter value, each without
/// surrounding whitespace, in order.
pub open spec fn intent_pieces(value: Seq<char>) -> Seq<Seq<char>> {
    split_spec(value, ',').map_values(|p: Seq<char>| trim_spec(p))
}

/// The categories that an `intent` parameter value names.
pub open spec fn intent_set(value: Seq<char>) -> Set<Seq<char>> {
    intent_pieces(value).to_set()
}

/// The distinct elements of `s`, each at the place of its first occurrence.
pub open spec fn first_mentions(s: Seq<Seq<char>>) -> Seq<Seq<char>>
    decreases s.len(),
{
    if s.len() == 0 {
        Seq::empty()
    } else {
        let d = first_mentions(s.drop_last());
        if d.contains(s.last()) {
            d
        } else {
            d.push(s.last())
        }
    }
}

/// The first mentions of `s` hold each element of `s`, and each once.
pub proof fn lemma_first_mentions(s: Seq<Seq<char>>)
    ensures
        first_mentions(s).no_duplicates(),
        first_mentions(s).to_set() == s.to_set(),
    decreases s.len(),
{
    if s.len() > 0 {
        let t = s.drop_last();
        let x = s.last();
        lemma_first_mentions(t);
        let d = first_mentions(t);
        assert(s =~= t.push(x));
        t.lemma_push_to_set_commute(x);
        if d.contains(x) {
            assert(d.to_set().contains(x));
            assert(d.to_set().insert(x) =~= d.to_set());
        } else {
            d.lemma_push_to_set_commute(x);
            let e = d.push(x);
            assert forall|i: int, j: int| 0 <= i < e.len() && 0 <= j < e.len() && i != j implies e[i]
                != e[j] by {
                if i < d.len() && j < d.len() {
                    assert(e[i] == d[i] && e[j] == d[j]);
                } else if i < d.len() {
                    assert(e[i] == d[i]);
                } else {
                    assert(e[j] == d[j]);
                }
            }
        }
    }
}

/// The views of a vector of strings.
pub open spec fn views(v: Seq<String>) -> Seq<Seq<char>> {
    v.map_values(|s: String| s@)
}

/// Whether `v` holds a string with the characters of `s`.
pub fn contains_str(v: &Vec<String>, s: &str) -> (r: bool)
    ensures
        r == views(v@).contains(s@),
{
    let mut i: usize = 0;
    while i < v.len()
        invariant
            i <= v@.len(),
            forall|j: int| 0 <= j < i ==> v@[j]@ != s@,
        decreases v@.len() - i,
    {
        if str_eq(v[i].as_str(), s) {
            assert(views(v@)[i as int] == s@);
            return true;
        }
        i = i + 1;
    }
    proof {
        if views(v@).contains(s@) {
            let j = choose|j: int| 0 <= j < views(v@).len() && views(v@)[j] == s@;
            assert(v@[j]@ == s@);
        }
    }
    false
}

/// Reads the `intent` query parameter. The flag says whether the client
/// gave one; the categories it names come once each, in the order of their
/// first mention. Without the parameter there are no categories.
pub fn parse_intents(params: &QueryParams) -> (r: (bool, Vec<String>))
    ensures
        r.0 == params@.contains_key("intent"@),
        r.0 ==> views(r.1@) == first_mentions(intent_pieces(params@["intent"@])),
        r.0 ==> views(r.1@).to_set() == intent_set(params@["intent"@]),
        !r.0 ==> r.1@.len() == 0,
        views(r.1@).no_duplicates(),
{
    let mut intents: Vec<String> = Vec::new();
    match params.get("intent") {
        None => {
            assert(views(intents@) =~= Seq::empty());
            (false, intents)
        },
        Some(value) => {
            let pieces = split_on(value.as_str(), ',');
            let ghost trimmed = split_spec(value@, ',').map_values(|p: Seq<char>| trim_spec(p));
            let mut i: usize = 0;
            while i < pieces.len()
                invariant
                    i <= pieces@.len(),
                    pieces@.map_values(|p: String| p@) == split_spec(value@, ','),
                    trimmed == split_spec(value@, ',').map_values(|p: Seq<char>| trim_spec(p)),
                    views(intents@) == first_mentions(trimmed.take(i as int)),
                decreases pieces@.len() - i,
            {
                let t = trim(pieces[i].as_str());
                proof {
                    assert(pieces@[i as int]@ == split_spec(value@, ',')[i as int]);
                    assert(t@ == trimmed[i as int]);
                    assert(trimmed.take(i + 1).drop_last() =~= trimmed.take(i as int));
                    assert(trimmed.take(i + 1).last() == t@);
                }
                if !contains_str(&intents, t.as_str()) {
                    let ghost before = views(intents@);
                    intents.push(t);
                    assert(views(intents@) =~= before.push(t@));
                }
                i = i + 1;
            }
            proof {
                assert(pieces@.len() == trimmed.len());
                assert(trimmed.take(pieces@.len() as int) =~= trimmed);
                lemma_first_mentions(trimmed);
            }
            (true, intents)
        },
    }
}

/// Whether a connection forwards a message of `category`: it drops it only
/// when the server does the filtering, the client asked for intents, and
/// `category` is not among them.
pub fn forwards(do_server_filter: bool, do_filter: bool, intents: &Vec<String>, category: &str) -> (r:
    bool)
    ensures
        r == !(do_server_filter && do_filter && !views(intents@).contains(category@)),
{
    if do_server_filter && do_filter {
        contains_str(intents, category)
    } else {
        true
    }
}

/// With server-side filtering and an `intent` parameter, a message is
/// forwarded exactly when its category is one of the categories the
/// parameter names.
pub proof fn law_forwarded_iff_intended(intents: Seq<String>, value: Seq<char>, category: Seq<char>)
    requires
        views(intents).to_set() == intent_set(value),
    ensures
        views(intents).contains(category) <==> intent_set(value).contains(category),
{
    assert(views(intents).contains(category) <==> views(intents).to_set().contains(category));
}

/// What one receive on a channel produced.
#[derive(Debug, Clone, Copy, PartialEq, Eq, Structural)]
pub enum RecvOutcome {
    /// A message arrived.
    Message,
    /// Every sender of the channel is gone.
    Closed,
    /// The receiver fell behind and this many messages were skipped.
    Lagged(u64),
}

/// What the transport loop does next.
#[derive(Debug, Clone, Copy, PartialEq, Eq, Structural)]
pub enum SelectStep {
    /// Hand the message to the connection.
    Deliver,
    /// End the connection's stream.
    Finish,
    /// Wait for the next message.
    Retry,
}

/// Which of a connection's channels a receive was made on.
#[derive(Debug, Clone, Copy, PartialEq, Eq, Structural)]
pub enum Source {
    /// The hub's global channel.
    Global,
    /// The connection's personal channel.
    Personal,
}

/// The channels a connection still reads: a closed channel is read no more,
/// and a connection without a personal channel never reads one.
#[derive(Debug, Clone, Copy, PartialEq, Eq, Structural)]
pub struct Listening {
    pub global: bool,
    pub personal: bool,
}

/// The decision that selecting the next message takes on one receive from
/// `source`, and the channels read afterwards: a message is delivered, a
/// lagging receiver goes on waiting, and a closed channel is read no more.
/// The stream ends exactly when a channel closes and no channel is left to
/// read, so a closed personal channel leaves the global one in use, and
/// the other way round.
pub fn select_step(listening: Listening, source: Source, outcome: RecvOutcome) -> (r: (
    SelectStep,
    Listening,
))
    ensures
        outcome == RecvOutcome::Message ==> r == (SelectStep::Deliver, listening),
        outcome is Lagged ==> r == (SelectStep::Retry, listening),
        outcome == RecvOutcome::Closed ==> {
            &&& r.1.global == (listening.global && source != Source::Global)
            &&& r.1.personal == (listening.personal && source != Source::Personal)
            &&& r.0 == if r.1.global || r.1.personal {
                SelectStep::Retry
            } else {
                SelectStep::Finish
            }
        },
        r.0 == SelectStep::Finish <==> (outcome == RecvOutcome::Closed && !r.1.global
            && !r.1.personal),
{
    match outcome {
        RecvOutcome::Message => (SelectStep::Deliver, listening),
        RecvOutcome::Lagged(_) => (SelectStep::Retry, listening),
        RecvOutcome::Closed => {
            let after = match source {
                Source::Global => Listening { global: false, personal: listening.personal },
                Source::Personal => Listening { global: listening.global, personal: false },
            };
            if after.global || after.personal {
                (SelectStep::Retry, after)
            } else {
                (SelectStep::Finish, after)
            }
        },
    }
}

/// Whether a transport connection is admitted: when authentication is
/// required, only with a user.
pub fn admits(transport_auth_required: bool, has_user: bool) -> (r: bool)
    ensures
        r == (!transport_auth_required || has_user),
{
    !transport_auth_required || has_user
}

/// The token a transport request carries in its query: `token`, else
/// `blenny_token`.
pub fn query_token(params: &QueryParams) -> (r: Option<String>)
    ensures
        params@.contains_key("token"@) ==> (r matches Some(t) && t@ == params@["token"@]),
        !params@.contains_key("token"@) && params@.contains_key("blenny_token"@) ==> (r matches Some(
            t,
        ) && t@ == params@["blenny_token"@]),
        !params@.contains_key("token"@) && !params@.contains_key("blenny_token"@) ==> r is None,
{
    match params.get("token") {
        Some(t) => Some(t),
        None => params.get("blenny_token"),
    }
}

} // verus!
