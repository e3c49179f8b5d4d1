//! What holds of the chat server's transition, whatever the events.

use crate::server::broadcast;
use crate::server::chat_line;
use crate::server::claimed;
use crate::server::distinct_addrs;
use crate::server::has_session;
use crate::server::held_by_other;
use crate::server::lemma_without_absent;
use crate::server::lemma_without_at;
use crate::server::lemma_without_sessions;
use crate::server::negotiate;
use crate::server::listed_names;
use crate::server::session_of;
use crate::server::step;
use crate::server::usernames_unique;
use crate::server::without;
use crate::server::ConnectionId;
use crate::server::Effect;
use crate::server::Event;
use crate::server::Session;
use crate::text::lemma_trimmed_plain;
use crate::text::trimmed;
use vstd::prelude::*;

verus! {

/// The registry after a run of events, each with its connection.
pub open spec fn run(sessions: Seq<Session>, events: Seq<(ConnectionId, Event)>) -> Seq<Session>
    decreases events.len(),
{
    if events.len() == 0 {
        sessions
    } else {
        step(run(sessions, events.drop_last()), events.last().0, events.last().1).0
    }
}

/// Among distinct connections, the session of a connection is the one
/// found at any place that holds its address.
pub proof fn lemma_session_at(sessions: Seq<Session>, addr: ConnectionId, at: int)
    requires
        distinct_addrs(sessions),
        0 <= at < sessions.len(),
        sessions[at].addr == addr,
    ensures
        has_session(sessions, addr),
        session_of(sessions, addr) == sessions[at],
{
    let chosen = choose|i: int| 0 <= i < sessions.len() && sessions[i].addr == addr;
    if chosen < at {
        assert(sessions[chosen].addr != sessions[at].addr);
    } else if at < chosen {
        assert(sessions[at].addr != sessions[chosen].addr);
    }
}

/// Taking one session out keeps the usernames of the others apart.
pub proof fn lemma_remove_keeps_unique(sessions: Seq<Session>, at: int)
    requires
        usernames_unique(sessions),
        0 <= at < sessions.len(),
    ensures
        usernames_unique(sessions.remove(at)),
{
    let left = sessions.remove(at);
    assert forall|i: int, j: int|
        0 <= i < j < left.len() && left[i].username is Some implies left[i].username
        != left[j].username by {
        let from_i = if i < at { i } else { i + 1 };
        let from_j = if j < at { j } else { j + 1 };
        assert(left[i] == sessions[from_i]);
        assert(left[j] == sessions[from_j]);
    }
}

/// Leaving a connection out keeps the usernames of the others apart.
pub proof fn lemma_without_keeps_unique(sessions: Seq<Session>, addr: ConnectionId)
    requires
        distinct_addrs(sessions),
        usernames_unique(sessions),
    ensures
        usernames_unique(without(sessions, addr)),
{
    if has_session(sessions, addr) {
        let at = choose|i: int| 0 <= i < sessions.len() && sessions[i].addr == addr;
        lemma_without_at(sessions, addr, at);
        lemma_remove_keeps_unique(sessions, at);
    } else {
        lemma_without_absent(sessions, addr);
    }
}

/// The names that a listing shows are those that some session holds.
pub proof fn lemma_listed_names(sessions: Seq<Session>, name: Seq<char>)
    ensures
        listed_names(sessions).contains(name) <==> exists|i: int|
            0 <= i < sessions.len() && sessions[i].username == Some(name),
    decreases sessions.len(),
{
    if sessions.len() > 0 {
        let front = sessions.drop_last();
        let last = sessions.last();
        let names = listed_names(sessions);
        lemma_listed_names(front, name);
        if names.contains(name) {
            let k = choose|k: int| 0 <= k < names.len() && names[k] == name;
            if k < listed_names(front).len() {
                assert(listed_names(front)[k] == name);
                assert(listed_names(front).contains(name));
                let i = choose|i: int| 0 <= i < front.len() && front[i].username == Some(name);
                assert(sessions[i].username == Some(name));
            } else {
                assert(sessions[sessions.len() - 1].username == Some(name));
            }
        }
        if exists|i: int| 0 <= i < sessions.len() && sessions[i].username == Some(name) {
            let i = choose|i: int| 0 <= i < sessions.len() && sessions[i].username == Some(name);
            if i < front.len() {
                assert(front[i].username == Some(name));
                let k = choose|k: int|
                    0 <= k < listed_names(front).len() && listed_names(front)[k] == name;
                assert(names[k] == name);
            } else {
                assert(names[names.len() - 1] == name);
            }
        }
    }
}

/// A session without a username, added for a connection that has none,
/// leaves connections distinct and usernames unique.
pub proof fn lemma_joined_keeps_invariants(sessions: Seq<Session>, addr: ConnectionId)
    requires
        distinct_addrs(sessions),
        usernames_unique(sessions),
        !has_session(sessions, addr),
    ensures
        distinct_addrs(sessions.push(Session { addr, username: None })),
        usernames_unique(sessions.push(Session { addr, username: None })),
{
    let joined = sessions.push(Session { addr, username: None });
    assert forall|i: int, j: int| 0 <= i < j < joined.len() implies joined[i].addr
        != joined[j].addr by {
        if j == sessions.len() {
            assert(sessions[i].addr != addr);
        } else {
            assert(sessions[i].addr != sessions[j].addr);
        }
    }
    assert forall|i: int, j: int|
        0 <= i < j < joined.len() && joined[i].username is Some implies joined[i].username
        != joined[j].username by {
        if j < sessions.len() {
            assert(sessions[i].username != sessions[j].username);
        }
    }
}

/// A username that no session of another connection holds, claimed for a
/// connection, leaves connections distinct and usernames unique.
pub proof fn lemma_claimed_keeps_invariants(
    sessions: Seq<Session>,
    addr: ConnectionId,
    name: Seq<char>,
)
    requires
        distinct_addrs(sessions),
        usernames_unique(sessions),
        !held_by_other(sessions, addr, name),
    ensures
        distinct_addrs(claimed(sessions, addr, name)),
        usernames_unique(claimed(sessions, addr, name)),
{
    let after = claimed(sessions, addr, name);
    assert forall|i: int, j: int| 0 <= i < j < after.len() implies after[i].addr
        != after[j].addr by {
        assert(sessions[i].addr != sessions[j].addr);
    }
    assert forall|i: int, j: int|
        0 <= i < j < after.len() && after[i].username is Some implies after[i].username
        != after[j].username by {
        assert(sessions[i].addr != sessions[j].addr);
        if sessions[i].addr == addr {
            assert(sessions[j].username != Some(name));
        } else if sessions[j].addr == addr {
            assert(sessions[i].username != Some(name));
        } else {
            assert(sessions[i].username != sessions[j].username);
        }
    }
}

/// A try at a username leaves connections distinct and usernames unique:
/// the name that is claimed is one that no other session holds.
pub proof fn lemma_negotiate_keeps_invariants(
    sessions: Seq<Session>,
    addr: ConnectionId,
    text: Seq<char>,
)
    requires
        distinct_addrs(sessions),
        usernames_unique(sessions),
    ensures
        distinct_addrs(negotiate(sessions, addr, text).0),
        usernames_unique(negotiate(sessions, addr, text).0),
{
    let name = trimmed(text);
    if name.len() != 0 && !held_by_other(sessions, addr, name) {
        lemma_claimed_keeps_invariants(sessions, addr, name);
    }
}

/// The username that a try gives is the text without the white space
/// around it: it is not empty, has no white space around it, and was held
/// by no session of another connection. Where the try gives none, the
/// registry stays as it is.
pub proof fn lemma_negotiated_name(sessions: Seq<Session>, addr: ConnectionId, text: Seq<char>)
    requires
        distinct_addrs(sessions),
        has_session(sessions, addr),
    ensures
        ({
            let after = negotiate(sessions, addr, text).0;
            let name = trimmed(text);
            if name.len() > 0 && !held_by_other(sessions, addr, name) {
                &&& has_session(after, addr)
                &&& session_of(after, addr).username == Some(name)
                &&& trimmed(name) == name
                &&& forall|i: int|
                    0 <= i < sessions.len() && sessions[i].addr != addr ==> #[trigger] after[i]
                        == sessions[i]
            } else {
                after == sessions
            }
        }),
{
    let after = negotiate(sessions, addr, text).0;
    let name = trimmed(text);
    lemma_trimmed_plain(text);
    if name.len() > 0 && !held_by_other(sessions, addr, name) {
        let at = choose|i: int| 0 <= i < sessions.len() && sessions[i].addr == addr;
        assert(after[at].addr == addr);
        assert forall|i: int, j: int| 0 <= i < j < after.len() implies after[i].addr
            != after[j].addr by {
            assert(sessions[i].addr != sessions[j].addr);
        }
        lemma_session_at(after, addr, at);
    }
}

/// A transition never gives one connection two sessions, and never gives
/// two sessions the same username.
pub proof fn lemma_step_usernames_unique(sessions: Seq<Session>, addr: ConnectionId, event: Event)
    requires
        distinct_addrs(sessions),
        usernames_unique(sessions),
    ensures
        distinct_addrs(step(sessions, addr, event).0),
        usernames_unique(step(sessions, addr, event).0),
{
    lemma_without_sessions(sessions, addr);
    lemma_without_keeps_unique(sessions, addr);
    match event {
        Event::Connected => {
            lemma_joined_keeps_invariants(without(sessions, addr), addr);
        },
        Event::Disconnected => {},
        Event::Text(text) => {
            lemma_negotiate_keeps_invariants(sessions, addr, text);
        },
    }
}

/// From a registry in which connections are distinct and usernames are
/// unique, they are so after every run of events.
pub proof fn lemma_run_usernames_unique(
    sessions: Seq<Session>,
    events: Seq<(ConnectionId, Event)>,
)
    requires
        distinct_addrs(sessions),
        usernames_unique(sessions),
    ensures
        distinct_addrs(run(sessions, events)),
        usernames_unique(run(sessions, events)),
    decreases events.len(),
{
    if events.len() > 0 {
        let front = events.drop_last();
        lemma_run_usernames_unique(sessions, front);
        lemma_step_usernames_unique(run(sessions, front), events.last().0, events.last().1);
    }
}

/// A broadcast holds one `Send` of the text for each session of another
/// connection, and nothing else.
pub proof fn lemma_broadcast(sessions: Seq<Session>, from: ConnectionId, text: Seq<char>)
    requires
        distinct_addrs(sessions),
    ensures
        forall|k: int|
            0 <= k < broadcast(sessions, from, text).len() ==> (#[trigger] broadcast(
                sessions,
                from,
                text,
            )[k] matches Effect::Send { to, text: sent } && to != from && sent == text
                && has_session(sessions, to)),
        forall|to: ConnectionId|
            to != from && #[trigger] has_session(sessions, to) ==> broadcast(
                sessions,
                from,
                text,
            ).contains(Effect::Send { to, text }),
        broadcast(sessions, from, text).len() == if has_session(sessions, from) {
            sessions.len() - 1
        } else {
            sessions.len() as int
        },
    decreases sessions.len(),
{
    if sessions.len() > 0 {
        let front = sessions.drop_last();
        let last = sessions.last();
        let sends = broadcast(sessions, from, text);
        let earlier = broadcast(front, from, text);
        assert(distinct_addrs(front)) by {
            assert forall|i: int, j: int| 0 <= i < j < front.len() implies front[i].addr
                != front[j].addr by {
                assert(sessions[i].addr != sessions[j].addr);
            }
        }
        lemma_broadcast(front, from, text);
        assert forall|to: ConnectionId| #[trigger] has_session(front, to) implies has_session(
            sessions,
            to,
        ) by {
            let i = choose|i: int| 0 <= i < front.len() && front[i].addr == to;
            assert(sessions[i].addr == to);
        }
        assert(has_session(sessions, last.addr)) by {
            assert(sessions[sessions.len() - 1].addr == last.addr);
        }
        assert forall|k: int| 0 <= k < sends.len() implies (#[trigger] sends[k] matches Effect::Send {
            to,
            text: sent,
        } && to != from && sent == text && has_session(sessions, to)) by {
            if k < earlier.len() {
                assert(sends[k] == earlier[k]);
            }
        }
        assert forall|to: ConnectionId|
            to != from && #[trigger] has_session(sessions, to) implies sends.contains(
            Effect::Send { to, text },
        ) by {
            let i = choose|i: int| 0 <= i < sessions.len() && sessions[i].addr == to;
            if i < front.len() {
                assert(front[i].addr == to);
                assert(has_session(front, to));
                let k = choose|k: int|
                    0 <= k < earlier.len() && earlier[k] == (Effect::Send { to, text });
                assert(sends[k] == earlier[k]);
            } else {
                assert(sends[sends.len() - 1] == (Effect::Send { to, text }));
            }
        }
        if has_session(front, from) {
            let i = choose|i: int| 0 <= i < front.len() && front[i].addr == from;
            assert(sessions[i].addr != sessions[sessions.len() - 1].addr);
        } else if has_session(sessions, from) {
            let i = choose|i: int| 0 <= i < sessions.len() && sessions[i].addr == from;
            if i < front.len() {
                assert(front[i].addr == from);
            }
        }
    }
}

/// When a session with a username sends a chat line, every session of
/// another connection is sent the line behind the sender's username, once,
/// and the sender is sent nothing. The registry stays as it is.
pub proof fn lemma_chat_line_reaches_others(
    sessions: Seq<Session>,
    addr: ConnectionId,
    text: Seq<char>,
)
    requires
        distinct_addrs(sessions),
        has_session(sessions, addr),
        session_of(sessions, addr).username is Some,
        text.len() > 0,
        text[0] != '/',
    ensures
        ({
            let (after, effects) = step(sessions, addr, Event::Text(text));
            let line = chat_line(session_of(sessions, addr).username->0, text);
            &&& after == sessions
            &&& effects.len() == sessions.len() - 1
            &&& forall|to: ConnectionId|
                to != addr && #[trigger] has_session(sessions, to) ==> effects.contains(
                    Effect::Send { to, text: line },
                )
            &&& forall|k: int|
                0 <= k < effects.len() ==> (#[trigger] effects[k] matches Effect::Send {
                    to,
                    text: sent,
                } && to != addr && sent == line && has_session(sessions, to))
        }),
{
    let line = chat_line(session_of(sessions, addr).username->0, text);
    lemma_broadcast(sessions, addr, line);
}

/// After a connection has disconnected it has no session, and the
/// username it held is in no listing of the registry that is left.
pub proof fn lemma_disconnect_cleanup(sessions: Seq<Session>, addr: ConnectionId)
    requires
        distinct_addrs(sessions),
        usernames_unique(sessions),
    ensures
        ({
            let (after, effects) = step(sessions, addr, Event::Disconnected);
            &&& !has_session(after, addr)
            &&& effects.len() == 0
            &&& forall|name: Seq<char>|
                has_session(sessions, addr) && session_of(sessions, addr).username == Some(
                    name,
                ) ==> !(#[trigger] listed_names(after).contains(name))
        }),
{
    let after = without(sessions, addr);
    lemma_without_sessions(sessions, addr);
    assert forall|name: Seq<char>|
        has_session(sessions, addr) && session_of(sessions, addr).username == Some(
            name,
        ) implies !(#[trigger] listed_names(after).contains(name)) by {
        let at = choose|i: int| 0 <= i < sessions.len() && sessions[i].addr == addr;
        lemma_session_at(sessions, addr, at);
        lemma_without_at(sessions, addr, at);
        lemma_listed_names(after, name);
        if listed_names(after).contains(name) {
            let i = choose|i: int| 0 <= i < after.len() && after[i].username == Some(name);
            let from = if i < at { i } else { i + 1 };
            assert(after[i] == sessions[from]);
            if from < at {
                assert(sessions[from].username != sessions[at].username);
            } else {
                assert(sessions[at].username != sessions[from].username);
            }
        }
    }
}

} // verus!
