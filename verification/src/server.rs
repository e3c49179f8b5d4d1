//! The chat server's state machine.
//!
//! One task owns the registry of sessions and takes the events of all
//! connections one at a time. For each event it changes the registry and
//! says what is to be sent to whom; sending is left to the caller, who owns
//! the connections. Sessions are kept in the order in which they connected,
//! and that is the order of a listing and of a broadcast.

use crate::server_laws::lemma_claimed_keeps_invariants;
use crate::server_laws::lemma_joined_keeps_invariants;
use crate::server_laws::lemma_without_keeps_unique;
use crate::text::debug_list;
use crate::text::format_names;
use crate::text::trim;
use crate::text::trimmed;
use vstd::prelude::*;
use vstd::string::StrSliceExecFns;
use vstd::string::StringExecFns;

verus! {

/// Names a connection for as long as it lasts.
pub type ConnectionId = u64;

/// Sent to a connection that has no username yet.
pub const ENTER_USERNAME: &'static str = "Enter username: ";

/// Sent when another session holds the username that was asked for.
pub const USERNAME_TAKEN: &'static str = "Username taken!\nEnter username: ";

/// Sent when a username was claimed.
pub const USERNAME_GRANTED: &'static str = "Username granted!";

/// Sent for a command that the server does not know.
pub const INVALID_COMMAND: &'static str = "Invalid command! Type /help for help.\n";

/// Sent for `/help`.
pub const HELP: &'static str =
    "\n                    /quit - quit the chat\n                    /list - list usernames\n                    /help - show this help message";

/// What a listing starts with.
pub const USERS: &'static str = "Users: ";

/// What stands between a username and the text of a chat line.
pub const SAYS: &'static str = ": ";

/// A session as the contracts see it.
pub struct Session {
    pub addr: ConnectionId,
    pub username: Option<Seq<char>>,
}

/// An event as the contracts see it.
pub enum Event {
    Connected,
    Disconnected,
    Text(Seq<char>),
}

/// An action as the contracts see it.
pub enum Effect {
    Send { to: ConnectionId, text: Seq<char> },
    Close { addr: ConnectionId },
}

/// What a connection's worker reports to the server.
#[derive(Debug, PartialEq, Eq)]
pub enum Message {
    /// The handshake is done and the connection can be written to.
    Connected,
    /// The connection has ended.
    Disconnected,
    /// A message arrived.
    Text(String),
}

/// What the server asks its caller to do.
#[derive(Debug, PartialEq, Eq)]
pub enum Action {
    /// Send `text` to the connection `to`. A failure to send is not
    /// reported back: it shows as that connection's `Disconnected` later.
    Send { to: ConnectionId, text: String },
    /// Close the connection `addr`.
    Close { addr: ConnectionId },
}

/// One connected client: its connection and, once negotiated, its name.
struct ClientConnection {
    addr: ConnectionId,
    username: Option<String>,
}

impl DeepView for Message {
    type V = Event;

    open spec fn deep_view(&self) -> Event {
        match self {
            Message::Connected => Event::Connected,
            Message::Disconnected => Event::Disconnected,
            Message::Text(text) => Event::Text(text@),
        }
    }
}

impl DeepView for Action {
    type V = Effect;

    open spec fn deep_view(&self) -> Effect {
        match self {
            Action::Send { to, text } => Effect::Send { to: *to, text: text@ },
            Action::Close { addr } => Effect::Close { addr: *addr },
        }
    }
}

impl DeepView for ClientConnection {
    type V = Session;

    closed spec fn deep_view(&self) -> Session {
        Session {
            addr: self.addr,
            username: match self.username {
                Some(name) => Some(name@),
                None => None,
            },
        }
    }
}

/// No two sessions belong to one connection.
pub open spec fn distinct_addrs(sessions: Seq<Session>) -> bool {
    forall|i: int, j: int|
        0 <= i < j < sessions.len() ==> sessions[i].addr != sessions[j].addr
}

/// No two sessions hold the same username.
pub open spec fn usernames_unique(sessions: Seq<Session>) -> bool {
    forall|i: int, j: int|
        0 <= i < j < sessions.len() && sessions[i].username is Some
            ==> sessions[i].username != sessions[j].username
}

/// Whether the connection has a session.
pub open spec fn has_session(sessions: Seq<Session>, addr: ConnectionId) -> bool {
    exists|i: int| 0 <= i < sessions.len() && sessions[i].addr == addr
}

/// The session of a connection that has one.
pub open spec fn session_of(sessions: Seq<Session>, addr: ConnectionId) -> Session {
    sessions[choose|i: int| 0 <= i < sessions.len() && sessions[i].addr == addr]
}

/// Whether a session of another connection holds the username.
pub open spec fn held_by_other(
    sessions: Seq<Session>,
    addr: ConnectionId,
    name: Seq<char>,
) -> bool {
    exists|i: int|
        0 <= i < sessions.len() && sessions[i].addr != addr && sessions[i].username == Some(
            name,
        )
}

/// The registry without the session of a connection.
pub open spec fn without(sessions: Seq<Session>, addr: ConnectionId) -> Seq<Session>
    decreases sessions.len(),
{
    if sessions.len() == 0 {
        sessions
    } else if sessions.last().addr == addr {
        without(sessions.drop_last(), addr)
    } else {
        without(sessions.drop_last(), addr).push(sessions.last())
    }
}

/// The registry after a connection has claimed a username.
pub open spec fn claimed(
    sessions: Seq<Session>,
    addr: ConnectionId,
    name: Seq<char>,
) -> Seq<Session> {
    Seq::new(
        sessions.len(),
        |i: int|
            if sessions[i].addr == addr {
                Session { addr, username: Some(name) }
            } else {
                sessions[i]
            },
    )
}

/// The usernames that are set, in the order of the registry.
pub open spec fn listed_names(sessions: Seq<Session>) -> Seq<Seq<char>>
    decreases sessions.len(),
{
    if sessions.len() == 0 {
        Seq::empty()
    } else {
        match sessions.last().username {
            Some(name) => listed_names(sessions.drop_last()).push(name),
            None => listed_names(sessions.drop_last()),
        }
    }
}

/// One `Send` of `text` to every session but that of `from`, in the order
/// of the registry.
pub open spec fn broadcast(sessions: Seq<Session>, from: ConnectionId, text: Seq<char>) -> Seq<
    Effect,
>
    decreases sessions.len(),
{
    if sessions.len() == 0 {
        Seq::empty()
    } else if sessions.last().addr == from {
        broadcast(sessions.drop_last(), from, text)
    } else {
        broadcast(sessions.drop_last(), from, text).push(
            Effect::Send { to: sessions.last().addr, text },
        )
    }
}

/// A single `Send`.
pub open spec fn reply(to: ConnectionId, text: Seq<char>) -> Seq<Effect> {
    seq![Effect::Send { to, text }]
}

/// A chat line as the other clients see it.
pub open spec fn chat_line(username: Seq<char>, text: Seq<char>) -> Seq<char> {
    username + SAYS@ + text
}

/// The answer to `/list`.
pub open spec fn listing(sessions: Seq<Session>) -> Seq<char> {
    USERS@ + debug_list(listed_names(sessions))
}

/// What a text does as a try at a username. The name is the text without
/// the white space around it. An empty name is never given: the connection
/// is asked again. A name that a session of another connection holds is
/// refused. Any other name is claimed.
pub open spec fn negotiate(sessions: Seq<Session>, addr: ConnectionId, text: Seq<char>) -> (
    Seq<Session>,
    Seq<Effect>,
) {
    let name = trimmed(text);
    if name.len() == 0 {
        (sessions, reply(addr, ENTER_USERNAME@))
    } else if held_by_other(sessions, addr, name) {
        (sessions, reply(addr, USERNAME_TAKEN@))
    } else {
        (claimed(sessions, addr, name), reply(addr, USERNAME_GRANTED@))
    }
}

/// What a text does that comes from a session with a username: a command
/// where it starts with a slash, a line for all others where it does not.
/// From a connection without a session, or without a username, it does
/// nothing.
pub open spec fn chat(sessions: Seq<Session>, addr: ConnectionId, text: Seq<char>) -> (
    Seq<Session>,
    Seq<Effect>,
) {
    if !has_session(sessions, addr) || session_of(sessions, addr).username is None
        || text.len() == 0 {
        (sessions, Seq::empty())
    } else if text[0] != '/' {
        (
            sessions,
            broadcast(sessions, addr, chat_line(session_of(sessions, addr).username->0, text)),
        )
    } else if text == "/quit"@ {
        (without(sessions, addr), seq![Effect::Close { addr }])
    } else if text == "/list"@ {
        (sessions, reply(addr, listing(sessions)))
    } else if text == "/help"@ {
        (sessions, reply(addr, HELP@))
    } else {
        (sessions, reply(addr, INVALID_COMMAND@))
    }
}

/// The server's transition: the registry and the actions that follow from
/// one event of one connection.
pub open spec fn step(sessions: Seq<Session>, addr: ConnectionId, event: Event) -> (
    Seq<Session>,
    Seq<Effect>,
) {
    match event {
        Event::Connected => (
            without(sessions, addr).push(Session { addr, username: None }),
            reply(addr, ENTER_USERNAME@),
        ),
        Event::Disconnected => (without(sessions, addr), Seq::empty()),
        Event::Text(text) => if !has_session(sessions, addr) {
            (sessions, Seq::empty())
        } else if session_of(sessions, addr).username is None {
            negotiate(sessions, addr, text)
        } else {
            chat(sessions, addr, text)
        },
    }
}

/// A connection without a session is not in the registry that is left.
pub proof fn lemma_without_absent(sessions: Seq<Session>, addr: ConnectionId)
    requires
        !has_session(sessions, addr),
    ensures
        without(sessions, addr) == sessions,
    decreases sessions.len(),
{
    if sessions.len() > 0 {
        let front = sessions.drop_last();
        assert(sessions[sessions.len() - 1].addr != addr);
        assert forall|i: int| 0 <= i < front.len() implies front[i].addr != addr by {
            assert(sessions[i].addr != addr);
        }
        lemma_without_absent(front, addr);
        assert(front.push(sessions.last()) =~= sessions);
    }
}

/// Where connections are distinct, leaving one out removes one session.
pub proof fn lemma_without_at(sessions: Seq<Session>, addr: ConnectionId, at: int)
    requires
        distinct_addrs(sessions),
        0 <= at < sessions.len(),
        sessions[at].addr == addr,
    ensures
        without(sessions, addr) == sessions.remove(at),
    decreases sessions.len(),
{
    let front = sessions.drop_last();
    if at == sessions.len() - 1 {
        assert forall|i: int| 0 <= i < front.len() implies front[i].addr != addr by {
            assert(sessions[i].addr != sessions[at].addr);
        }
        lemma_without_absent(front, addr);
        assert(sessions.remove(at) =~= front);
    } else {
        assert(sessions[at].addr != sessions[sessions.len() - 1].addr);
        assert(distinct_addrs(front)) by {
            assert forall|i: int, j: int| 0 <= i < j < front.len() implies front[i].addr
                != front[j].addr by {
                assert(sessions[i].addr != sessions[j].addr);
            }
        }
        lemma_without_at(front, addr, at);
        assert(sessions.remove(at) =~= front.remove(at).push(sessions.last()));
    }
}

/// Leaving a connection out leaves no session of it, keeps a session for
/// every other connection that had one, and adds none.
pub proof fn lemma_without_sessions(sessions: Seq<Session>, addr: ConnectionId)
    ensures
        !has_session(without(sessions, addr), addr),
        forall|other: ConnectionId|
            other != addr ==> (#[trigger] has_session(without(sessions, addr), other)
                <==> has_session(sessions, other)),
        distinct_addrs(sessions) ==> distinct_addrs(without(sessions, addr)),
        forall|i: int|
            0 <= i < without(sessions, addr).len() ==> sessions.contains(
                #[trigger] without(sessions, addr)[i],
            ),
    decreases sessions.len(),
{
    if sessions.len() > 0 {
        let front = sessions.drop_last();
        let last = sessions.last();
        let rest = without(front, addr);
        let left = without(sessions, addr);
        lemma_without_sessions(front, addr);
        assert forall|i: int| 0 <= i < left.len() implies sessions.contains(
            #[trigger] left[i],
        ) by {
            if i < rest.len() {
                assert(front.contains(rest[i]));
                let k = choose|k: int| 0 <= k < front.len() && front[k] == rest[i];
                assert(sessions[k] == rest[i]);
            } else {
                assert(sessions[sessions.len() - 1] == left[i]);
            }
        }
        assert forall|other: ConnectionId| other != addr implies (#[trigger] has_session(
            left,
            other,
        ) <==> has_session(sessions, other)) by {
            if has_session(left, other) {
                let k = choose|k: int| 0 <= k < left.len() && left[k].addr == other;
                assert(sessions.contains(left[k]));
                let m = choose|m: int| 0 <= m < sessions.len() && sessions[m] == left[k];
                assert(sessions[m].addr == other);
            }
            if has_session(sessions, other) {
                let k = choose|k: int| 0 <= k < sessions.len() && sessions[k].addr == other;
                if k < front.len() {
                    assert(front[k].addr == other);
                    assert(has_session(rest, other));
                    let m = choose|m: int| 0 <= m < rest.len() && rest[m].addr == other;
                    assert(left[m].addr == other);
                } else {
                    assert(last.addr == other);
                    assert(left[left.len() - 1].addr == other);
                }
            }
        }
        if has_session(left, addr) {
            let k = choose|k: int| 0 <= k < left.len() && left[k].addr == addr;
            if k < rest.len() {
                assert(rest[k].addr == addr);
            }
        }
        if distinct_addrs(sessions) {
            assert(distinct_addrs(front)) by {
                assert forall|i: int, j: int| 0 <= i < j < front.len() implies front[i].addr
                    != front[j].addr by {
                    assert(sessions[i].addr != sessions[j].addr);
                }
            }
            if last.addr != addr {
                assert forall|i: int, j: int| 0 <= i < j < left.len() implies left[i].addr
                    != left[j].addr by {
                    if j < rest.len() {
                        assert(rest[i].addr != rest[j].addr);
                    } else {
                        assert(front.contains(rest[i]));
                        let k = choose|k: int| 0 <= k < front.len() && front[k] == rest[i];
                        assert(sessions[k].addr != sessions[sessions.len() - 1].addr);
                    }
                }
            }
        }
    }
}

/// The place of a connection's session among `clients`.
fn find(clients: &Vec<ClientConnection>, addr: ConnectionId) -> (place: Option<usize>)
    requires
        distinct_addrs(clients.deep_view()),
    ensures
        place is Some <==> has_session(clients.deep_view(), addr),
        place matches Some(at) ==> at < clients.len() && clients.deep_view()[at as int].addr
            == addr && session_of(clients.deep_view(), addr) == clients.deep_view()[at as int],
{
    let mut at: usize = 0;
    while at < clients.len()
        invariant
            at <= clients.len(),
            forall|i: int| 0 <= i < at ==> clients.deep_view()[i].addr != addr,
            distinct_addrs(clients.deep_view()),
        decreases clients.len() - at,
    {
        if clients[at].addr == addr {
            return Some(at);
        }
        at = at + 1;
    }
    None
}

/// Takes the session of a connection out of `clients`.
fn remove_session(clients: &mut Vec<ClientConnection>, addr: ConnectionId)
    requires
        distinct_addrs(old(clients).deep_view()),
    ensures
        final(clients).deep_view() == without(old(clients).deep_view(), addr),
        distinct_addrs(final(clients).deep_view()),
        usernames_unique(old(clients).deep_view()) ==> usernames_unique(
            final(clients).deep_view(),
        ),
{
    proof {
        lemma_without_sessions(clients.deep_view(), addr);
        if usernames_unique(clients.deep_view()) {
            lemma_without_keeps_unique(clients.deep_view(), addr);
        }
    }
    match find(clients, addr) {
        Some(at) => {
            proof {
                lemma_without_at(clients.deep_view(), addr, at as int);
            }
            clients.remove(at);
            assert(clients.deep_view() =~= old(clients).deep_view().remove(at as int));
        },
        None => {
            proof {
                lemma_without_absent(clients.deep_view(), addr);
            }
        },
    }
}

/// The action that sends `text` to `to`.
fn send_to(to: ConnectionId, text: &str) -> (action: Action)
    ensures
        action.deep_view() == (Effect::Send { to, text: text@ }),
{
    Action::Send { to, text: String::from_str(text) }
}

/// A list of one action.
fn only(action: Action) -> (actions: Vec<Action>)
    ensures
        actions.deep_view() == seq![action.deep_view()],
{
    let mut actions: Vec<Action> = Vec::new();
    actions.push(action);
    assert(actions.deep_view() =~= seq![action.deep_view()]);
    actions
}

/// No action.
fn nothing() -> (actions: Vec<Action>)
    ensures
        actions.deep_view() == Seq::<Effect>::empty(),
{
    let actions: Vec<Action> = Vec::new();
    assert(actions.deep_view() =~= Seq::<Effect>::empty());
    actions
}

/// Whether two texts are the same.
fn same_text(left: &str, right: &str) -> (same: bool)
    ensures
        same == (left@ == right@),
{
    let left_owned = String::from_str(left);
    let right_owned = String::from_str(right);
    left_owned == right_owned
}

/// The answer to `/list`, from the names as they were formatted.
pub fn list_reply(to: ConnectionId, names: &str) -> (action: Action)
    ensures
        action.deep_view() == (Effect::Send { to, text: USERS@ + names@ }),
{
    let mut text = String::from_str(USERS);
    text.append(names);
    Action::Send { to, text }
}

/// Whether a session of another connection holds the username.
fn is_held_by_other(clients: &Vec<ClientConnection>, addr: ConnectionId, name: &str) -> (held:
    bool)
    ensures
        held == held_by_other(clients.deep_view(), addr, name@),
{
    let mut at: usize = 0;
    while at < clients.len()
        invariant
            at <= clients.len(),
            forall|i: int|
                0 <= i < at ==> !(clients.deep_view()[i].addr != addr
                    && clients.deep_view()[i].username == Some(name@)),
        decreases clients.len() - at,
    {
        if clients[at].addr != addr {
            let held = match &clients[at].username {
                Some(username) => same_text(username.as_str(), name),
                None => false,
            };
            if held {
                assert(clients.deep_view()[at as int].username == Some(name@));
                return true;
            }
        }
        at = at + 1;
    }
    false
}

/// The usernames that are set, in the order of the registry.
fn usernames(clients: &Vec<ClientConnection>) -> (names: Vec<String>)
    ensures
        names.deep_view() == listed_names(clients.deep_view()),
{
    let mut names: Vec<String> = Vec::new();
    let mut at: usize = 0;
    assert(clients.deep_view().take(0) =~= Seq::<Session>::empty());
    assert(names.deep_view() =~= Seq::<Seq<char>>::empty());
    while at < clients.len()
        invariant
            at <= clients.len(),
            names.deep_view() == listed_names(clients.deep_view().take(at as int)),
        decreases clients.len() - at,
    {
        let ghost before = names.deep_view();
        let ghost seen = clients.deep_view().take(at as int + 1);
        assert(seen.drop_last() =~= clients.deep_view().take(at as int));
        assert(seen.last() == clients.deep_view()[at as int]);
        match &clients[at].username {
            Some(username) => {
                names.push(username.clone());
                assert(names.deep_view() =~= before.push(username@));
            },
            None => {},
        }
        at = at + 1;
    }
    assert(clients.deep_view().take(at as int) =~= clients.deep_view());
    names
}

/// One `Send` of `text` to every session but that of `from`.
fn send_to_others(clients: &Vec<ClientConnection>, from: ConnectionId, text: &str) -> (actions:
    Vec<Action>)
    ensures
        actions.deep_view() == broadcast(clients.deep_view(), from, text@),
{
    let mut actions: Vec<Action> = Vec::new();
    let mut at: usize = 0;
    assert(clients.deep_view().take(0) =~= Seq::<Session>::empty());
    assert(actions.deep_view() =~= Seq::<Effect>::empty());
    while at < clients.len()
        invariant
            at <= clients.len(),
            actions.deep_view() == broadcast(clients.deep_view().take(at as int), from, text@),
        decreases clients.len() - at,
    {
        let ghost before = actions.deep_view();
        let ghost seen = clients.deep_view().take(at as int + 1);
        assert(seen.drop_last() =~= clients.deep_view().take(at as int));
        assert(seen.last() == clients.deep_view()[at as int]);
        if clients[at].addr != from {
            let action = send_to(clients[at].addr, text);
            actions.push(action);
            assert(actions.deep_view() =~= before.push(action.deep_view()));
        }
        at = at + 1;
    }
    assert(clients.deep_view().take(at as int) =~= clients.deep_view());
    actions
}

/// The registry of sessions, owned by the one task that takes the events.
pub struct ChatServer {
    clients: Vec<ClientConnection>,
}

impl Default for ChatServer {
    fn default() -> (server: Self)
        ensures
            server.sessions() == Seq::<Session>::empty(),
            distinct_addrs(server.sessions()),
            usernames_unique(server.sessions()),
    {
        Self::new()
    }
}

impl ChatServer {
    /// A connection has at most one session, and no two sessions hold the
    /// same username.
    #[verifier::type_invariant]
    spec fn well_formed(self) -> bool {
        distinct_addrs(self.clients.deep_view()) && usernames_unique(self.clients.deep_view())
    }

    /// The sessions, in the order in which they connected.
    pub closed spec fn sessions(&self) -> Seq<Session> {
        self.clients.deep_view()
    }

    /// A server without sessions.
    pub fn new() -> (server: ChatServer)
        ensures
            server.sessions() == Seq::<Session>::empty(),
            distinct_addrs(server.sessions()),
            usernames_unique(server.sessions()),
    {
        let server = ChatServer { clients: Vec::new() };
        assert(server.clients.deep_view() =~= Seq::<Session>::empty());
        server
    }

    /// The number of sessions.
    pub fn len(&self) -> (count: usize)
        ensures
            count == self.sessions().len(),
    {
        self.clients.len()
    }

    /// Whether the connection has a session.
    pub fn is_registered(&self, addr: ConnectionId) -> (registered: bool)
        ensures
            registered == has_session(self.sessions(), addr),
    {
        proof {
            use_type_invariant(self);
        }
        find(&self.clients, addr).is_some()
    }

    /// The username of the connection's session, if it has a session and
    /// the session has a username.
    pub fn username(&self, addr: ConnectionId) -> (name: Option<String>)
        ensures
            match name {
                Some(held) => has_session(self.sessions(), addr) && session_of(
                    self.sessions(),
                    addr,
                ).username == Some(held@),
                None => !has_session(self.sessions(), addr) || session_of(
                    self.sessions(),
                    addr,
                ).username is None,
            },
    {
        proof {
            use_type_invariant(self);
        }
        match find(&self.clients, addr) {
            Some(at) => match &self.clients[at].username {
                Some(held) => Some(held.clone()),
                None => None,
            },
            None => None,
        }
    }

    /// Hands the sessions out and leaves the registry empty.
    fn take_clients(&mut self) -> (clients: Vec<ClientConnection>)
        ensures
            clients.deep_view() == old(self).sessions(),
            distinct_addrs(clients.deep_view()),
            usernames_unique(clients.deep_view()),
            final(self).sessions() == Seq::<Session>::empty(),
    {
        proof {
            use_type_invariant(&*self);
        }
        let mut clients: Vec<ClientConnection> = Vec::new();
        assert(clients.deep_view() =~= Seq::<Session>::empty());
        core::mem::swap(&mut self.clients, &mut clients);
        clients
    }

    /// Puts sessions into the empty registry.
    fn put_clients(&mut self, clients: Vec<ClientConnection>)
        requires
            distinct_addrs(clients.deep_view()),
            usernames_unique(clients.deep_view()),
        ensures
            final(self).sessions() == clients.deep_view(),
    {
        let mut clients = clients;
        core::mem::swap(&mut self.clients, &mut clients);
    }

    /// Takes one event of the connection `addr`, changes the registry and
    /// returns what is to be done, in order.
    ///
    /// `Connected` registers a session without a username, in place of any
    /// that the connection had, and asks for a username. `Disconnected`
    /// removes the session, if there is one. A text from a
    /// session without a username is its try at a username; from a session
    /// with one it is a command or a chat line; from a connection without a
    /// session it is ignored.
    ///
    /// Before and after, no connection has two sessions and no two
    /// sessions hold the same username.
    pub fn handle_msg(&mut self, addr: ConnectionId, msg: Message) -> (actions: Vec<Action>)
        ensures
            (final(self).sessions(), actions.deep_view()) == step(
                old(self).sessions(),
                addr,
                msg.deep_view(),
            ),
            distinct_addrs(old(self).sessions()),
            distinct_addrs(final(self).sessions()),
            usernames_unique(old(self).sessions()),
            usernames_unique(final(self).sessions()),
    {
        proof {
            use_type_invariant(&*self);
        }
        let actions = self.dispatch(addr, msg);
        proof {
            use_type_invariant(&*self);
        }
        actions
    }

    /// Does what `handle_msg` does.
    fn dispatch(&mut self, addr: ConnectionId, msg: Message) -> (actions: Vec<Action>)
        ensures
            (final(self).sessions(), actions.deep_view()) == step(
                old(self).sessions(),
                addr,
                msg.deep_view(),
            ),
    {
        match msg {
            Message::Connected => {
                let mut clients = self.take_clients();
                remove_session(&mut clients, addr);
                proof {
                    lemma_without_sessions(old(self).sessions(), addr);
                }
                let ghost left = clients.deep_view();
                clients.push(ClientConnection { addr, username: None });
                proof {
                    let joined = left.push(Session { addr, username: None });
                    assert(clients.deep_view() =~= joined);
                    lemma_joined_keeps_invariants(left, addr);
                }
                self.put_clients(clients);
                only(send_to(addr, ENTER_USERNAME))
            },
            Message::Disconnected => {
                let mut clients = self.take_clients();
                remove_session(&mut clients, addr);
                self.put_clients(clients);
                nothing()
            },
            Message::Text(text) => {
                proof {
                    use_type_invariant(&*self);
                }
                match find(&self.clients, addr) {
                    None => nothing(),
                    Some(at) => {
                        if self.clients[at].username.is_none() {
                            self.claim_username(addr, text.as_str())
                        } else {
                            self.chat_step(addr, text.as_str())
                        }
                    },
                }
            },
        }
    }

    /// Takes a text from a connection as its try at a username. The name
    /// is the text without the white space around it. An empty name is
    /// asked again, a name that a session of another connection holds is
    /// refused, any other is claimed. A connection without a session is
    /// ignored.
    ///
    /// Before and after, no connection has two sessions and no two
    /// sessions hold the same username.
    pub fn negotiate_username(&mut self, addr: ConnectionId, text: &str) -> (actions: Vec<Action>)
        ensures
            has_session(old(self).sessions(), addr) ==> (final(self).sessions(), actions.deep_view())
                == negotiate(old(self).sessions(), addr, text@),
            !has_session(old(self).sessions(), addr) ==> final(self).sessions() == old(
                self,
            ).sessions() && actions.deep_view() == Seq::<Effect>::empty(),
            distinct_addrs(old(self).sessions()),
            distinct_addrs(final(self).sessions()),
            usernames_unique(old(self).sessions()),
            usernames_unique(final(self).sessions()),
    {
        proof {
            use_type_invariant(&*self);
        }
        let actions = self.claim_username(addr, text);
        proof {
            use_type_invariant(&*self);
        }
        actions
    }

    /// Does what `negotiate_username` does.
    fn claim_username(&mut self, addr: ConnectionId, text: &str) -> (actions: Vec<Action>)
        ensures
            has_session(old(self).sessions(), addr) ==> (final(self).sessions(), actions.deep_view())
                == negotiate(old(self).sessions(), addr, text@),
            !has_session(old(self).sessions(), addr) ==> final(self).sessions() == old(
                self,
            ).sessions() && actions.deep_view() == Seq::<Effect>::empty(),
    {
        proof {
            use_type_invariant(&*self);
        }
        let at = match find(&self.clients, addr) {
            None => {
                return nothing();
            },
            Some(at) => at,
        };
        let name = trim(text);
        if name.is_empty() {
            return only(send_to(addr, ENTER_USERNAME));
        }
        if is_held_by_other(&self.clients, addr, name) {
            return only(send_to(addr, USERNAME_TAKEN));
        }
        let mut clients = self.take_clients();
        clients.set(at, ClientConnection { addr, username: Some(String::from_str(name)) });
        proof {
            let before = old(self).sessions();
            let after = claimed(before, addr, name@);
            assert forall|i: int| 0 <= i < before.len() implies #[trigger] clients.deep_view()[i]
                == after[i] by {
                if i != at {
                    assert(before[i].addr != before[at as int].addr);
                }
            }
            assert(clients.deep_view() =~= after);
            lemma_claimed_keeps_invariants(before, addr, name@);
        }
        self.put_clients(clients);
        only(send_to(addr, USERNAME_GRANTED))
    }

    /// Takes a text from a session that has a username. An empty text does
    /// nothing. `/quit` removes the session and has its connection closed;
    /// `/list` answers with the usernames; `/help` answers with the
    /// commands; any other text that starts with a slash is answered as an
    /// invalid command. Every other text goes, behind the sender's
    /// username, to all other sessions. A connection without a session or
    /// without a username is ignored.
    ///
    /// Before and after, no connection has two sessions and no two
    /// sessions hold the same username.
    pub fn handle_chat_msg(&mut self, addr: ConnectionId, msg: &str) -> (actions: Vec<Action>)
        ensures
            (final(self).sessions(), actions.deep_view()) == chat(old(self).sessions(), addr, msg@),
            distinct_addrs(old(self).sessions()),
            distinct_addrs(final(self).sessions()),
            usernames_unique(old(self).sessions()),
            usernames_unique(final(self).sessions()),
    {
        proof {
            use_type_invariant(&*self);
        }
        let actions = self.chat_step(addr, msg);
        proof {
            use_type_invariant(&*self);
        }
        actions
    }

    /// Does what `handle_chat_msg` does.
    fn chat_step(&mut self, addr: ConnectionId, msg: &str) -> (actions: Vec<Action>)
        ensures
            (final(self).sessions(), actions.deep_view()) == chat(old(self).sessions(), addr, msg@),
    {
        proof {
            use_type_invariant(&*self);
        }
        let at = match find(&self.clients, addr) {
            None => {
                return nothing();
            },
            Some(at) => at,
        };
        if msg.is_empty() {
            return nothing();
        }
        match &self.clients[at].username {
            None => nothing(),
            Some(username) => {
                if msg.get_char(0) != '/' {
                    let mut line = username.clone();
                    line.append(SAYS);
                    line.append(msg);
                    send_to_others(&self.clients, addr, line.as_str())
                } else if same_text(msg, "/quit") {
                    let mut clients = self.take_clients();
                    remove_session(&mut clients, addr);
                    self.put_clients(clients);
                    only(Action::Close { addr })
                } else if same_text(msg, "/list") {
                    let names = format_names(&usernames(&self.clients));
                    only(list_reply(addr, names.as_str()))
                } else if same_text(msg, "/help") {
                    only(send_to(addr, HELP))
                } else {
                    only(send_to(addr, INVALID_COMMAND))
                }
            },
        }
    }
}

} // verus!
