use encrypted_chat::server::list_reply;
use encrypted_chat::server::ENTER_USERNAME;
use encrypted_chat::server::HELP;
use encrypted_chat::server::INVALID_COMMAND;
use encrypted_chat::server::USERNAME_GRANTED;
use encrypted_chat::server::USERNAME_TAKEN;
use encrypted_chat::Action;
use encrypted_chat::ChatServer;
use encrypted_chat::Message;

fn text(t: &str) -> Message {
    Message::Text(t.to_string())
}

fn send(to: u64, t: &str) -> Action {
    Action::Send { to, text: t.to_string() }
}

fn server_with(names: &[(u64, &str)]) -> ChatServer {
    let mut server = ChatServer::new();
    for (addr, name) in names {
        server.handle_msg(*addr, Message::Connected);
        assert_eq!(server.handle_msg(*addr, text(name)), vec![send(*addr, "Username granted!")]);
    }
    server
}

#[test]
fn the_texts_the_server_sends() {
    assert_eq!(ENTER_USERNAME, "Enter username: ");
    assert_eq!(USERNAME_TAKEN, "Username taken!\nEnter username: ");
    assert_eq!(USERNAME_GRANTED, "Username granted!");
    assert_eq!(INVALID_COMMAND, "Invalid command! Type /help for help.\n");
    assert!(HELP.contains("/quit") && HELP.contains("/list") && HELP.contains("/help"));
}

#[test]
fn a_new_server_is_empty() {
    let server = ChatServer::new();
    assert_eq!(server.len(), 0);
    assert!(!server.is_registered(1));
    assert_eq!(server.username(1), None);
}

#[test]
fn a_connection_is_registered_and_asked_for_a_username() {
    let mut server = ChatServer::new();
    assert_eq!(server.handle_msg(7, Message::Connected), vec![send(7, "Enter username: ")]);
    assert!(server.is_registered(7));
    assert_eq!(server.username(7), None);
    assert_eq!(server.len(), 1);
}

#[test]
fn connecting_again_starts_the_session_anew() {
    let mut server = server_with(&[(1, "alice"), (2, "bob")]);
    assert_eq!(server.handle_msg(1, Message::Connected), vec![send(1, "Enter username: ")]);
    assert_eq!(server.len(), 2);
    assert_eq!(server.username(1), None);
    assert_eq!(server.username(2), Some("bob".to_string()));
}

#[test]
fn two_clients_negotiate_names_chat_and_list() {
    let mut server = ChatServer::new();
    assert_eq!(server.handle_msg(1, Message::Connected), vec![send(1, "Enter username: ")]);
    assert_eq!(server.handle_msg(2, Message::Connected), vec![send(2, "Enter username: ")]);
    assert_eq!(server.handle_msg(1, text("alice")), vec![send(1, "Username granted!")]);
    assert_eq!(server.handle_msg(2, text("alice")), vec![send(2, "Username taken!\nEnter username: ")]);
    assert_eq!(server.username(2), None);
    assert_eq!(server.handle_msg(2, text("bob")), vec![send(2, "Username granted!")]);
    assert_eq!(server.handle_msg(1, text("hi")), vec![send(2, "alice: hi")]);
    let listing = server.handle_msg(2, text("/list"));
    assert_eq!(listing.len(), 1);
    match &listing[0] {
        Action::Send { to, text } => {
            assert_eq!(*to, 2);
            assert!(text.contains("alice"));
            assert!(text.contains("bob"));
            assert_eq!(text, "Users: [\"alice\", \"bob\"]");
        }
        other => panic!("unexpected action {:?}", other),
    }
}

#[test]
fn an_empty_username_is_asked_again() {
    let mut server = ChatServer::new();
    server.handle_msg(1, Message::Connected);
    assert_eq!(server.handle_msg(1, text("")), vec![send(1, "Enter username: ")]);
    assert_eq!(server.username(1), None);
    assert!(server.is_registered(1));
}

#[test]
fn a_username_is_claimed_without_the_white_space_around_it() {
    let mut server = ChatServer::new();
    server.handle_msg(1, Message::Connected);
    assert_eq!(server.handle_msg(1, text("  carol \r\n")), vec![send(1, "Username granted!")]);
    assert_eq!(server.username(1), Some("carol".to_string()));
    server.handle_msg(2, Message::Connected);
    server.handle_msg(2, text("\u{3000}dave smith\u{2003}\t"));
    assert_eq!(server.username(2), Some("dave smith".to_string()));
    server.handle_msg(3, Message::Connected);
    server.handle_msg(3, text("\u{200b}eve"));
    assert_eq!(server.username(3), Some("\u{200b}eve".to_string()));
}

#[test]
fn white_space_alone_is_no_username() {
    let mut server = ChatServer::new();
    server.handle_msg(1, Message::Connected);
    assert_eq!(server.handle_msg(1, text(" \n")), vec![send(1, "Enter username: ")]);
    assert_eq!(server.handle_msg(1, text("\u{3000}\t")), vec![send(1, "Enter username: ")]);
    assert_eq!(server.username(1), None);
    assert!(server.is_registered(1));
}

#[test]
fn a_taken_name_is_refused_with_white_space_around_it() {
    let mut server = server_with(&[(1, "alice")]);
    server.handle_msg(2, Message::Connected);
    let taken = vec![send(2, "Username taken!\nEnter username: ")];
    assert_eq!(server.handle_msg(2, text("alice")), taken);
    assert_eq!(server.handle_msg(2, text(" alice")), taken);
    assert_eq!(server.handle_msg(2, text(" alice ")), taken);
    assert_eq!(server.handle_msg(2, text("alice\r\n")), taken);
    assert_eq!(server.negotiate_username(2, "\talice"), taken);
    assert_eq!(server.username(1), Some("alice".to_string()));
    assert_eq!(server.username(2), None);
    assert_eq!(server.handle_msg(2, text(" Alice ")), vec![send(2, "Username granted!")]);
    assert_eq!(server.username(2), Some("Alice".to_string()));
}

#[test]
fn usernames_stay_unique() {
    let mut server = ChatServer::new();
    let names = ["alice", "bob", " alice", "carol\n", "bob ", "dave", "\talice\t", " carol", ""];
    for (addr, name) in names.iter().enumerate() {
        server.handle_msg(addr as u64, Message::Connected);
        server.handle_msg(addr as u64, text(name));
        if addr == 3 {
            server.handle_msg(1, Message::Disconnected);
        }
    }
    let mut held = Vec::new();
    for addr in 0..names.len() as u64 {
        if let Some(name) = server.username(addr) {
            assert!(!held.contains(&name));
            assert!(!name.is_empty());
            assert_eq!(name.trim(), name);
            held.push(name);
        }
    }
    assert_eq!(held, vec!["alice", "carol", "bob", "dave"]);
}

#[test]
fn a_freed_name_can_be_claimed_again() {
    let mut server = server_with(&[(1, "alice")]);
    server.handle_msg(2, Message::Connected);
    server.handle_msg(1, Message::Disconnected);
    assert_eq!(server.handle_msg(2, text("alice")), vec![send(2, "Username granted!")]);
}

#[test]
fn a_chat_line_goes_to_all_others_and_not_to_the_sender() {
    let mut server = server_with(&[(1, "alice"), (2, "bob"), (3, "carol")]);
    server.handle_msg(4, Message::Connected);
    assert_eq!(
        server.handle_msg(2, text("hello all")),
        vec![send(1, "bob: hello all"), send(3, "bob: hello all"), send(4, "bob: hello all")]
    );
    assert_eq!(server.len(), 4);
}

#[test]
fn a_chat_line_in_an_empty_room_goes_nowhere() {
    let mut server = server_with(&[(1, "alice")]);
    assert_eq!(server.handle_msg(1, text("anyone?")), vec![]);
}

#[test]
fn a_chat_line_is_sent_as_it_came() {
    let mut server = server_with(&[(1, "alice"), (2, "bob")]);
    assert_eq!(server.handle_msg(1, text(" a/b: c ")), vec![send(2, "alice:  a/b: c ")]);
}

#[test]
fn an_empty_text_is_ignored() {
    let mut server = server_with(&[(1, "alice"), (2, "bob")]);
    assert_eq!(server.handle_msg(1, text("")), vec![]);
    assert_eq!(server.handle_chat_msg(1, ""), vec![]);
}

#[test]
fn quit_closes_and_removes_the_session() {
    let mut server = server_with(&[(1, "alice"), (2, "bob")]);
    assert_eq!(server.handle_msg(1, text("/quit")), vec![Action::Close { addr: 1 }]);
    assert!(!server.is_registered(1));
    assert!(server.is_registered(2));
    assert_eq!(server.handle_msg(2, text("/list")), vec![send(2, "Users: [\"bob\"]")]);
    assert_eq!(server.handle_msg(1, text("late")), vec![]);
}

#[test]
fn list_shows_the_usernames_in_the_order_of_connecting() {
    let mut server = server_with(&[(30, "carol"), (10, "alice"), (20, "bob")]);
    server.handle_msg(5, Message::Connected);
    assert_eq!(
        server.handle_msg(10, text("/list")),
        vec![send(10, "Users: [\"carol\", \"alice\", \"bob\"]")]
    );
}

#[test]
fn list_quotes_as_debug_does() {
    let mut server = server_with(&[(1, "a\"b\\c")]);
    assert_eq!(server.handle_msg(1, text("/list")), vec![send(1, "Users: [\"a\\\"b\\\\c\"]")]);
}

#[test]
fn list_reply_puts_the_heading_in_front() {
    assert_eq!(list_reply(3, "[]"), send(3, "Users: []"));
    assert_eq!(list_reply(4, ""), send(4, "Users: "));
}

#[test]
fn help_lists_the_commands() {
    let mut server = server_with(&[(1, "alice")]);
    assert_eq!(
        server.handle_msg(1, text("/help")),
        vec![send(
            1,
            "\n                    /quit - quit the chat\n                    /list - list usernames\n                    /help - show this help message"
        )]
    );
}

#[test]
fn an_unknown_command_is_answered_as_invalid() {
    let mut server = server_with(&[(1, "alice"), (2, "bob")]);
    let invalid = vec![send(1, "Invalid command! Type /help for help.\n")];
    assert_eq!(server.handle_msg(1, text("/dance")), invalid);
    assert_eq!(server.handle_msg(1, text("/")), invalid);
    assert_eq!(server.handle_msg(1, text("/quit ")), invalid);
    assert_eq!(server.handle_msg(1, text("/LIST")), invalid);
    assert_eq!(server.handle_msg(1, text("/help me")), invalid);
    assert!(server.is_registered(1));
}

#[test]
fn a_command_is_a_username_while_none_is_set() {
    let mut server = ChatServer::new();
    server.handle_msg(1, Message::Connected);
    assert_eq!(server.handle_msg(1, text("/quit")), vec![send(1, "Username granted!")]);
    assert_eq!(server.username(1), Some("/quit".to_string()));
}

#[test]
fn disconnect_removes_the_session_and_its_name_from_listings() {
    let mut server = server_with(&[(1, "alice"), (2, "bob"), (3, "carol")]);
    assert_eq!(server.handle_msg(2, Message::Disconnected), vec![]);
    assert!(!server.is_registered(2));
    assert_eq!(server.username(2), None);
    assert_eq!(server.handle_msg(1, text("/list")), vec![send(1, "Users: [\"alice\", \"carol\"]")]);
    assert_eq!(server.handle_msg(3, text("still here")), vec![send(1, "carol: still here")]);
}

#[test]
fn disconnect_is_idempotent() {
    let mut server = server_with(&[(1, "alice")]);
    assert_eq!(server.handle_msg(1, Message::Disconnected), vec![]);
    assert_eq!(server.handle_msg(1, Message::Disconnected), vec![]);
    assert_eq!(server.handle_msg(9, Message::Disconnected), vec![]);
    assert_eq!(server.len(), 0);
}

#[test]
fn a_text_from_an_unknown_connection_is_ignored() {
    let mut server = server_with(&[(1, "alice")]);
    assert_eq!(server.handle_msg(9, text("hello")), vec![]);
    assert_eq!(server.handle_msg(9, text("/list")), vec![]);
    assert_eq!(server.handle_chat_msg(9, "hello"), vec![]);
    assert_eq!(server.negotiate_username(9, "mallory"), vec![]);
    assert_eq!(server.len(), 1);
}

#[test]
fn handle_chat_msg_needs_a_username() {
    let mut server = server_with(&[(1, "alice")]);
    server.handle_msg(2, Message::Connected);
    assert_eq!(server.handle_chat_msg(2, "hello"), vec![]);
    assert_eq!(server.handle_chat_msg(2, "/quit"), vec![]);
    assert!(server.is_registered(2));
    assert_eq!(server.handle_chat_msg(1, "hello"), vec![send(2, "alice: hello")]);
}

#[test]
fn negotiate_username_can_rename() {
    let mut server = server_with(&[(1, "alice"), (2, "bob")]);
    assert_eq!(server.negotiate_username(1, "bob"), vec![send(1, "Username taken!\nEnter username: ")]);
    assert_eq!(server.negotiate_username(1, "alice"), vec![send(1, "Username granted!")]);
    assert_eq!(server.negotiate_username(1, "anna"), vec![send(1, "Username granted!")]);
    assert_eq!(server.username(1), Some("anna".to_string()));
}

#[test]
fn a_failed_send_changes_nothing_for_the_others() {
    let mut server = server_with(&[(1, "alice"), (2, "bob"), (3, "carol")]);
    let actions = server.handle_msg(1, text("hi"));
    assert_eq!(actions, vec![send(2, "alice: hi"), send(3, "alice: hi")]);
    assert_eq!(server.handle_msg(2, Message::Disconnected), vec![]);
    assert_eq!(server.handle_msg(1, text("again")), vec![send(3, "alice: again")]);
}
