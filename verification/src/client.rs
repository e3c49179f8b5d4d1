//! The client's side of the console: what goes out for a line that was
//! typed, and what is shown for what came in.

use crate::server::Event;
use crate::server::Message;
use crate::text::trim;
use crate::text::trimmed;
use vstd::prelude::*;
use vstd::string::StringExecFns;

verus! {

/// Shown in front of a text that came from the server.
pub const RECEIVED: &'static str = "received: ";

/// Shown when the server is gone.
pub const DISCONNECTED: &'static str = "disconnected\n";

/// The line that the console shows for an event, if it shows one.
pub open spec fn console_text(event: Event) -> Option<Seq<char>> {
    match event {
        Event::Text(text) => Some(RECEIVED@ + text),
        Event::Disconnected => Some(DISCONNECTED@),
        Event::Connected => None,
    }
}

/// What the console shows for an event of the connection to the server.
pub fn handle_msg(msg: &Message) -> (line: Option<String>)
    ensures
        match line {
            Some(shown) => console_text(msg.deep_view()) == Some(shown@),
            None => console_text(msg.deep_view()) is None,
        },
{
    match msg {
        Message::Text(text) => {
            let mut shown = String::from_str(RECEIVED);
            shown.append(text.as_str());
            Some(shown)
        },
        Message::Disconnected => Some(String::from_str(DISCONNECTED)),
        Message::Connected => None,
    }
}

/// What is sent for a line read from the console: nothing where the read
/// returned nothing, else the line without the white space around it,
/// which takes the line's end away.
pub fn handle_stream_stdin(line: &str) -> (text: Option<String>)
    ensures
        match text {
            Some(sent) => line@.len() > 0 && sent@ == trimmed(line@),
            None => line@.len() == 0,
        },
{
    if line.is_empty() {
        None
    } else {
        Some(String::from_str(trim(line)))
    }
}

} // verus!
