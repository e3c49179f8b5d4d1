//! What the worker of one connection does with each read: every accepted
//! connection has a worker that reads in a loop and reports to the server.

use crate::encstream::Received;
use crate::encstream::ReceivedText;
use crate::server::Event;
use crate::server::Message;
use vstd::prelude::*;

verus! {

/// What a worker does after a read.
#[derive(Debug, PartialEq, Eq)]
pub enum StreamStep {
    /// Report the event and read on.
    Forward(Message),
    /// Report the event and end.
    Finish(Message),
    /// Report nothing and read on.
    Skip,
}

/// A worker's step as the contracts see it.
pub enum StreamStepView {
    Forward(Event),
    Finish(Event),
    Skip,
}

impl DeepView for StreamStep {
    type V = StreamStepView;

    open spec fn deep_view(&self) -> StreamStepView {
        match self {
            StreamStep::Forward(message) => StreamStepView::Forward(message.deep_view()),
            StreamStep::Finish(message) => StreamStepView::Finish(message.deep_view()),
            StreamStep::Skip => StreamStepView::Skip,
        }
    }
}

/// The step after a read: a text is reported, a message that was dropped
/// is passed over, and the end of the stream or a failed read is reported
/// as the end of the connection, after which the worker ends.
pub open spec fn stream_step(read: Option<ReceivedText>) -> StreamStepView {
    match read {
        Some(ReceivedText::Text(text)) => StreamStepView::Forward(Event::Text(text)),
        Some(ReceivedText::Dropped) => StreamStepView::Skip,
        Some(ReceivedText::EndOfStream) => StreamStepView::Finish(Event::Disconnected),
        None => StreamStepView::Finish(Event::Disconnected),
    }
}

/// Decides what follows a read. `read` is what the channel made of the
/// bytes, or `None` where the read itself failed.
pub fn handle_stream(read: Option<Received>) -> (step: StreamStep)
    ensures
        step.deep_view() == stream_step(
            match read {
                Some(received) => Some(received.deep_view()),
                None => None,
            },
        ),
{
    match read {
        Some(Received::Text(text)) => StreamStep::Forward(Message::Text(text)),
        Some(Received::Dropped) => StreamStep::Skip,
        Some(Received::EndOfStream) => StreamStep::Finish(Message::Disconnected),
        None => StreamStep::Finish(Message::Disconnected),
    }
}

} // verus!
