use vstd::prelude::*;
use crate::message::LiveMessage;

verus! {

/// How long each filesystem event waits, on its own, before it is
/// classified; later events are not merged into it.
pub const DEBOUNCE_MS: u64 = 120;

/// What the watch loop does with one item from the filesystem watch.
#[derive(Debug)]
pub enum WatchAction {
    /// Classify the event after waiting this many milliseconds.
    ClassifyAfter(u64),
    /// Broadcast this message at once, and go on watching.
    Broadcast(LiveMessage),
}

/// The reaction to one watch item: an event is classified after the
/// debounce delay; a watch error is taken as a change, so every client
/// reloads at once.
pub fn on_watch_item(is_error: bool) -> (r: WatchAction)
    ensures
        is_error ==> (r matches WatchAction::Broadcast(m) && m is Reload),
        !is_error ==> (r matches WatchAction::ClassifyAfter(ms) && ms == DEBOUNCE_MS),
{
    if is_error {
        WatchAction::Broadcast(LiveMessage::Reload)
    } else {
        WatchAction::ClassifyAfter(DEBOUNCE_MS)
    }
}

/// The kind of a frame that a client sends on its push connection.
#[derive(Clone, Copy, Debug, PartialEq, Eq, Structural)]
pub enum InboundFrame {
    Ping,
    Close,
    /// Text, binary, continuation, pong or empty frames.
    Other,
}

/// What the connection does with an inbound frame.
#[derive(Clone, Copy, Debug, PartialEq, Eq, Structural)]
pub enum FrameAction {
    /// Answer with a pong carrying the same bytes; stop if that fails.
    Pong,
    /// Close the connection and stop reading.
    CloseAndStop,
    Ignore,
}

pub open spec fn frame_action(f: InboundFrame) -> FrameAction {
    match f {
        InboundFrame::Ping => FrameAction::Pong,
        InboundFrame::Close => FrameAction::CloseAndStop,
        InboundFrame::Other => FrameAction::Ignore,
    }
}

/// The reaction to an inbound frame: pings are answered, a close ends the
/// connection, everything else is ignored.
pub fn on_inbound_frame(f: InboundFrame) -> (r: FrameAction)
    ensures
        r == frame_action(f),
{
    match f {
        InboundFrame::Ping => FrameAction::Pong,
        InboundFrame::Close => FrameAction::CloseAndStop,
        InboundFrame::Other => FrameAction::Ignore,
    }
}

/// Whether forwarding to one client goes on after a message: a message that
/// could not be serialized is skipped, a failed send ends forwarding.
pub fn keeps_forwarding(serialized: bool, sent: bool) -> (r: bool)
    ensures
        r == (!serialized || sent),
{
    !serialized || sent
}

} // verus!
