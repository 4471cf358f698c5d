use web_dev_server::live::{
    keeps_forwarding, on_inbound_frame, on_watch_item, FrameAction, InboundFrame, WatchAction,
    DEBOUNCE_MS,
};
use web_dev_server::message::LiveMessage;

#[test]
fn events_wait_for_the_debounce_delay() {
    assert_eq!(DEBOUNCE_MS, 120);
    assert!(matches!(on_watch_item(false), WatchAction::ClassifyAfter(120)));
}

#[test]
fn watch_errors_reload_at_once() {
    assert!(matches!(on_watch_item(true), WatchAction::Broadcast(LiveMessage::Reload)));
}

#[test]
fn inbound_frames() {
    assert_eq!(on_inbound_frame(InboundFrame::Ping), FrameAction::Pong);
    assert_eq!(on_inbound_frame(InboundFrame::Close), FrameAction::CloseAndStop);
    assert_eq!(on_inbound_frame(InboundFrame::Other), FrameAction::Ignore);
}

#[test]
fn forwarding_skips_unserializable_and_stops_on_failed_send() {
    assert!(keeps_forwarding(true, true));
    assert!(!keeps_forwarding(true, false));
    assert!(keeps_forwarding(false, false));
}
