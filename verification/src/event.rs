//! Events carried on the check-request stream.
//!
//! A `WebsiteEvent` is the payload the producer publishes for each
//! monitored website; a `StreamMessage` pairs such a payload with the
//! broker-assigned entry id under which it was delivered, the unit of
//! acknowledgment.

use vstd::prelude::*;

verus! {

/// One check request: which website to probe and at which URL.
/// Immutable once published.
#[derive(Clone, Debug)]
pub struct WebsiteEvent {
    pub url: String,
    pub id: String,
}

/// Mathematical value of a `WebsiteEvent`: both fields as character
/// sequences.
pub struct EventView {
    pub url: Seq<char>,
    pub id: Seq<char>,
}

impl View for WebsiteEvent {
    type V = EventView;

    open spec fn view(&self) -> EventView {
        EventView { url: self.url@, id: self.id@ }
    }
}

/// One delivered stream entry: the broker-assigned entry id and the
/// decoded payload.
#[derive(Clone, Debug)]
pub struct StreamMessage {
    pub id: String,
    pub message: WebsiteEvent,
}

/// Mathematical value of a `StreamMessage`.
pub struct MessageView {
    pub id: Seq<char>,
    pub message: EventView,
}

impl View for StreamMessage {
    type V = MessageView;

    open spec fn view(&self) -> MessageView {
        MessageView { id: self.id@, message: self.message@ }
    }
}

/// The views of a sequence of delivered entries, element by element.
pub open spec fn messages_view(msgs: Seq<StreamMessage>) -> Seq<MessageView> {
    msgs.map_values(|m: StreamMessage| m@)
}

} // verus!
