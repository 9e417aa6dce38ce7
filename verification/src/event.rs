//! Inbound events and their categories.

use vstd::prelude::*;

verus! {

/// Tags which of the two audio-like payloads an audio-or-voice route
/// receives.
#[derive(Debug, Clone, Copy, PartialEq, Eq)]
pub enum GeneralSound {
    Audio,
    Voice,
}

/// The category tag of an inbound event, together with the payload the
/// router itself inspects. The router reads only the text of text
/// messages; every other payload (media, contacts, participants, ...)
/// stays with the embedding application, which looks it up again when it
/// invokes the planned handlers.
#[derive(Debug, PartialEq, Eq)]
pub enum EventKind {
    Text(String),
    Photo,
    Video,
    Document,
    Sticker,
    Audio,
    Voice,
    Contact,
    Location,
    NewParticipant,
    LeftParticipant,
    NewTitle,
    NewChatPhoto,
    DeleteChatPhoto,
    GroupChatCreated,
}

/// One inbound event: the common identification fields and the category
/// tag. Events are consumed read-only by the dispatcher and belong to
/// exactly one category.
#[derive(Debug, PartialEq, Eq)]
pub struct Event {
    /// Identifier of the chat the event originated in.
    pub chat_id: i64,
    /// Identifier of the sender.
    pub sender_id: i64,
    /// Identifier of the message that carried the event.
    pub message_id: i64,
    /// Raw timestamp of the event.
    pub date: i64,
    /// The category tag and inspected payload.
    pub kind: EventKind,
}

/// The text of a text event; the empty sequence for every other category.
pub open spec fn text_of(ev: Event) -> Seq<char> {
    match ev.kind {
        EventKind::Text(t) => t@,
        _ => Seq::<char>::empty(),
    }
}

} // verus!
