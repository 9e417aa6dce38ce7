//! Routing and dispatch kernel for an event-driven chat bot.
//!
//! The library turns user-supplied shorthand command patterns into fully
//! anchored matching patterns, keeps an ordered registry of routes, and
//! decides, for each inbound event, which handlers fire and in what order.
//! Handlers themselves are opaque values chosen by the embedding
//! application; the library never invokes them, it only plans the
//! invocations.

pub mod event;
pub mod matcher;
pub mod pattern;
pub mod router;

pub use event::Event;
pub use event::EventKind;
pub use event::GeneralSound;
pub use matcher::Matcher;
pub use pattern::modify_command;
pub use router::Firing;
pub use router::Invocation;
pub use router::Route;
pub use router::Router;
