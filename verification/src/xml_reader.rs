//! The streaming markup event dispatcher: a stack of element handlers,
//! seeded with one root handler, consumes structural parse events and
//! collects the records finished by entry handlers.

pub mod dispatcher;
pub mod string_event_handler;
