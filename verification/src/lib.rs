//! Reconciles named text resources across locales.
//!
//! Two subsystems carry the logic: a stack-based dispatcher that consumes
//! structural markup events (element start, element end, text run,
//! literal-block run) and collects the text records they finish, and a
//! four-stage pipeline — filter, extract, merge, dedup — that turns the
//! canonical records, a locale's existing records and its newly-translated
//! entries into one deduplicated, order-stable record collection.
//!
//! The library works on plain values only. Opening files, tokenizing
//! markup bytes into events, emitting events back as markup text, and
//! reading the tabular translation import are outside collaborators,
//! reached only through the narrow interfaces in [`events`],
//! [`xml_writer`] and [`translated_string`].

pub mod android_string;
pub mod error;
pub mod events;
pub mod from_translate;
pub mod ops;
pub mod translated_string;
pub mod xml_reader;
pub mod xml_utilities;
pub mod xml_writer;
