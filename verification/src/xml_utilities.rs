//! Reading a resource file's record collection from its structural parse
//! events, keeping the textual path it came from for error attribution.
//! Opening the file and tokenizing its bytes into events belong to outside
//! collaborators; this module consumes only the events and the path.

use vstd::prelude::*;

use crate::android_string::{AndroidString, AndroidStringV};
use crate::error::Error;
use crate::events::ParseEvent;
use crate::xml_reader::dispatcher::{spec_parse, ParseFault};
use crate::xml_reader::string_event_handler::missing_name_message;
use crate::xml_reader::dispatcher::unmatched_end_message;

verus! {

/// Mathematical model of a [`StringsWithPath`].
pub ghost struct StringsWithPathV {
    pub path: Seq<char>,
    pub strings: Seq<AndroidStringV>,
}

/// A record collection tagged with the path it was read from; the path
/// serves error attribution only and is never mutated.
pub struct StringsWithPath {
    path: String,
    strings: Vec<AndroidString>,
}

impl View for StringsWithPath {
    type V = StringsWithPathV;

    closed spec fn view(&self) -> StringsWithPathV {
        StringsWithPathV { path: self.path@, strings: self.strings.deep_view() }
    }
}

impl StringsWithPath {
    /// The path the collection was read from.
    pub fn path(&self) -> (r: &str)
        ensures
            r@ == self@.path,
    {
        self.path.as_str()
    }

    /// The records, in document order.
    pub fn strings(&self) -> (r: &[AndroidString])
        ensures
            r.deep_view() == self@.strings,
    {
        self.strings.as_slice()
    }

    /// Gives up the path and yields the records.
    pub fn into_strings(self) -> (r: Vec<AndroidString>)
        ensures
            r.deep_view() == self@.strings,
    {
        self.strings
    }
}

/// Dispatches one resource file's events and tags the collection with the
/// file's path; a structural fault is returned as is, and no partial
/// collection survives it.
fn read_strings(events: &Vec<ParseEvent>, path: String) -> (r: Result<StringsWithPath, Error>)
    ensures
        match r {
            Ok(sp) => {
                &&& spec_parse(events.deep_view()) == Ok::<Seq<AndroidStringV>, ParseFault>(
                    sp@.strings,
                )
                &&& sp@.path == path@
            },
            Err(e) => {
                &&& spec_parse(events.deep_view()) is Err
                &&& e matches Error::SyntaxError(m)
                &&& spec_parse(events.deep_view()) == Err::<Seq<AndroidStringV>, ParseFault>(
                    ParseFault::MissingName,
                ) ==> m@ == missing_name_message()
                &&& spec_parse(events.deep_view()) == Err::<Seq<AndroidStringV>, ParseFault>(
                    ParseFault::UnmatchedEnd,
                ) ==> m@ == unmatched_end_message()
            },
        },
{
    match crate::xml_reader::dispatcher::read_events(events) {
        Ok(strings) => Ok(StringsWithPath { path, strings }),
        Err(e) => Err(e),
    }
}

/// Reads the default-locale record collection from its file's events and
/// path.
pub fn read_default_strings(events: &Vec<ParseEvent>, path: String) -> (r: Result<
    StringsWithPath,
    Error,
>)
    ensures
        match r {
            Ok(sp) => {
                &&& spec_parse(events.deep_view()) == Ok::<Seq<AndroidStringV>, ParseFault>(
                    sp@.strings,
                )
                &&& sp@.path == path@
            },
            Err(e) => {
                &&& spec_parse(events.deep_view()) is Err
                &&& e matches Error::SyntaxError(_)
            },
        },
{
    read_strings(events, path)
}

/// Reads one foreign locale's record collection from its file's events and
/// path.
pub fn read_foreign_strings(events: &Vec<ParseEvent>, path: String) -> (r: Result<
    StringsWithPath,
    Error,
>)
    ensures
        match r {
            Ok(sp) => {
                &&& spec_parse(events.deep_view()) == Ok::<Seq<AndroidStringV>, ParseFault>(
                    sp@.strings,
                )
                &&& sp@.path == path@
            },
            Err(e) => {
                &&& spec_parse(events.deep_view()) is Err
                &&& e matches Error::SyntaxError(_)
            },
        },
{
    read_strings(events, path)
}

} // verus!
