//! The output-format contract on concrete collections, and the round trip
//! through the dispatcher.

use android_localization::android_string::AndroidString;
use android_localization::events::{Attribute, ParseEvent};
use android_localization::xml_reader::dispatcher::read_events;
use android_localization::xml_writer::document_events;

fn s(name: &str, value: &str, translatable: bool) -> AndroidString {
    AndroidString::new(String::from(name), String::from(value), translatable)
}

#[test]
fn document_events_wrap_entries_in_one_container() {
    let events = document_events(&vec![
        s("translatable_string", "translatable string value", true),
        s("non_translatable_string", "non translatable string value", false),
    ]);
    let expected = vec![
        ParseEvent::StartElement {
            tag_name: String::from("resources"),
            attributes: vec![],
        },
        ParseEvent::StartElement {
            tag_name: String::from("string"),
            attributes: vec![Attribute {
                name: String::from("name"),
                value: String::from("translatable_string"),
            }],
        },
        ParseEvent::Characters(String::from("translatable string value")),
        ParseEvent::EndElement,
        ParseEvent::StartElement {
            tag_name: String::from("string"),
            attributes: vec![
                Attribute {
                    name: String::from("name"),
                    value: String::from("non_translatable_string"),
                },
                Attribute {
                    name: String::from("translatable"),
                    value: String::from("false"),
                },
            ],
        },
        ParseEvent::Characters(String::from("non translatable string value")),
        ParseEvent::EndElement,
        ParseEvent::EndElement,
    ];
    assert_eq!(events, expected);
}

#[test]
fn written_collection_reads_back_identically() {
    let strings = vec![
        s("s1", "english value 1", true),
        s("s2", "with <![CDATA[markers]]> kept", true),
        s("s3", "not sent out", false),
        s("s4", "", true),
    ];
    let events = document_events(&strings);
    assert_eq!(read_events(&events).unwrap(), strings);
}

#[test]
fn empty_collection_round_trips_to_empty() {
    let events = document_events(&Vec::new());
    assert_eq!(read_events(&events).unwrap(), Vec::new());
}
