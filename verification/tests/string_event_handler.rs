//! The entry handler accumulates plain-text and literal-block runs in
//! arrival order, wrapping literal runs in their delimiters.

use android_localization::events::Attribute;
use android_localization::xml_reader::string_event_handler::StringEventHandler;

fn build_event_handler() -> StringEventHandler {
    StringEventHandler::build(vec![Attribute {
        name: String::from("name"),
        value: String::from("test_string"),
    }])
    .unwrap()
}

#[test]
fn builds_string_with_one_character_event() {
    let mut handler = build_event_handler();
    handler.handle_characters_event(String::from("this is a test"));
    assert_eq!(handler.built_string().unwrap().value(), "this is a test")
}

#[test]
fn builds_string_with_one_cdata_event() {
    let mut handler = build_event_handler();
    handler.handle_cdata_event(String::from("this is a test"));
    assert_eq!(
        handler.built_string().unwrap().value(),
        "<![CDATA[this is a test]]>"
    )
}

#[test]
fn builds_string_with_character_followed_by_cdata_event() {
    let mut handler = build_event_handler();
    handler.handle_characters_event(String::from("character event "));
    handler.handle_cdata_event(String::from("cdata event"));
    assert_eq!(
        handler.built_string().unwrap().value(),
        "character event <![CDATA[cdata event]]>"
    )
}

#[test]
fn builds_string_with_cdata_followed_by_character_event() {
    let mut handler = build_event_handler();
    handler.handle_cdata_event(String::from("cdata event"));
    handler.handle_characters_event(String::from(" character event"));
    assert_eq!(
        handler.built_string().unwrap().value(),
        "<![CDATA[cdata event]]> character event"
    )
}

#[test]
fn builds_string_with_multiple_character_and_cdata_events() {
    let mut handler = build_event_handler();
    handler.handle_characters_event(String::from("character event 1 "));
    handler.handle_cdata_event(String::from("cdata event 1"));
    handler.handle_characters_event(String::from(" character event 2 "));
    handler.handle_cdata_event(String::from("cdata event 2"));
    handler.handle_characters_event(String::from(" "));
    handler.handle_cdata_event(String::from("cdata event 3"));
    handler.handle_characters_event(String::from(" character event 3"));
    assert_eq!(handler.built_string().unwrap().value(), "character event 1 <![CDATA[cdata event 1]]> character event 2 <![CDATA[cdata event 2]]> <![CDATA[cdata event 3]]> character event 3")
}

#[test]
fn build_without_name_attribute_is_a_syntax_error() {
    let error = StringEventHandler::build(vec![Attribute {
        name: String::from("translatable"),
        value: String::from("false"),
    }])
    .unwrap_err();
    assert_eq!(
        error.message(),
        "string element is missing required name attribute"
    );
}

#[test]
fn build_reads_translatable_attribute() {
    let mut handler = StringEventHandler::build(vec![
        Attribute {
            name: String::from("name"),
            value: String::from("s1"),
        },
        Attribute {
            name: String::from("translatable"),
            value: String::from("false"),
        },
    ])
    .unwrap();
    handler.handle_characters_event(String::from("value"));
    let built = handler.built_string().unwrap();
    assert_eq!(built.name(), "s1");
    assert!(!built.is_translatable());
}

#[test]
fn build_ignores_non_false_translatable_values() {
    let mut handler = StringEventHandler::build(vec![
        Attribute {
            name: String::from("name"),
            value: String::from("s1"),
        },
        Attribute {
            name: String::from("translatable"),
            value: String::from("FALSE"),
        },
    ])
    .unwrap();
    handler.handle_characters_event(String::from("value"));
    assert!(handler.built_string().unwrap().is_translatable());
}

#[test]
fn entry_with_no_text_events_yields_no_record() {
    let handler = build_event_handler();
    assert!(handler.built_string().is_none());
}
