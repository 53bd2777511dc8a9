//! The dispatcher on concrete event sequences: plain documents, unknown
//! nesting, literal blocks, and the structural faults.

use android_localization::android_string::AndroidString;
use android_localization::events::{Attribute, ParseEvent};
use android_localization::xml_reader::dispatcher::read_events;

fn attr(name: &str, value: &str) -> Attribute {
    Attribute {
        name: String::from(name),
        value: String::from(value),
    }
}

fn start(tag: &str, attributes: Vec<Attribute>) -> ParseEvent {
    ParseEvent::StartElement {
        tag_name: String::from(tag),
        attributes,
    }
}

fn text(run: &str) -> ParseEvent {
    ParseEvent::Characters(String::from(run))
}

fn s(name: &str, value: &str, translatable: bool) -> AndroidString {
    AndroidString::new(String::from(name), String::from(value), translatable)
}

#[test]
fn reads_strings_from_a_plain_document() {
    let events = vec![
        start("resources", vec![]),
        start("string", vec![attr("name", "s1")]),
        text("english value 1"),
        ParseEvent::EndElement,
        start("string", vec![attr("name", "s2"), attr("translatable", "false")]),
        text("english value 2"),
        ParseEvent::EndElement,
        ParseEvent::EndElement,
    ];
    let strings = read_events(&events).unwrap();
    assert_eq!(
        strings,
        vec![s("s1", "english value 1", true), s("s2", "english value 2", false)]
    );
}

#[test]
fn reads_strings_nested_inside_deep_unknown_elements() {
    let top_level = vec![
        start("string", vec![attr("name", "s1")]),
        text("value 1"),
        ParseEvent::EndElement,
    ];
    let mut wrapped = vec![
        start("resources", vec![]),
        start("wrapper-a", vec![attr("ignored", "yes")]),
        start("wrapper-b", vec![]),
    ];
    wrapped.extend(top_level.clone());
    wrapped.push(ParseEvent::EndElement);
    wrapped.push(ParseEvent::EndElement);
    wrapped.push(ParseEvent::EndElement);
    assert_eq!(read_events(&wrapped).unwrap(), read_events(&top_level).unwrap());
    assert_eq!(read_events(&wrapped).unwrap(), vec![s("s1", "value 1", true)]);
}

#[test]
fn missing_name_attribute_fails_and_yields_no_records() {
    let events = vec![
        start("resources", vec![]),
        start("string", vec![attr("name", "s1")]),
        text("kept nowhere"),
        ParseEvent::EndElement,
        start("string", vec![attr("translatable", "false")]),
        text("value"),
        ParseEvent::EndElement,
        ParseEvent::EndElement,
    ];
    let error = read_events(&events).unwrap_err();
    assert_eq!(
        error.message(),
        "string element is missing required name attribute"
    );
}

#[test]
fn end_without_enclosing_start_fails() {
    let events = vec![ParseEvent::EndElement];
    let error = read_events(&events).unwrap_err();
    assert_eq!(error.message(), "end of element with no enclosing element");
}

#[test]
fn entry_with_no_text_content_yields_no_record() {
    let events = vec![
        start("resources", vec![]),
        start("string", vec![attr("name", "empty")]),
        ParseEvent::EndElement,
        ParseEvent::EndElement,
    ];
    assert_eq!(read_events(&events).unwrap(), Vec::new());
}

#[test]
fn element_nested_inside_entry_is_sunk() {
    let events = vec![
        start("resources", vec![]),
        start("string", vec![attr("name", "s1")]),
        text("before "),
        start("b", vec![]),
        text("sunk"),
        ParseEvent::EndElement,
        text("after"),
        ParseEvent::EndElement,
        ParseEvent::EndElement,
    ];
    assert_eq!(
        read_events(&events).unwrap(),
        vec![s("s1", "before after", true)]
    );
}

#[test]
fn cdata_runs_are_kept_with_their_delimiters() {
    let events = vec![
        start("resources", vec![]),
        start("string", vec![attr("name", "s1")]),
        text("plain "),
        ParseEvent::Cdata(String::from("<b>kept</b>")),
        ParseEvent::EndElement,
        ParseEvent::EndElement,
    ];
    assert_eq!(
        read_events(&events).unwrap(),
        vec![s("s1", "plain <![CDATA[<b>kept</b>]]>", true)]
    );
}

#[test]
fn last_name_attribute_wins_and_false_flag_is_sticky() {
    let events = vec![
        start("resources", vec![]),
        start(
            "string",
            vec![
                attr("name", "first"),
                attr("translatable", "false"),
                attr("name", "second"),
                attr("translatable", "true"),
            ],
        ),
        text("value"),
        ParseEvent::EndElement,
        ParseEvent::EndElement,
    ];
    assert_eq!(read_events(&events).unwrap(), vec![s("second", "value", false)]);
}
