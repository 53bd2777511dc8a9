//! Reading record collections tagged with their originating path.

use android_localization::android_string::AndroidString;
use android_localization::events::{Attribute, ParseEvent};
use android_localization::xml_utilities::{read_default_strings, read_foreign_strings};

fn string_document(name: &str, value: &str) -> Vec<ParseEvent> {
    vec![
        ParseEvent::StartElement {
            tag_name: String::from("resources"),
            attributes: vec![],
        },
        ParseEvent::StartElement {
            tag_name: String::from("string"),
            attributes: vec![Attribute {
                name: String::from("name"),
                value: String::from(name),
            }],
        },
        ParseEvent::Characters(String::from(value)),
        ParseEvent::EndElement,
        ParseEvent::EndElement,
    ]
}

#[test]
fn default_strings_carry_their_path() {
    let events = string_document("s1", "example content");
    let with_path = read_default_strings(&events, String::from("res/values/strings.xml")).unwrap();
    assert_eq!(with_path.path(), "res/values/strings.xml");
    assert_eq!(
        with_path.strings(),
        &[AndroidString::new(
            String::from("s1"),
            String::from("example content"),
            true
        )]
    );
}

#[test]
fn foreign_strings_carry_their_path_and_yield_their_records() {
    let events = string_document("s1", "contenu");
    let with_path =
        read_foreign_strings(&events, String::from("res/values-fr/strings.xml")).unwrap();
    assert_eq!(with_path.path(), "res/values-fr/strings.xml");
    let strings = with_path.into_strings();
    assert_eq!(
        strings,
        vec![AndroidString::new(
            String::from("s1"),
            String::from("contenu"),
            true
        )]
    );
}

#[test]
fn structural_fault_returns_no_partial_collection() {
    let events = vec![
        ParseEvent::StartElement {
            tag_name: String::from("resources"),
            attributes: vec![],
        },
        ParseEvent::StartElement {
            tag_name: String::from("string"),
            attributes: vec![],
        },
        ParseEvent::Characters(String::from("value")),
        ParseEvent::EndElement,
        ParseEvent::EndElement,
    ];
    assert!(read_default_strings(&events, String::from("res/values/strings.xml")).is_err());
}
