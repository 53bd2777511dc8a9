//! The reconciliation pipeline on concrete collections: filter purity,
//! merge precedence, dedup idempotence, and the end-to-end locale
//! scenarios.

use android_localization::android_string::AndroidString;
use android_localization::from_translate::reconcile_foreign_strings;
use android_localization::ops::dedup::dedup_grouped_strings;
use android_localization::ops::extract::extract_android_strings_from_translated;
use android_localization::ops::filter::find_translatable_strings;
use android_localization::ops::merge::merge_and_group_strings;
use android_localization::translated_string::TranslatedString;

fn s(name: &str, value: &str, translatable: bool) -> AndroidString {
    AndroidString::new(String::from(name), String::from(value), translatable)
}

#[test]
fn filter_keeps_only_translatable_strings_unchanged() {
    let strings = vec![
        s("s1", "value 1", true),
        s("s2", "value 2", false),
        s("s3", "value 3", true),
    ];
    let filtered = find_translatable_strings(strings);
    assert_eq!(filtered, vec![s("s1", "value 1", true), s("s3", "value 3", true)]);
}

#[test]
fn filter_twice_is_filter_once() {
    let strings = vec![
        s("s1", "value 1", true),
        s("s2", "value 2", false),
        s("s3", "value 3", true),
    ];
    let once = find_translatable_strings(strings);
    let twice = find_translatable_strings(once.clone());
    assert_eq!(twice, once);
}

#[test]
fn extract_resolves_by_default_text_and_drops_unmatched() {
    let rows = vec![
        TranslatedString::new(String::from("english value 1"), String::from("french value 1")),
        TranslatedString::new(String::from("retired text"), String::from("french orphan")),
    ];
    let defaults = vec![s("s1", "english value 1", true), s("s2", "english value 2", true)];
    let extracted = extract_android_strings_from_translated(&rows, &defaults);
    assert_eq!(extracted, vec![s("s1", "french value 1", true)]);
}

#[test]
fn extract_matches_first_canonical_record_with_equal_value() {
    let rows = vec![TranslatedString::new(
        String::from("shared text"),
        String::from("translated text"),
    )];
    let defaults = vec![s("first", "shared text", true), s("second", "shared text", true)];
    let extracted = extract_android_strings_from_translated(&rows, &defaults);
    assert_eq!(extracted, vec![s("first", "translated text", true)]);
}

#[test]
fn merge_prefers_new_values_and_appends_new_only_names() {
    let new_strings = vec![s("s2", "new value 2", true), s("s9", "new value 9", true)];
    let existing = vec![s("s1", "old value 1", true), s("s2", "old value 2", true)];
    let merged = merge_and_group_strings(&new_strings, &existing);
    assert_eq!(
        merged,
        vec![
            s("s1", "old value 1", true),
            s("s2", "new value 2", true),
            s("s9", "new value 9", true),
        ]
    );
}

#[test]
fn dedup_keeps_first_position_and_last_value() {
    let strings = vec![
        s("s1", "value a", true),
        s("s2", "value b", true),
        s("s1", "value c", true),
    ];
    let deduped = dedup_grouped_strings(strings);
    assert_eq!(deduped, vec![s("s1", "value c", true), s("s2", "value b", true)]);
}

#[test]
fn dedup_twice_is_dedup_once() {
    let strings = vec![
        s("s1", "value a", true),
        s("s2", "value b", true),
        s("s1", "value c", true),
        s("s2", "value d", false),
    ];
    let once = dedup_grouped_strings(strings);
    let twice = dedup_grouped_strings(once.clone());
    assert_eq!(twice, once);
}

#[test]
fn dedup_of_empty_collection_is_empty() {
    let deduped = dedup_grouped_strings(Vec::new());
    assert_eq!(deduped, Vec::new());
}

#[test]
fn reconcile_updates_only_the_freshly_translated_name() {
    let canonical = vec![s("s1", "english value 1", true), s("s2", "english value 2", true)];
    let existing_fr = vec![
        s("s1", "french old value 1", true),
        s("s2", "french old value 2", true),
    ];
    let rows = vec![TranslatedString::new(
        String::from("english value 1"),
        String::from("french new value 1"),
    )];
    let output = reconcile_foreign_strings(&rows, &existing_fr, &canonical);
    assert_eq!(
        output,
        vec![
            s("s1", "french new value 1", true),
            s("s2", "french old value 2", true),
        ]
    );
}

#[test]
fn reconcile_keeps_non_translatable_existing_record_unchanged() {
    let canonical = find_translatable_strings(vec![
        s("app_name", "My App", false),
        s("greeting", "hello", true),
    ]);
    let existing_fr = vec![s("app_name", "My App", false), s("greeting", "bonjour", true)];
    let rows = vec![TranslatedString::new(String::from("My App"), String::from("Mon App"))];
    let output = reconcile_foreign_strings(&rows, &existing_fr, &canonical);
    assert_eq!(
        output,
        vec![s("app_name", "My App", false), s("greeting", "bonjour", true)]
    );
}

#[test]
fn reconcile_collapses_accidental_duplicates_in_the_existing_file() {
    let canonical = vec![s("s1", "english value 1", true)];
    let existing_fr = vec![
        s("s1", "french value a", true),
        s("s2", "french value b", true),
        s("s1", "french value c", true),
    ];
    let output = reconcile_foreign_strings(&Vec::new(), &existing_fr, &canonical);
    assert_eq!(
        output,
        vec![s("s1", "french value c", true), s("s2", "french value b", true)]
    );
}

#[test]
fn reconcile_with_no_inputs_is_empty() {
    let output = reconcile_foreign_strings(&Vec::new(), &Vec::new(), &Vec::new());
    assert_eq!(output, Vec::new());
}
