//! The per-locale reconciliation: newly-translated entries are resolved
//! against the canonical pool, merged over the locale's existing records,
//! and deduplicated to one record per name. Reading the inputs and writing
//! the output file stay with outside collaborators.

use vstd::prelude::*;

use crate::android_string::{AndroidString, AndroidStringV};
use crate::ops::dedup::{dedup_grouped_strings, spec_dedup, unique_names};
use crate::ops::extract::{extract_android_strings_from_translated, spec_extract};
use crate::ops::merge::{merge_and_group_strings, spec_merge};
use crate::translated_string::{TranslatedString, TranslatedStringV};

verus! {

/// The record collection a locale's output file gets: extract, then merge,
/// then dedup.
pub open spec fn spec_reconcile(
    new_translated: Seq<TranslatedStringV>,
    already_translated: Seq<AndroidStringV>,
    translatable_default: Seq<AndroidStringV>,
) -> Seq<AndroidStringV> {
    spec_dedup(
        spec_merge(
            spec_extract(new_translated, translatable_default),
            already_translated,
        ),
    )
}

/// Runs one locale's reconciliation: resolves the newly-translated entries
/// against the canonical pool, merges them over the locale's existing
/// records (new values supersede), and collapses duplicate names. The
/// output carries no name twice.
pub fn reconcile_foreign_strings(
    new_translated: &Vec<TranslatedString>,
    already_translated: &Vec<AndroidString>,
    translatable_default: &Vec<AndroidString>,
) -> (r: Vec<AndroidString>)
    ensures
        r.deep_view() == spec_reconcile(
            new_translated.deep_view(),
            already_translated.deep_view(),
            translatable_default.deep_view(),
        ),
        unique_names(r.deep_view()),
{
    let extracted = extract_android_strings_from_translated(new_translated, translatable_default);
    let merged = merge_and_group_strings(&extracted, already_translated);
    let deduped = dedup_grouped_strings(merged);
    proof {
        crate::ops::dedup::lemma_dedup_unique_names(
            spec_merge(
                spec_extract(new_translated.deep_view(), translatable_default.deep_view()),
                already_translated.deep_view(),
            ),
        );
    }
    deduped
}

} // verus!
