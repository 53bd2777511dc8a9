//! Stage two of reconciliation: resolve raw newly-translated entries
//! against the canonical pool. An entry matches the first canonical record
//! whose value equals the entry's default-locale text; entries that match
//! nothing are dropped silently, a non-fatal data condition.

use vstd::prelude::*;

use crate::android_string::{AndroidString, AndroidStringV};
use crate::ops::lookup::{contains_value, first_index_with_value, position_with_value};
use crate::translated_string::{TranslatedString, TranslatedStringV};

verus! {

/// The record produced for a matched entry: the canonical record's name and
/// translatable flag, the entry's translated text as value.
pub open spec fn spec_resolved(t: TranslatedStringV, d: AndroidStringV) -> AndroidStringV {
    AndroidStringV { name: d.name, value: t.translated_value, translatable: d.translatable }
}

/// The records extracted from `new` against the canonical pool `defaults`,
/// in entry order; unmatched entries contribute nothing.
pub open spec fn spec_extract(
    new: Seq<TranslatedStringV>,
    defaults: Seq<AndroidStringV>,
) -> Seq<AndroidStringV>
    decreases new.len(),
{
    if new.len() == 0 {
        Seq::empty()
    } else {
        let rest = spec_extract(new.drop_last(), defaults);
        let t = new.last();
        if contains_value(defaults, t.default_value) {
            rest.push(spec_resolved(t, defaults[first_index_with_value(defaults, t.default_value)]))
        } else {
            rest
        }
    }
}

/// Resolves each newly-translated entry to a record named by the first
/// canonical record whose value equals the entry's default-locale text;
/// entries without a match are dropped.
pub fn extract_android_strings_from_translated(
    new_strings: &Vec<TranslatedString>,
    default_strings: &Vec<AndroidString>,
) -> (r: Vec<AndroidString>)
    ensures
        r.deep_view() == spec_extract(new_strings.deep_view(), default_strings.deep_view()),
{
    let ghost newv = new_strings.deep_view();
    let ghost defv = default_strings.deep_view();
    let mut r: Vec<AndroidString> = Vec::new();
    let mut i: usize = 0;
    while i < new_strings.len()
        invariant
            i <= new_strings.len(),
            newv == new_strings.deep_view(),
            defv == default_strings.deep_view(),
            r.deep_view() == spec_extract(newv.take(i as int), defv),
        decreases new_strings.len() - i,
    {
        let ghost prev = r.deep_view();
        match position_with_value(default_strings, new_strings[i].default_value()) {
            Some(j) => {
                let d = &default_strings[j];
                r.push(
                    AndroidString::new(
                        d.name().to_owned(),
                        new_strings[i].translated_value().to_owned(),
                        d.is_translatable(),
                    ),
                );
                proof {
                    assert(r.deep_view() =~= prev.push(spec_resolved(newv[i as int], defv[j as int])));
                }
            },
            None => {
            },
        }
        proof {
            assert(newv.take(i + 1int).drop_last() =~= newv.take(i as int));
            assert(newv.take(i + 1int).last() == newv[i as int]);
        }
        i = i + 1;
    }
    proof {
        assert(newv.take(new_strings.len() as int) =~= newv);
    }
    r
}

} // verus!
