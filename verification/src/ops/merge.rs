//! Stage three of reconciliation: combine newly extracted records with the
//! records already translated for a locale, grouped by name. For a name in
//! both, the new value supersedes; existing records set the baseline order,
//! and new-only names are appended in the order they were extracted.

use vstd::prelude::*;

use crate::android_string::{AndroidString, AndroidStringV};
use crate::ops::lookup::{contains_name, first_with_name, position_with_name};

verus! {

/// The existing records, each superseded by the first new record with the
/// same name when there is one.
pub open spec fn spec_superseded(
    new: Seq<AndroidStringV>,
    existing: Seq<AndroidStringV>,
) -> Seq<AndroidStringV> {
    Seq::new(
        existing.len(),
        |i: int|
            if contains_name(new, existing[i].name) {
                first_with_name(new, existing[i].name)
            } else {
                existing[i]
            },
    )
}

/// The new records whose names appear nowhere among the existing ones, in
/// extraction order.
pub open spec fn spec_new_only(
    new: Seq<AndroidStringV>,
    existing: Seq<AndroidStringV>,
) -> Seq<AndroidStringV>
    decreases new.len(),
{
    if new.len() == 0 {
        Seq::empty()
    } else {
        let rest = spec_new_only(new.drop_last(), existing);
        if contains_name(existing, new.last().name) {
            rest
        } else {
            rest.push(new.last())
        }
    }
}

/// The merge of new records into existing ones, grouped by name.
pub open spec fn spec_merge(
    new: Seq<AndroidStringV>,
    existing: Seq<AndroidStringV>,
) -> Seq<AndroidStringV> {
    spec_superseded(new, existing) + spec_new_only(new, existing)
}

/// Merges `new_strings` into `existing_strings`: existing order is the
/// baseline, a name present in both takes the first new record, and
/// new-only records are appended in order.
pub fn merge_and_group_strings(
    new_strings: &Vec<AndroidString>,
    existing_strings: &Vec<AndroidString>,
) -> (r: Vec<AndroidString>)
    ensures
        r.deep_view() == spec_merge(new_strings.deep_view(), existing_strings.deep_view()),
{
    let ghost newv = new_strings.deep_view();
    let ghost exv = existing_strings.deep_view();
    let mut r: Vec<AndroidString> = Vec::new();
    let mut i: usize = 0;
    while i < existing_strings.len()
        invariant
            i <= existing_strings.len(),
            newv == new_strings.deep_view(),
            exv == existing_strings.deep_view(),
            r.deep_view().len() == i,
            forall|k: int| 0 <= k < i ==> r.deep_view()[k] == spec_superseded(newv, exv)[k],
        decreases existing_strings.len() - i,
    {
        let ghost prev = r.deep_view();
        match position_with_name(new_strings, existing_strings[i].name()) {
            Some(j) => {
                r.push(new_strings[j].clone());
                proof {
                    assert(r.deep_view() =~= prev.push(newv[j as int]));
                    assert(contains_name(newv, exv[i as int].name));
                    assert(spec_superseded(newv, exv)[i as int] == first_with_name(
                        newv,
                        exv[i as int].name,
                    ));
                    assert(first_with_name(newv, exv[i as int].name) == newv[j as int]);
                }
            },
            None => {
                r.push(existing_strings[i].clone());
                proof {
                    assert(r.deep_view() =~= prev.push(exv[i as int]));
                    assert(spec_superseded(newv, exv)[i as int] == exv[i as int]);
                }
            },
        }
        i = i + 1;
    }
    proof {
        assert(r.deep_view() =~= spec_superseded(newv, exv));
    }
    let mut i: usize = 0;
    while i < new_strings.len()
        invariant
            i <= new_strings.len(),
            newv == new_strings.deep_view(),
            exv == existing_strings.deep_view(),
            r.deep_view() == spec_superseded(newv, exv) + spec_new_only(
                newv.take(i as int),
                exv,
            ),
        decreases new_strings.len() - i,
    {
        let ghost prev = r.deep_view();
        match position_with_name(existing_strings, new_strings[i].name()) {
            Some(_) => {
            },
            None => {
                r.push(new_strings[i].clone());
                proof {
                    assert(r.deep_view() =~= prev.push(newv[i as int]));
                }
            },
        }
        proof {
            assert(newv.take(i + 1int).drop_last() =~= newv.take(i as int));
            assert(newv.take(i + 1int).last() == newv[i as int]);
        }
        i = i + 1;
    }
    proof {
        assert(newv.take(new_strings.len() as int) =~= newv);
    }
    r
}

/// Every record of the new-only part carries a name absent from the
/// existing records, and comes from the new records.
pub proof fn lemma_new_only_names(new: Seq<AndroidStringV>, existing: Seq<AndroidStringV>)
    ensures
        forall|k: int|
            0 <= k < spec_new_only(new, existing).len() ==> !contains_name(
                existing,
                (#[trigger] spec_new_only(new, existing)[k]).name,
            ) && new.contains(spec_new_only(new, existing)[k]),
    decreases new.len(),
{
    if new.len() > 0 {
        lemma_new_only_names(new.drop_last(), existing);
        let rest = spec_new_only(new.drop_last(), existing);
        let full = spec_new_only(new, existing);
        assert forall|k: int| 0 <= k < full.len() implies !contains_name(
            existing,
            (#[trigger] full[k]).name,
        ) && new.contains(full[k]) by {
            if k < rest.len() {
                assert(full[k] == rest[k]);
                assert(rest[k] == spec_new_only(new.drop_last(), existing)[k]);
                assert(new.drop_last().contains(rest[k]));
                let w = choose|w: int|
                    0 <= w < new.drop_last().len() && new.drop_last()[w] == rest[k];
                assert(new[w] == rest[k]);
            } else {
                assert(full[k] == new.last());
                assert(new[new.len() - 1] == new.last());
            }
        }
    }
}

/// Merge precedence: for a name carried by both the new and the existing
/// records, every record of the merge output with that name is the first
/// new record with that name; the existing value never survives.
pub proof fn lemma_merge_precedence(
    new: Seq<AndroidStringV>,
    existing: Seq<AndroidStringV>,
    name: Seq<char>,
)
    requires
        contains_name(new, name),
        contains_name(existing, name),
    ensures
        contains_name(spec_merge(new, existing), name),
        forall|j: int|
            0 <= j < spec_merge(new, existing).len() && #[trigger] spec_merge(new, existing)[j].name
                == name ==> spec_merge(new, existing)[j] == first_with_name(new, name),
{
    let out = spec_merge(new, existing);
    let sup = spec_superseded(new, existing);
    crate::ops::dedup::lemma_first_index_in_range(new, name);
    lemma_new_only_names(new, existing);
    let w = choose|w: int| 0 <= w < existing.len() && existing[w].name == name;
    assert(sup[w] == first_with_name(new, existing[w].name));
    assert(out[w].name == name);
    assert forall|j: int| 0 <= j < out.len() && #[trigger] out[j].name == name implies out[j]
        == first_with_name(new, name) by {
        if j < sup.len() {
            if contains_name(new, existing[j].name) {
                crate::ops::dedup::lemma_first_index_in_range(new, existing[j].name);
                assert(out[j] == first_with_name(new, existing[j].name));
                assert(existing[j].name == name);
            } else {
                assert(out[j] == existing[j]);
                assert(existing[j].name == name);
                assert(!contains_name(new, name));
            }
        } else {
            let k = j - sup.len();
            assert(out[j] == spec_new_only(new, existing)[k]);
            assert(!contains_name(existing, out[j].name));
        }
    }
}

} // verus!
