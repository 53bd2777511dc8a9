//! Stage four of reconciliation: collapse residual duplicate-name groups to
//! exactly one record per name, keeping the most recently merged value for a
//! name and the order in which names were first seen.

use vstd::prelude::*;

use crate::android_string::{AndroidString, AndroidStringV};
use crate::ops::lookup::{contains_name, first_index_with_name};

verus! {

/// No two records of `s` carry the same name.
pub open spec fn unique_names(s: Seq<AndroidStringV>) -> bool {
    forall|i: int, j: int| 0 <= i < j < s.len() ==> s[i].name != s[j].name
}

/// One record per name: the position of a name is where it was first seen,
/// its record is the last one seen with that name.
pub open spec fn spec_dedup(s: Seq<AndroidStringV>) -> Seq<AndroidStringV>
    decreases s.len(),
{
    if s.len() == 0 {
        Seq::empty()
    } else {
        let rest = spec_dedup(s.drop_last());
        let x = s.last();
        if contains_name(rest, x.name) {
            rest.update(first_index_with_name(rest, x.name), x)
        } else {
            rest.push(x)
        }
    }
}

/// The first index for a contained name is in range, lands on that name,
/// and nothing before it carries the name.
pub proof fn lemma_first_index_in_range(s: Seq<AndroidStringV>, name: Seq<char>)
    requires
        contains_name(s, name),
    ensures
        0 <= first_index_with_name(s, name) < s.len(),
        s[first_index_with_name(s, name)].name == name,
        forall|k: int| 0 <= k < first_index_with_name(s, name) ==> s[k].name != name,
    decreases s.len(),
{
    if s.len() > 0 && s[0].name != name {
        let w = choose|w: int| 0 <= w < s.len() && s[w].name == name;
        assert(s.drop_first()[w - 1].name == name);
        assert(contains_name(s.drop_first(), name));
        lemma_first_index_in_range(s.drop_first(), name);
        assert forall|k: int| 0 <= k < first_index_with_name(s, name) implies s[k].name != name by {
            if k > 0 {
                assert(s.drop_first()[k - 1].name != name);
            }
        }
    }
}

/// A nonempty sequence carries a name exactly when its front part does or
/// its last record does.
pub proof fn lemma_contains_name_snoc(s: Seq<AndroidStringV>, name: Seq<char>)
    requires
        s.len() > 0,
    ensures
        contains_name(s, name) == (contains_name(s.drop_last(), name) || s.last().name == name),
{
    if contains_name(s, name) {
        let w = choose|w: int| 0 <= w < s.len() && s[w].name == name;
        if w < s.len() - 1 {
            assert(s.drop_last()[w].name == name);
        }
    }
    if contains_name(s.drop_last(), name) {
        let w = choose|w: int| 0 <= w < s.drop_last().len() && s.drop_last()[w].name == name;
        assert(s[w].name == name);
    }
    if s.last().name == name {
        assert(s[s.len() - 1].name == name);
    }
}

/// Two sequences with the same names at the same positions carry the same
/// names.
pub proof fn lemma_contains_name_pointwise(
    a: Seq<AndroidStringV>,
    b: Seq<AndroidStringV>,
    name: Seq<char>,
)
    requires
        a.len() == b.len(),
        forall|k: int| 0 <= k < a.len() ==> a[k].name == b[k].name,
    ensures
        contains_name(a, name) == contains_name(b, name),
{
    if contains_name(a, name) {
        let w = choose|w: int| 0 <= w < a.len() && a[w].name == name;
        assert(b[w].name == name);
    }
    if contains_name(b, name) {
        let w = choose|w: int| 0 <= w < b.len() && b[w].name == name;
        assert(a[w].name == name);
    }
}

/// The output of dedup never carries the same name twice, and holds exactly
/// the names of its input.
pub proof fn lemma_dedup_unique_names(s: Seq<AndroidStringV>)
    ensures
        unique_names(spec_dedup(s)),
        forall|name: Seq<char>|
            #[trigger] contains_name(spec_dedup(s), name) == contains_name(s, name),
    decreases s.len(),
{
    if s.len() > 0 {
        lemma_dedup_unique_names(s.drop_last());
        let rest = spec_dedup(s.drop_last());
        let x = s.last();
        let d = spec_dedup(s);
        if contains_name(rest, x.name) {
            lemma_first_index_in_range(rest, x.name);
            let j = first_index_with_name(rest, x.name);
            assert(d == rest.update(j, x));
            assert forall|k: int| 0 <= k < d.len() implies d[k].name == rest[k].name by {
                if k == j {
                    assert(d[k] == x);
                }
            }
            assert(unique_names(d));
            assert forall|name: Seq<char>| #[trigger]
                contains_name(d, name) == contains_name(s, name) by {
                lemma_contains_name_pointwise(d, rest, name);
                lemma_contains_name_snoc(s, name);
                if s.last().name == name && !contains_name(s.drop_last(), name) {
                    assert(contains_name(rest, name));
                }
            }
        } else {
            assert(d == rest.push(x));
            assert(d.drop_last() =~= rest);
            assert(d.last() == x);
            assert forall|i: int, j2: int| 0 <= i < j2 < d.len() implies d[i].name
                != d[j2].name by {
                if j2 == d.len() - 1 {
                    assert(d[i] == rest[i]);
                    assert(!(exists|w: int| 0 <= w < rest.len() && rest[w].name == x.name));
                }
            }
            assert forall|name: Seq<char>| #[trigger]
                contains_name(d, name) == contains_name(s, name) by {
                lemma_contains_name_snoc(d, name);
                lemma_contains_name_snoc(s, name);
            }
        }
    }
}

/// Dedup changes nothing on a sequence whose names are already unique.
pub proof fn lemma_dedup_identity_on_unique(s: Seq<AndroidStringV>)
    requires
        unique_names(s),
    ensures
        spec_dedup(s) == s,
    decreases s.len(),
{
    if s.len() > 0 {
        assert forall|i: int, j: int| 0 <= i < j < s.drop_last().len() implies s.drop_last()[i].name
            != s.drop_last()[j].name by {
            assert(s[i].name != s[j].name);
        }
        lemma_dedup_identity_on_unique(s.drop_last());
        let x = s.last();
        if contains_name(s.drop_last(), x.name) {
            let w = choose|w: int| 0 <= w < s.drop_last().len() && s.drop_last()[w].name == x.name;
            assert(s[w].name == s[s.len() - 1].name);
            assert(false);
        }
        assert(spec_dedup(s) =~= s);
    }
}

/// Dedup idempotence: a second dedup is a no-op, since the first already
/// leaves one record per name.
pub proof fn lemma_dedup_idempotent(s: Seq<AndroidStringV>)
    ensures
        spec_dedup(spec_dedup(s)) == spec_dedup(s),
        unique_names(spec_dedup(s)),
{
    lemma_dedup_unique_names(s);
    lemma_dedup_identity_on_unique(spec_dedup(s));
}

/// Collapses duplicate names in `strings`: one record per name, at the
/// position the name was first seen, carrying the last record seen with
/// that name.
pub fn dedup_grouped_strings(strings: Vec<AndroidString>) -> (r: Vec<AndroidString>)
    ensures
        r.deep_view() == spec_dedup(strings.deep_view()),
{
    let ghost all = strings.deep_view();
    let mut r: Vec<AndroidString> = Vec::new();
    let mut i: usize = 0;
    while i < strings.len()
        invariant
            i <= strings.len(),
            all == strings.deep_view(),
            r.deep_view() == spec_dedup(all.take(i as int)),
        decreases strings.len() - i,
    {
        let ghost prev = r.deep_view();
        match crate::ops::lookup::position_with_name(&r, strings[i].name()) {
            Some(j) => {
                r.remove(j);
                r.insert(j, strings[i].clone());
                proof {
                    assert(r.deep_view() =~= prev.update(j as int, all[i as int]));
                }
            },
            None => {
                r.push(strings[i].clone());
                proof {
                    assert(r.deep_view() =~= prev.push(all[i as int]));
                }
            },
        }
        proof {
            assert(all.take(i + 1int).drop_last() =~= all.take(i as int));
            assert(all.take(i + 1int).last() == all[i as int]);
        }
        i = i + 1;
    }
    proof {
        assert(all.take(strings.len() as int) =~= all);
    }
    r
}

} // verus!
