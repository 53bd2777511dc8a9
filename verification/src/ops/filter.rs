//! Stage one of reconciliation: keep only the records that may be sent out
//! for translation. Applied to the default-locale collection to form the
//! canonical pool; records are passed through untouched or removed, never
//! altered.

use vstd::prelude::*;

use crate::android_string::{AndroidString, AndroidStringV};

verus! {

/// The subsequence of `s` made of its translatable records, in order.
pub open spec fn spec_filter_translatable(s: Seq<AndroidStringV>) -> Seq<AndroidStringV>
    decreases s.len(),
{
    if s.len() == 0 {
        Seq::empty()
    } else {
        let rest = spec_filter_translatable(s.drop_last());
        if s.last().translatable {
            rest.push(s.last())
        } else {
            rest
        }
    }
}

/// Keeps the translatable records of `strings`, in their original order,
/// each unchanged.
pub fn find_translatable_strings(strings: Vec<AndroidString>) -> (r: Vec<AndroidString>)
    ensures
        r.deep_view() == spec_filter_translatable(strings.deep_view()),
{
    let ghost all = strings.deep_view();
    let mut r: Vec<AndroidString> = Vec::new();
    let mut i: usize = 0;
    while i < strings.len()
        invariant
            i <= strings.len(),
            all == strings.deep_view(),
            r.deep_view() == spec_filter_translatable(all.take(i as int)),
        decreases strings.len() - i,
    {
        let ghost prev = r.deep_view();
        if strings[i].is_translatable() {
            r.push(strings[i].clone());
            proof {
                assert(r.deep_view() =~= prev.push(all[i as int]));
            }
        }
        proof {
            assert(all.take(i + 1int).drop_last() =~= all.take(i as int));
            assert(all.take(i + 1int).last() == all[i as int]);
        }
        i = i + 1;
    }
    proof {
        assert(all.take(strings.len() as int) =~= all);
    }
    r
}

/// Every record that filtering keeps is a record of the input, and is
/// translatable.
pub proof fn lemma_filter_keeps_records(s: Seq<AndroidStringV>)
    ensures
        forall|i: int|
            0 <= i < spec_filter_translatable(s).len() ==> s.contains(
                #[trigger] spec_filter_translatable(s)[i],
            ) && spec_filter_translatable(s)[i].translatable,
    decreases s.len(),
{
    if s.len() > 0 {
        lemma_filter_keeps_records(s.drop_last());
        assert forall|i: int| 0 <= i < spec_filter_translatable(s).len() implies s.contains(
            #[trigger] spec_filter_translatable(s)[i],
        ) && spec_filter_translatable(s)[i].translatable by {
            let x = spec_filter_translatable(s)[i];
            if s.last().translatable && i == spec_filter_translatable(s).len() - 1 {
                assert(x == s.last());
                assert(s[s.len() - 1] == x);
            } else {
                assert(x == spec_filter_translatable(s.drop_last())[i]);
                assert(s.drop_last().contains(x));
                let j = choose|j: int| 0 <= j < s.drop_last().len() && s.drop_last()[j] == x;
                assert(s[j] == x);
            }
        }
    }
}

/// Filtering a sequence of translatable records changes nothing.
pub proof fn lemma_filter_identity_on_translatable(s: Seq<AndroidStringV>)
    requires
        forall|i: int| 0 <= i < s.len() ==> s[i].translatable,
    ensures
        spec_filter_translatable(s) == s,
    decreases s.len(),
{
    if s.len() > 0 {
        lemma_filter_identity_on_translatable(s.drop_last());
        assert(spec_filter_translatable(s) =~= s);
    }
}

/// Filter purity: filtering never changes a kept record, and filtering
/// twice is the same as filtering once.
pub proof fn lemma_filter_purity(s: Seq<AndroidStringV>)
    ensures
        spec_filter_translatable(spec_filter_translatable(s)) == spec_filter_translatable(s),
        forall|i: int|
            0 <= i < spec_filter_translatable(s).len() ==> s.contains(
                #[trigger] spec_filter_translatable(s)[i],
            ) && spec_filter_translatable(s)[i].translatable,
{
    lemma_filter_keeps_records(s);
    lemma_filter_identity_on_translatable(spec_filter_translatable(s));
}

} // verus!
