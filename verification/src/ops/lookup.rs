//! Shared lookups over record sequences: the first record carrying a given
//! name, and the first record carrying a given default-locale value.

use vstd::prelude::*;

use crate::android_string::{AndroidString, AndroidStringV};

verus! {

/// Whether some record in `s` carries `name`.
pub open spec fn contains_name(s: Seq<AndroidStringV>, name: Seq<char>) -> bool {
    exists|i: int| 0 <= i < s.len() && s[i].name == name
}

/// Whether some record in `s` carries `value`.
pub open spec fn contains_value(s: Seq<AndroidStringV>, value: Seq<char>) -> bool {
    exists|i: int| 0 <= i < s.len() && s[i].value == value
}

/// Index of the first record in `s` whose name is `name`; `s.len()` when
/// there is none.
pub open spec fn first_index_with_name(s: Seq<AndroidStringV>, name: Seq<char>) -> int
    decreases s.len(),
{
    if s.len() == 0 {
        0
    } else if s[0].name == name {
        0
    } else {
        1 + first_index_with_name(s.drop_first(), name)
    }
}

/// Index of the first record in `s` whose value is `value`; `s.len()` when
/// there is none.
pub open spec fn first_index_with_value(s: Seq<AndroidStringV>, value: Seq<char>) -> int
    decreases s.len(),
{
    if s.len() == 0 {
        0
    } else if s[0].value == value {
        0
    } else {
        1 + first_index_with_value(s.drop_first(), value)
    }
}

/// The first record in `s` whose name is `name` (meaningful only when
/// `contains_name(s, name)` holds).
pub open spec fn first_with_name(s: Seq<AndroidStringV>, name: Seq<char>) -> AndroidStringV {
    s[first_index_with_name(s, name)]
}

/// When a record with `name` exists, `first_index_with_name` lands on the
/// earliest of them.
pub proof fn lemma_first_index_with_name(s: Seq<AndroidStringV>, name: Seq<char>, j: int)
    requires
        0 <= j < s.len(),
        s[j].name == name,
        forall|k: int| 0 <= k < j ==> s[k].name != name,
    ensures
        first_index_with_name(s, name) == j,
    decreases j,
{
    if j > 0 {
        assert forall|k: int| 0 <= k < j - 1 implies s.drop_first()[k].name != name by {
            assert(s.drop_first()[k] == s[k + 1]);
        }
        lemma_first_index_with_name(s.drop_first(), name, j - 1);
    }
}

/// Same as `lemma_first_index_with_name`, for values.
pub proof fn lemma_first_index_with_value(s: Seq<AndroidStringV>, value: Seq<char>, j: int)
    requires
        0 <= j < s.len(),
        s[j].value == value,
        forall|k: int| 0 <= k < j ==> s[k].value != value,
    ensures
        first_index_with_value(s, value) == j,
    decreases j,
{
    if j > 0 {
        assert forall|k: int| 0 <= k < j - 1 implies s.drop_first()[k].value != value by {
            assert(s.drop_first()[k] == s[k + 1]);
        }
        lemma_first_index_with_value(s.drop_first(), value, j - 1);
    }
}

/// Position of the first record in `strings` carrying `name`, if any.
pub fn position_with_name(strings: &Vec<AndroidString>, name: &str) -> (p: Option<usize>)
    ensures
        match p {
            Some(j) => {
                &&& j < strings.len()
                &&& strings.deep_view()[j as int].name == name@
                &&& first_index_with_name(strings.deep_view(), name@) == j
                &&& contains_name(strings.deep_view(), name@)
            },
            None => !contains_name(strings.deep_view(), name@),
        },
{
    let key: String = name.to_owned();
    let mut j: usize = 0;
    while j < strings.len()
        invariant
            j <= strings.len(),
            key@ == name@,
            forall|k: int| 0 <= k < j ==> strings.deep_view()[k].name != name@,
        decreases strings.len() - j,
    {
        if strings[j].name_equals(&key) {
            proof {
                lemma_first_index_with_name(strings.deep_view(), name@, j as int);
            }
            return Some(j);
        }
        j = j + 1;
    }
    None
}

/// Position of the first record in `strings` whose value is `value`, if any.
pub fn position_with_value(strings: &Vec<AndroidString>, value: &str) -> (p: Option<usize>)
    ensures
        match p {
            Some(j) => {
                &&& j < strings.len()
                &&& strings.deep_view()[j as int].value == value@
                &&& first_index_with_value(strings.deep_view(), value@) == j
                &&& contains_value(strings.deep_view(), value@)
            },
            None => !contains_value(strings.deep_view(), value@),
        },
{
    let key: String = value.to_owned();
    let mut j: usize = 0;
    while j < strings.len()
        invariant
            j <= strings.len(),
            key@ == value@,
            forall|k: int| 0 <= k < j ==> strings.deep_view()[k].value != value@,
        decreases strings.len() - j,
    {
        if strings[j].value_equals(&key) {
            proof {
                lemma_first_index_with_value(strings.deep_view(), value@, j as int);
            }
            return Some(j);
        }
        j = j + 1;
    }
    None
}

} // verus!
