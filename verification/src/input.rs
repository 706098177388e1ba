//! What a user hands over when creating a component: keys and values given
//! side by side, or variables picked from a list of labels.

use crate::config::ConfigError;
use vstd::prelude::*;
use vstd::string::StrSliceExecFns;
use vstd::string::StringExecFns;

verus! {

/// The pairs of the keys with the values at the same place.
pub open spec fn paired(keys: Seq<Seq<char>>, values: Seq<Seq<char>>) -> Seq<
    (Seq<char>, Seq<char>),
>
    recommends
        keys.len() == values.len(),
{
    Seq::new(keys.len(), |i: int| (keys[i], values[i]))
}

/// Pairs each key with the value at the same place. With neither keys nor
/// values there is nothing to create; with different numbers of them the
/// pairs are not defined.
pub fn pair_keys_values(keys: Vec<String>, values: Vec<String>) -> (result: Result<
    Vec<(String, String)>,
    ConfigError,
>)
    ensures
        keys.len() == 0 && values.len() == 0 ==> result is Err && result->Err_0
            == ConfigError::EmptyInput,
        keys.len() != values.len() ==> result is Err && result->Err_0
            == ConfigError::ArityMismatch,
        keys.len() == values.len() && keys.len() > 0 ==> result is Ok
            && result->Ok_0.deep_view() == paired(keys.deep_view(), values.deep_view()),
{
    if keys.len() == 0 && values.len() == 0 {
        return Err(ConfigError::EmptyInput);
    }
    if keys.len() != values.len() {
        return Err(ConfigError::ArityMismatch);
    }
    let mut key_values: Vec<(String, String)> = Vec::new();
    let mut i: usize = 0;
    while i < keys.len()
        invariant
            i <= keys.len(),
            keys.len() == values.len(),
            key_values.len() == i,
            forall|k: int|
                0 <= k < i ==> (#[trigger] key_values[k]).deep_view() == (keys[k]@, values[k]@),
        decreases keys.len() - i,
    {
        key_values.push((keys[i].clone(), values[i].clone()));
        i = i + 1;
    }
    Ok(key_values)
}

/// Whether the separator of a label, a colon and a space, stands at `i`.
pub open spec fn separator_at(label: Seq<char>, i: int) -> bool {
    0 <= i && i + 1 < label.len() && label[i] == ':' && label[i + 1] == ' '
}

/// Whether `label` holds a separator.
pub open spec fn has_separator(label: Seq<char>) -> bool {
    exists|i: int| separator_at(label, i)
}

/// Whether the first separator of `label` stands at `i`.
pub open spec fn is_first_separator(label: Seq<char>, i: int) -> bool {
    separator_at(label, i) && forall|j: int| j < i ==> !separator_at(label, j)
}

/// Whether the last separator of `label` stands at `i`.
pub open spec fn is_last_separator(label: Seq<char>, i: int) -> bool {
    separator_at(label, i) && forall|j: int| j > i ==> !separator_at(label, j)
}

/// The label under which a variable is offered for selection.
pub open spec fn label_of(key: Seq<char>, value: Seq<char>) -> Seq<char> {
    key + seq![':', ' '] + value
}

/// The key that a label names: what stands before its first separator, or
/// the whole label where it has none.
pub open spec fn label_key(label: Seq<char>) -> Seq<char> {
    if has_separator(label) {
        label.take(choose|i: int| is_first_separator(label, i))
    } else {
        label
    }
}

/// The value that a label names: what stands behind its last separator, or
/// the whole label where it has none.
pub open spec fn label_value(label: Seq<char>) -> Seq<char> {
    if has_separator(label) {
        label.skip((choose|i: int| is_last_separator(label, i)) + 2)
    } else {
        label
    }
}

/// A label names the key and the value that it was made of, provided that
/// neither of them holds a separator of its own.
pub proof fn lemma_label_names_its_parts(key: Seq<char>, value: Seq<char>)
    requires
        !has_separator(key),
        !has_separator(value),
    ensures
        label_key(label_of(key, value)) == key,
        label_value(label_of(key, value)) == value,
{
    let label = label_of(key, value);
    let at = key.len() as int;
    assert forall|j: int| j != at implies !separator_at(label, j) by {
        if separator_at(label, j) {
            if j + 1 < at {
                assert(separator_at(key, j));
            } else if j > at + 1 {
                assert(separator_at(value, j - at - 2));
            }
        }
    }
    assert(is_first_separator(label, at));
    assert(is_last_separator(label, at));
}

/// The label for the variable `key` with the value `value`.
pub fn variable_label(key: &str, value: &str) -> (label: String)
    ensures
        label@ == label_of(key@, value@),
{
    proof {
        reveal_strlit(": ");
    }
    let mut label = String::from_str(key);
    label.append(": ");
    label.append(value);
    label
}

/// Takes a label apart into the key and the value that it names.
pub fn split_label(label: &str) -> (pair: (String, String))
    ensures
        pair.0@ == label_key(label@),
        pair.1@ == label_value(label@),
{
    let len = label.unicode_len();
    let mut previous_colon = false;
    let mut seen = false;
    let mut first: usize = 0;
    let mut last: usize = 0;
    let mut at: usize = 0;
    for c in it: label.chars()
        invariant
            it.seq() == label@,
            len == label@.len(),
            at == it.index(),
            previous_colon == (at > 0 && label@[at - 1] == ':'),
            seen ==> separator_at(label@, first as int) && separator_at(label@, last as int)
                && last + 1 < at,
            seen ==> forall|j: int| j < first ==> !separator_at(label@, j),
            seen ==> forall|j: int| last < j && j + 1 < at ==> !separator_at(label@, j),
            !seen ==> forall|j: int| j + 1 < at ==> !separator_at(label@, j),
    {
        if previous_colon && c == ' ' {
            if !seen {
                seen = true;
                first = at - 1;
            }
            last = at - 1;
        }
        previous_colon = c == ':';
        at = at + 1;
    }
    if seen {
        proof {
            assert(is_first_separator(label@, first as int));
            assert(is_last_separator(label@, last as int));
        }
        let key = String::from_str(label.substring_char(0, first));
        let value = String::from_str(label.substring_char(last + 2, len));
        (key, value)
    } else {
        (String::from_str(label), String::from_str(label))
    }
}

/// The pairs of key and value that the chosen labels name, in their order.
pub open spec fn pairs_of_labels(labels: Seq<Seq<char>>) -> Seq<(Seq<char>, Seq<char>)> {
    labels.map_values(|label: Seq<char>| (label_key(label), label_value(label)))
}

/// The pairs of key and value that the chosen labels name. With no label
/// chosen there is nothing to create.
pub fn pairs_from_labels(labels: Vec<String>) -> (result: Result<
    Vec<(String, String)>,
    ConfigError,
>)
    ensures
        labels.len() == 0 ==> result is Err && result->Err_0 == ConfigError::EmptyInput,
        labels.len() > 0 ==> result is Ok && result->Ok_0.deep_view() == pairs_of_labels(
            labels.deep_view(),
        ),
{
    if labels.len() == 0 {
        return Err(ConfigError::EmptyInput);
    }
    let mut key_values: Vec<(String, String)> = Vec::new();
    let mut i: usize = 0;
    while i < labels.len()
        invariant
            i <= labels.len(),
            key_values.len() == i,
            forall|k: int|
                0 <= k < i ==> (#[trigger] key_values[k]).deep_view() == (
                    label_key(labels[k]@),
                    label_value(labels[k]@),
                ),
        decreases labels.len() - i,
    {
        key_values.push(split_label(labels[i].as_str()));
        i = i + 1;
    }
    Ok(key_values)
}

} // verus!
