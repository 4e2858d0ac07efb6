//! Lists of named entries: shapes, bindings and fields are kept in the
//! order in which they were given, each under a name of its own.

use vstd::prelude::*;

verus! {

/// The first index at or after `from` whose key is `key`.
pub open spec fn find_from<V>(entries: Seq<(Seq<char>, V)>, key: Seq<char>, from: int) -> Option<int>
    decreases entries.len() - from,
{
    if from < 0 || from >= entries.len() {
        None
    } else if entries[from].0 == key {
        Some(from)
    } else {
        find_from(entries, key, from + 1)
    }
}

/// The first index whose key is `key`.
pub open spec fn find<V>(entries: Seq<(Seq<char>, V)>, key: Seq<char>) -> Option<int> {
    find_from(entries, key, 0)
}

/// No key occurs twice.
pub open spec fn distinct_keys<V>(entries: Seq<(Seq<char>, V)>) -> bool {
    forall|i: int, j: int|
        0 <= i < j < entries.len() ==> (#[trigger] entries[i]).0 != (#[trigger] entries[j]).0
}

/// What `find_from` returns is the least matching index at or after `from`.
pub proof fn lemma_find_from<V>(entries: Seq<(Seq<char>, V)>, key: Seq<char>, from: int)
    requires
        0 <= from,
    ensures
        match find_from(entries, key, from) {
            Some(i) => from <= i < entries.len() && entries[i].0 == key && forall|j: int|
                from <= j < i ==> (#[trigger] entries[j]).0 != key,
            None => forall|j: int| from <= j < entries.len() ==> (#[trigger] entries[j]).0 != key,
        },
    decreases entries.len() - from,
{
    if from < entries.len() && entries[from].0 != key {
        lemma_find_from(entries, key, from + 1);
    }
}

/// `str`'s `==`: two strings are equal when they hold the same characters.
pub assume_specification[ <str as PartialEq>::eq ](a: &str, b: &str) -> (equal: bool)
    ensures
        equal == (a@ == b@),
;

/// Whether two strings hold the same characters.
pub fn same_text(a: &str, b: &str) -> (equal: bool)
    ensures
        equal == (a@ == b@),
{
    a.eq(b)
}

/// The model of a list of entries holds, at each index, the models of that
/// entry's key and value.
pub proof fn lemma_entry_view<V: DeepView>(entries: Vec<(String, V)>, i: int)
    requires
        0 <= i < entries.len(),
    ensures
        entries.deep_view().len() == entries.len(),
        entries.deep_view()[i].0 == entries[i].0@,
        entries.deep_view()[i].1 == entries[i].1.deep_view(),
{
    let view = entries.deep_view();
    assert(view.len() == entries@.len());
    assert(view[i] == entries@[i].deep_view());
    assert(entries@[i].deep_view().0 == entries@[i].0.deep_view());
}

/// The index of the first entry under `key`, if there is one.
pub fn lookup<V: DeepView>(entries: &Vec<(String, V)>, key: &str) -> (found: Option<usize>)
    ensures
        found.is_some() == find(entries.deep_view(), key@).is_some(),
        found matches Some(i) ==> i < entries.len() && find(entries.deep_view(), key@) == Some(
            i as int,
        ),
{
    let mut i: usize = 0;
    while i < entries.len()
        invariant
            i <= entries.len(),
            find(entries.deep_view(), key@) == find_from(entries.deep_view(), key@, i as int),
        decreases entries.len() - i,
    {
        proof {
            lemma_entry_view(*entries, i as int);
        }
        if same_text(entries[i].0.as_str(), key) {
            return Some(i);
        }
        i += 1;
    }
    None
}

/// Whether no key occurs twice.
pub fn has_distinct_keys<V: DeepView>(entries: &Vec<(String, V)>) -> (distinct: bool)
    ensures
        distinct == distinct_keys(entries.deep_view()),
{
    let ghost view = entries.deep_view();
    let mut j: usize = 0;
    while j < entries.len()
        invariant
            j <= entries.len(),
            view == entries.deep_view(),
            forall|a: int, b: int| 0 <= a < b < j ==> (#[trigger] view[a]).0 != (#[trigger] view[b]).0,
        decreases entries.len() - j,
    {
        let mut i: usize = 0;
        while i < j
            invariant
                i <= j < entries.len(),
                view == entries.deep_view(),
                forall|a: int| 0 <= a < i ==> (#[trigger] view[a]).0 != view[j as int].0,
            decreases j - i,
        {
            proof {
                lemma_entry_view(*entries, i as int);
                lemma_entry_view(*entries, j as int);
            }
            if same_text(entries[i].0.as_str(), entries[j].0.as_str()) {
                assert(view[i as int].0 == view[j as int].0);
                return false;
            }
            i += 1;
        }
        j += 1;
    }
    true
}

/// An entry pushed at the end changes no earlier answer of `find`.
pub proof fn lemma_find_push<V>(entries: Seq<(Seq<char>, V)>, entry: (Seq<char>, V), key: Seq<char>)
    ensures
        find(entries, key) is Some ==> find(entries.push(entry), key) == find(entries, key),
        find(entries, key) is None && entry.0 == key ==> find(entries.push(entry), key) == Some(
            entries.len() as int,
        ),
        find(entries, key) is None && entry.0 != key ==> find(entries.push(entry), key) is None,
{
    lemma_find_push_from(entries, entry, key, 0);
}

proof fn lemma_find_push_from<V>(
    entries: Seq<(Seq<char>, V)>,
    entry: (Seq<char>, V),
    key: Seq<char>,
    from: int,
)
    requires
        0 <= from <= entries.len(),
    ensures
        find_from(entries, key, from) is Some ==> find_from(entries.push(entry), key, from)
            == find_from(entries, key, from),
        find_from(entries, key, from) is None && entry.0 == key ==> find_from(
            entries.push(entry),
            key,
            from,
        ) == Some(entries.len() as int),
        find_from(entries, key, from) is None && entry.0 != key ==> find_from(
            entries.push(entry),
            key,
            from,
        ) is None,
    decreases entries.len() - from,
{
    let pushed = entries.push(entry);
    if from < entries.len() {
        assert(pushed[from] == entries[from]);
        if entries[from].0 != key {
            lemma_find_push_from(entries, entry, key, from + 1);
        }
    } else {
        assert(pushed[from] == entry);
        assert(find_from(pushed, key, from + 1) is None);
    }
}

/// A new value under a key that an entry already has changes no answer of
/// `find`.
pub proof fn lemma_find_update<V>(entries: Seq<(Seq<char>, V)>, i: int, value: V, key: Seq<char>)
    requires
        0 <= i < entries.len(),
    ensures
        find(entries.update(i, (entries[i].0, value)), key) == find(entries, key),
{
    lemma_find_update_from(entries, i, value, key, 0);
}

proof fn lemma_find_update_from<V>(
    entries: Seq<(Seq<char>, V)>,
    i: int,
    value: V,
    key: Seq<char>,
    from: int,
)
    requires
        0 <= i < entries.len(),
        0 <= from,
    ensures
        find_from(entries.update(i, (entries[i].0, value)), key, from) == find_from(
            entries,
            key,
            from,
        ),
    decreases entries.len() - from,
{
    if from < entries.len() {
        lemma_find_update_from(entries, i, value, key, from + 1);
    }
}

} // verus!
