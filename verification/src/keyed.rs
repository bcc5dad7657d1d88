//! Sequences of named entries in which a name is looked up by its first
//! occurrence.

use vstd::prelude::*;
use crate::text::same_text;

verus! {

/// The first position from `from` on that holds `name`; the length of the
/// sequence where none does.
pub open spec fn position<T>(entries: Seq<(Seq<char>, T)>, name: Seq<char>, from: int) -> int
    decreases entries.len() - from,
{
    if from < 0 || from >= entries.len() || entries[from].0 == name {
        from
    } else {
        position(entries, name, from + 1)
    }
}

/// Whether some entry holds `name`.
pub open spec fn has_name<T>(entries: Seq<(Seq<char>, T)>, name: Seq<char>) -> bool {
    0 <= position(entries, name, 0) < entries.len()
}

/// What stands under `name`, if an entry holds the name.
pub open spec fn lookup<T>(entries: Seq<(Seq<char>, T)>, name: Seq<char>) -> Option<T> {
    if has_name(entries, name) {
        Some(entries[position(entries, name, 0)].1)
    } else {
        None
    }
}

/// The entries with `item` under `name`: in the place of the name's earlier
/// item where it had one, at the end where it had none.
pub open spec fn put<T>(entries: Seq<(Seq<char>, T)>, name: Seq<char>, item: T) -> Seq<
    (Seq<char>, T),
> {
    if has_name(entries, name) {
        entries.update(position(entries, name, 0), (name, item))
    } else {
        entries.push((name, item))
    }
}

/// Whether no name occurs twice.
pub open spec fn distinct_names<T>(entries: Seq<(Seq<char>, T)>) -> bool {
    forall|i: int, j: int| 0 <= i < j < entries.len() ==> entries[i].0 != entries[j].0
}

/// `position` finds a name's first occurrence: it lies within the sequence
/// or at its end, no earlier entry holds the name, and the entry there does.
pub proof fn position_is_first<T>(entries: Seq<(Seq<char>, T)>, name: Seq<char>, from: int)
    requires
        0 <= from <= entries.len(),
    ensures
        from <= position(entries, name, from) <= entries.len(),
        forall|k: int| from <= k < position(entries, name, from) ==> entries[k].0 != name,
        position(entries, name, from) < entries.len() ==> entries[position(
            entries,
            name,
            from,
        )].0 == name,
    decreases entries.len() - from,
{
    if from < entries.len() && entries[from].0 != name {
        position_is_first(entries, name, from + 1);
    }
}

/// An item that was put under a name is found under it, and what stands
/// under other names stays as it was.
pub proof fn put_then_lookup<T>(
    entries: Seq<(Seq<char>, T)>,
    name: Seq<char>,
    item: T,
    other: Seq<char>,
)
    ensures
        lookup(put(entries, name, item), name) == Some(item),
        other != name ==> lookup(put(entries, name, item), other) == lookup(entries, other),
{
    let after = put(entries, name, item);
    position_is_first(entries, name, 0);
    position_is_first(after, name, 0);
    position_is_first(entries, other, 0);
    position_is_first(after, other, 0);
    let at = position(entries, name, 0);
    if at < entries.len() {
        assert(after[at].0 == name);
    } else {
        assert(after[entries.len() as int].0 == name);
    }
    if other != name {
        let p = position(entries, other, 0);
        let q = position(after, other, 0);
        if p < entries.len() {
            assert(after[p].0 == other);
        }
        if q < after.len() {
            assert(q < entries.len());
            assert(entries[q].0 == other);
        }
    }
}

/// Putting an item into entries without repeated names leaves them without
/// repeated names.
pub proof fn put_keeps_names_distinct<T>(entries: Seq<(Seq<char>, T)>, name: Seq<char>, item: T)
    requires
        distinct_names(entries),
    ensures
        distinct_names(put(entries, name, item)),
{
    position_is_first(entries, name, 0);
}

/// Named items as names with what the items stand for.
pub open spec fn entry_views<T: View>(entries: Seq<(String, T)>) -> Seq<(Seq<char>, T::V)> {
    Seq::new(entries.len(), |i: int| (entries[i].0@, entries[i].1@))
}

/// The first position that holds `name`; the number of entries where none
/// does.
pub fn find_name<T: View>(entries: &Vec<(String, T)>, name: &str) -> (at: usize)
    ensures
        at == position(entry_views(entries@), name@, 0),
        at <= entries@.len(),
{
    let mut i: usize = 0;
    while i < entries.len()
        invariant
            i <= entries@.len(),
            position(entry_views(entries@), name@, 0) == position(
                entry_views(entries@),
                name@,
                i as int,
            ),
        decreases entries@.len() - i,
    {
        if same_text(entries[i].0.as_str(), name) {
            return i;
        }
        i = i + 1;
    }
    i
}

} // verus!
