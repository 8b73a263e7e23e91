//! Named entries: what a module of a router holds under names.

use vstd::prelude::*;

verus! {

/// A named item: a handler or a submodule under its name.
pub(crate) struct Entry<T> {
    pub(crate) name: String,
    pub(crate) item: T,
}

/// What `entries` holds under `name`, if anything.
pub(crate) open spec fn entry_of<T>(entries: Seq<Entry<T>>, name: Seq<char>) -> Option<T> {
    if exists|k: int| 0 <= k < entries.len() && entries[k].name@ == name {
        let k = choose|k: int| 0 <= k < entries.len() && entries[k].name@ == name;
        Some(entries[k].item)
    } else {
        None
    }
}

/// No two of `entries` share a name.
pub(crate) open spec fn distinct_names<T>(entries: Seq<Entry<T>>) -> bool {
    forall|a: int, b: int|
        0 <= a < b < entries.len() ==> (#[trigger] entries[a]).name@ != (
        #[trigger] entries[b]).name@
}

/// Under distinct names, the entry at `i` is the one found under its name.
pub(crate) proof fn lemma_entry_at<T>(entries: Seq<Entry<T>>, i: int)
    requires
        distinct_names(entries),
        0 <= i < entries.len(),
    ensures
        entry_of(entries, entries[i].name@) == Some(entries[i].item),
{
    let name = entries[i].name@;
    let k = choose|k: int| 0 <= k < entries.len() && entries[k].name@ == name;
    if k < i {
        assert(entries[k].name@ != entries[i].name@);
    } else if i < k {
        assert(entries[i].name@ != entries[k].name@);
    }
}

/// Without an entry under `name`, no entry bears it.
pub(crate) proof fn lemma_entry_none<T>(entries: Seq<Entry<T>>, name: Seq<char>)
    requires
        entry_of(entries, name) is None,
    ensures
        forall|k: int| 0 <= k < entries.len() ==> (#[trigger] entries[k]).name@ != name,
{
}

/// Adding an entry under a new name changes what stands under that name
/// and nothing else.
pub(crate) proof fn lemma_entry_push<T>(entries: Seq<Entry<T>>, entry: Entry<T>)
    requires
        distinct_names(entries),
        entry_of(entries, entry.name@) is None,
    ensures
        distinct_names(entries.push(entry)),
        forall|name: Seq<char>| #[trigger]
            entry_of(entries.push(entry), name) == if name == entry.name@ {
                Some(entry.item)
            } else {
                entry_of(entries, name)
            },
{
    let grown = entries.push(entry);
    lemma_entry_none(entries, entry.name@);
    assert(distinct_names(grown));
    assert forall|name: Seq<char>| #[trigger]
        entry_of(grown, name) == if name == entry.name@ {
            Some(entry.item)
        } else {
            entry_of(entries, name)
        } by {
        if name == entry.name@ {
            lemma_entry_at(grown, entries.len() as int);
        } else if entry_of(entries, name) is Some {
            let k = choose|k: int| 0 <= k < entries.len() && entries[k].name@ == name;
            lemma_entry_at(entries, k);
            assert(grown[k] == entries[k]);
            lemma_entry_at(grown, k);
        } else {
            lemma_entry_none(entries, name);
            if entry_of(grown, name) is Some {
                let k = choose|k: int| 0 <= k < grown.len() && grown[k].name@ == name;
                assert(grown[k] == entries[k]);
            }
        }
    }
}

/// Replacing the item of one entry changes what stands under that entry's
/// name and nothing else.
pub(crate) proof fn lemma_entry_update<T>(entries: Seq<Entry<T>>, at: int, changed: Entry<T>)
    requires
        distinct_names(entries),
        0 <= at < entries.len(),
        changed.name@ == entries[at].name@,
    ensures
        distinct_names(entries.update(at, changed)),
        forall|name: Seq<char>| #[trigger]
            entry_of(entries.update(at, changed), name) == if name == changed.name@ {
                Some(changed.item)
            } else {
                entry_of(entries, name)
            },
{
    let after = entries.update(at, changed);
    assert(distinct_names(after)) by {
        assert forall|a: int, b: int| 0 <= a < b < after.len() implies (#[trigger] after[a]).name@
            != (#[trigger] after[b]).name@ by {
            assert(after[a].name@ == entries[a].name@);
            assert(after[b].name@ == entries[b].name@);
        }
    }
    assert forall|name: Seq<char>| #[trigger]
        entry_of(after, name) == if name == changed.name@ {
            Some(changed.item)
        } else {
            entry_of(entries, name)
        } by {
        if name == changed.name@ {
            lemma_entry_at(after, at);
        } else if entry_of(entries, name) is Some {
            let k = choose|k: int| 0 <= k < entries.len() && entries[k].name@ == name;
            lemma_entry_at(entries, k);
            assert(after[k] == entries[k]);
            lemma_entry_at(after, k);
        } else {
            lemma_entry_none(entries, name);
            if entry_of(after, name) is Some {
                let k = choose|k: int| 0 <= k < after.len() && after[k].name@ == name;
                assert(after[k].name@ == entries[k].name@);
            }
        }
    }
}

/// The first position of `name` among `entries`.
pub(crate) fn position<T>(entries: &Vec<Entry<T>>, name: &String) -> (at: Option<usize>)
    ensures
        match at {
            Some(i) => i < entries.len() && entries[i as int].name@ == name@ && forall|k: int|
                0 <= k < i ==> entries[k].name@ != name@,
            None => forall|k: int| 0 <= k < entries.len() ==> entries[k].name@ != name@,
        },
{
    let mut i: usize = 0;
    while i < entries.len()
        invariant
            i <= entries.len(),
            forall|k: int| 0 <= k < i ==> entries[k].name@ != name@,
        decreases entries.len() - i,
    {
        if entries[i].name == *name {
            return Some(i);
        }
        i += 1;
    }
    None
}

} // verus!
