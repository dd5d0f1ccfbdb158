//! The approvals that are pending: who waits for a person's decision, under
//! which id.

use vstd::prelude::*;

use crate::text::same;

verus! {

/// What waits for a decision, by the id of the approval. Each id is there once.
#[derive(Debug)]
pub struct Approvals<T> {
    entries: Vec<(String, T)>,
}

/// Whether no two entries have the same id.
spec fn ids_differ<T>(entries: Seq<(String, T)>) -> bool {
    forall|i: int, j: int|
        0 <= i < j < entries.len() ==> (#[trigger] entries[i]).0@ != (#[trigger] entries[j]).0@
}

/// Where an id stands among the entries.
spec fn has_id<T>(entries: Seq<(String, T)>, i: int, id: Seq<char>) -> bool {
    0 <= i < entries.len() && entries[i].0@ == id
}

/// The map that the entries make up.
spec fn entries_map<T>(entries: Seq<(String, T)>) -> Map<Seq<char>, T> {
    Map::new(
        |id: Seq<char>| exists|i: int| has_id(entries, i, id),
        |id: Seq<char>| entries[choose|i: int| has_id(entries, i, id)].1,
    )
}

/// The entry at `i` is what the map has under its id.
proof fn lemma_entry<T>(entries: Seq<(String, T)>, i: int)
    requires
        ids_differ(entries),
        0 <= i < entries.len(),
    ensures
        entries_map(entries).contains_key(entries[i].0@),
        entries_map(entries)[entries[i].0@] == entries[i].1,
{
    let id = entries[i].0@;
    assert(has_id(entries, i, id));
    let k = choose|k: int| has_id(entries, k, id);
    assert(k == i) by {
        if k < i {
            assert(entries[k].0@ != entries[i].0@);
        } else if i < k {
            assert(entries[i].0@ != entries[k].0@);
        }
    }
}

/// To take out the entry at `i` is to take its id out of the map.
proof fn lemma_removed<T>(entries: Seq<(String, T)>, i: int)
    requires
        ids_differ(entries),
        0 <= i < entries.len(),
    ensures
        ids_differ(entries.remove(i)),
        entries_map(entries.remove(i)) == entries_map(entries).remove(entries[i].0@),
{
    let rest = entries.remove(i);
    let gone = entries[i].0@;
    assert forall|a: int, b: int| 0 <= a < b < rest.len() implies (#[trigger] rest[a]).0@ != (
    #[trigger] rest[b]).0@ by {
        let a2 = if a < i {
            a
        } else {
            a + 1
        };
        let b2 = if b < i {
            b
        } else {
            b + 1
        };
        assert(rest[a] == entries[a2]);
        assert(rest[b] == entries[b2]);
    }
    let whole = entries_map(entries).remove(gone);
    assert forall|id: Seq<char>| entries_map(rest).contains_key(id) == whole.contains_key(id) by {
        if entries_map(rest).contains_key(id) {
            let k = choose|k: int| has_id(rest, k, id);
            let k2 = if k < i {
                k
            } else {
                k + 1
            };
            assert(rest[k] == entries[k2]);
            lemma_entry(entries, k2);
            if k2 < i {
                assert(entries[k2].0@ != entries[i].0@);
            } else {
                assert(entries[i].0@ != entries[k2].0@);
            }
        }
        if whole.contains_key(id) {
            let k = choose|k: int| has_id(entries, k, id);
            let k2 = if k < i {
                k
            } else {
                k - 1
            };
            assert(rest[k2] == entries[k]);
            assert(has_id(rest, k2, id));
        }
    }
    assert forall|id: Seq<char>| entries_map(rest).contains_key(id) implies #[trigger] entries_map(
        rest,
    )[id] == whole[id] by {
        let k = choose|k: int| has_id(rest, k, id);
        let k2 = if k < i {
            k
        } else {
            k + 1
        };
        assert(rest[k] == entries[k2]);
        lemma_entry(rest, k);
        lemma_entry(entries, k2);
    }
    assert(entries_map(rest) =~= whole);
}

/// To add an entry with a new id is to put it into the map.
proof fn lemma_added<T>(entries: Seq<(String, T)>, entry: (String, T))
    requires
        ids_differ(entries),
        !entries_map(entries).contains_key(entry.0@),
    ensures
        ids_differ(entries.push(entry)),
        entries_map(entries.push(entry)) == entries_map(entries).insert(entry.0@, entry.1),
{
    let more = entries.push(entry);
    assert forall|a: int, b: int| 0 <= a < b < more.len() implies (#[trigger] more[a]).0@ != (
    #[trigger] more[b]).0@ by {
        if b == entries.len() {
            lemma_entry(entries, a);
        }
    }
    let whole = entries_map(entries).insert(entry.0@, entry.1);
    assert forall|id: Seq<char>| entries_map(more).contains_key(id) == whole.contains_key(id) by {
        if entries_map(more).contains_key(id) {
            let k = choose|k: int| has_id(more, k, id);
            if k < entries.len() {
                lemma_entry(entries, k);
            }
        }
        if whole.contains_key(id) {
            if id == entry.0@ {
                assert(has_id(more, entries.len() as int, id));
            } else {
                let k = choose|k: int| has_id(entries, k, id);
                assert(has_id(more, k, id));
            }
        }
    }
    assert forall|id: Seq<char>| entries_map(more).contains_key(id) implies #[trigger] entries_map(
        more,
    )[id] == whole[id] by {
        let k = choose|k: int| has_id(more, k, id);
        lemma_entry(more, k);
        if k < entries.len() {
            lemma_entry(entries, k);
        }
    }
    assert(entries_map(more) =~= whole);
}

impl<T> View for Approvals<T> {
    type V = Map<Seq<char>, T>;

    closed spec fn view(&self) -> Map<Seq<char>, T> {
        entries_map(self.entries@)
    }
}

/// The message for an id under which nothing is pending.
pub const UNKNOWN_APPROVAL: &'static str = "unknown approval id";

/// What is left when the approval `id` has been resolved.
pub open spec fn resolved<T>(pending: Map<Seq<char>, T>, id: Seq<char>) -> Map<Seq<char>, T> {
    pending.remove(id)
}

/// What has been waiting under `id`, or the message that nothing has.
pub open spec fn waiting<T>(pending: Map<Seq<char>, T>, id: Seq<char>) -> Result<T, Seq<char>> {
    if pending.contains_key(id) {
        Ok(pending[id])
    } else {
        Err(UNKNOWN_APPROVAL@)
    }
}

/// What came of resolving an approval.
pub open spec fn resolve_outcome<T>(r: Result<T, String>) -> Result<T, Seq<char>> {
    match r {
        Ok(t) => Ok(t),
        Err(e) => Err(e@),
    }
}

impl<T> Approvals<T> {
    #[verifier::type_invariant]
    spec fn each_id_once(self) -> bool {
        ids_differ(self.entries@)
    }

    /// Nothing is pending.
    pub fn new() -> (r: Approvals<T>)
        ensures
            r@ == Map::<Seq<char>, T>::empty(),
    {
        let r = Approvals { entries: Vec::new() };
        assert(r@ =~= Map::<Seq<char>, T>::empty());
        r
    }

    /// Registers who waits for the approval `id`, in place of anyone who did.
    pub fn insert(&mut self, id: String, waiter: T)
        ensures
            final(self)@ == old(self)@.insert(id@, waiter),
    {
        let _ = self.resolve(id.as_str());
        proof {
            use_type_invariant(&*self);
            assert(!self@.contains_key(id@));
            assert(self@.insert(id@, waiter) =~= old(self)@.insert(id@, waiter));
        }
        let mut entries: Vec<(String, T)> = Vec::new();
        std::mem::swap(&mut entries, &mut self.entries);
        proof {
            lemma_added(entries@, (id, waiter));
        }
        entries.push((id, waiter));
        self.entries = entries;
    }

    /// Resolves the approval `id`: hands out who waits for it, who is then no
    /// longer registered.
    pub fn resolve(&mut self, id: &str) -> (r: Result<T, String>)
        ensures
            resolve_outcome(r) == waiting(old(self)@, id@),
            final(self)@ == resolved(old(self)@, id@),
    {
        proof {
            use_type_invariant(&*self);
        }
        let mut entries: Vec<(String, T)> = Vec::new();
        std::mem::swap(&mut entries, &mut self.entries);
        let mut i: usize = 0;
        while i < entries.len()
            invariant
                i <= entries@.len(),
                ids_differ(entries@),
                old(self)@ == entries_map(entries@),
                forall|k: int| 0 <= k < i ==> (#[trigger] entries@[k]).0@ != id@,
            decreases entries@.len() - i,
        {
            if same(entries[i].0.as_str(), id) {
                proof {
                    lemma_entry(entries@, i as int);
                    lemma_removed(entries@, i as int);
                }
                let (_, waiter) = entries.remove(i);
                self.entries = entries;
                return Ok(waiter);
            }
            i = i + 1;
        }
        proof {
            assert(!entries_map(entries@).contains_key(id@)) by {
                if entries_map(entries@).contains_key(id@) {
                    let k = choose|k: int| has_id(entries@, k, id@);
                    assert(entries@[k].0@ != id@);
                }
            }
            assert(old(self)@.remove(id@) =~= old(self)@);
        }
        self.entries = entries;
        Err(UNKNOWN_APPROVAL.to_owned())
    }
}

/// A decision reaches who waits for it, once: after it has, the id is unknown.
/// Other approvals stay pending.
pub proof fn law_a_decision_is_delivered_once<T>(
    pending: Map<Seq<char>, T>,
    id: Seq<char>,
    waiter: T,
    other: Seq<char>,
)
    ensures
        waiting(pending.insert(id, waiter), id) == Ok::<T, Seq<char>>(waiter),
        waiting(resolved(pending.insert(id, waiter), id), id) == Err::<T, Seq<char>>(
            "unknown approval id"@,
        ),
        other != id ==> waiting(pending.insert(id, waiter), other) == waiting(pending, other),
        other != id ==> waiting(resolved(pending.insert(id, waiter), id), other) == waiting(
            pending,
            other,
        ),
        waiting(Map::<Seq<char>, T>::empty(), id) == Err::<T, Seq<char>>("unknown approval id"@),
{
}

/// What came of resolving an approval is read as it is.
pub proof fn law_decisions_are_read_as_they_are<T>(waiter: T, e: String)
    ensures
        resolve_outcome(Ok(waiter)) == Ok::<T, Seq<char>>(waiter),
        resolve_outcome::<T>(Err(e)) == Err::<T, Seq<char>>(e@),
{
}

} // verus!
