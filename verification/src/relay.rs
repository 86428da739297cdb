//! The registry that hands the progress of a run to one consumer.
//!
//! A producer of progress events is registered under the session of its
//! run and taken at most once. The registry is a plain value: the caller
//! keeps it behind its lock and holds the lock for one call.

use vstd::prelude::*;
use vstd::string::*;
use crate::common::{ErrorView, ServiceError};
use crate::models::{
    distinct_keys, has_key, lemma_position, lemma_position_spec, lemma_upsert_distinct,
    lemma_upsert_has_key, position, upsert, Keyed,
};
use crate::text::same;

verus! {

impl<P> Keyed for (String, P) {
    open spec fn key(&self) -> Seq<char> {
        self.0@
    }
}

/// What an item put in by its identifier does to the other identifiers:
/// nothing.
pub proof fn lemma_upsert_others<T: Keyed>(s: Seq<T>, x: T, k: Seq<char>)
    requires
        k != x.key(),
    ensures
        has_key(upsert(s, x), k) == has_key(s, k),
        has_key(s, k) ==> upsert(s, x)[position(upsert(s, x), k)] == s[position(s, k)],
{
    lemma_position_spec(s, k);
    lemma_position_spec(s, x.key());
    let r = upsert(s, x);
    let p = position(s, k);
    assert forall|j: int| 0 <= j < p implies (#[trigger] r[j]).key() != k by {
        if j != position(s, x.key()) {
            assert(r[j] == s[j]);
        }
    }
    if p < s.len() {
        assert(r[p] == s[p]);
        lemma_position(r, k, p);
    } else {
        lemma_position(r, k, r.len() as int);
    }
}

/// What taking out the item found under an identifier does, where no
/// identifier occurs twice: that identifier is gone, the others stay.
pub proof fn lemma_remove_found<T: Keyed>(s: Seq<T>, k0: Seq<char>)
    requires
        distinct_keys(s),
        has_key(s, k0),
    ensures
        distinct_keys(s.remove(position(s, k0))),
        !has_key(s.remove(position(s, k0)), k0),
        forall|k: Seq<char>|
            k != k0 ==> #[trigger] has_key(s.remove(position(s, k0)), k) == has_key(s, k) && (
            has_key(s, k) ==> s.remove(position(s, k0))[position(s.remove(position(s, k0)), k)]
                == s[position(s, k)]),
{
    lemma_position_spec(s, k0);
    let i = position(s, k0);
    let r = s.remove(i);
    assert forall|a: int, b: int| 0 <= a < r.len() && 0 <= b < r.len() && a != b implies (
    #[trigger] r[a]).key() != (#[trigger] r[b]).key() by {
        let a0 = if a < i { a } else { a + 1 };
        let b0 = if b < i { b } else { b + 1 };
        assert(r[a] == s[a0] && r[b] == s[b0]);
    }
    assert forall|j: int| 0 <= j < r.len() implies (#[trigger] r[j]).key() != k0 by {
        let j0 = if j < i { j } else { j + 1 };
        assert(r[j] == s[j0]);
        assert(s[j0].key() != s[i].key());
    }
    lemma_position(r, k0, r.len() as int);
    assert forall|k: Seq<char>| k != k0 implies #[trigger] has_key(r, k) == has_key(s, k) && (
    has_key(s, k) ==> r[position(r, k)] == s[position(s, k)]) by {
        lemma_position_spec(s, k);
        let p = position(s, k);
        if p < s.len() {
            let q = if p < i { p } else { p - 1 };
            assert forall|j: int| 0 <= j < q implies (#[trigger] r[j]).key() != k by {
                let j0 = if j < i { j } else { j + 1 };
                assert(r[j] == s[j0]);
            }
            assert(r[q] == s[p]);
            lemma_position(r, k, q);
        } else {
            assert forall|j: int| 0 <= j < r.len() implies (#[trigger] r[j]).key() != k by {
                let j0 = if j < i { j } else { j + 1 };
                assert(r[j] == s[j0]);
            }
            lemma_position(r, k, r.len() as int);
        }
    }
}

/// The registry of waiting producers, by session identifier.
pub struct StreamRelay<P> {
    entries: Vec<(String, P)>,
}

impl<P> StreamRelay<P> {
    /// No session identifier is registered twice.
    pub closed spec fn wf(&self) -> bool {
        distinct_keys(self.entries@)
    }

    /// The producers that wait, by session identifier.
    pub closed spec fn view(&self) -> Map<Seq<char>, P> {
        Map::new(
            |k: Seq<char>| has_key(self.entries@, k),
            |k: Seq<char>| self.entries@[position(self.entries@, k)].1,
        )
    }

    /// A registry in which nothing waits.
    pub fn new() -> (relay: Self)
        ensures
            relay.wf(),
            relay@ == Map::<Seq<char>, P>::empty(),
    {
        let relay = StreamRelay { entries: Vec::new() };
        assert(relay@ =~= Map::<Seq<char>, P>::empty());
        relay
    }

    fn find(&self, id: &str) -> (r: Option<usize>)
        ensures
            r is Some <==> has_key(self.entries@, id@),
            r is Some ==> r->0 == position(self.entries@, id@) && r->0 < self.entries.len(),
    {
        let mut i: usize = 0;
        while i < self.entries.len()
            invariant
                i <= self.entries.len(),
                forall|j: int| 0 <= j < i ==> (#[trigger] self.entries@[j]).key() != id@,
            decreases self.entries.len() - i,
        {
            if same(self.entries[i].0.as_str(), id) {
                proof {
                    lemma_position(self.entries@, id@, i as int);
                }
                return Some(i);
            }
            i += 1;
        }
        proof {
            lemma_position(self.entries@, id@, i as int);
        }
        None
    }

    /// Whether a producer waits under `id`.
    pub fn is_registered(&self, id: &str) -> (b: bool)
        ensures
            b == self@.contains_key(id@),
    {
        self.find(id).is_some()
    }

    /// How many producers wait.
    pub fn len(&self) -> (n: usize)
        requires
            self.wf(),
        ensures
            n == self@.len(),
            self@.dom().finite(),
    {
        proof {
            lemma_domain_size(self.entries@);
            assert(self@.dom() =~= key_set(self.entries@));
        }
        self.entries.len()
    }

    /// Registers `producer` under `id`, in the place of the one that
    /// waited there.
    pub fn register(&mut self, id: String, producer: P)
        requires
            old(self).wf(),
        ensures
            final(self).wf(),
            final(self)@ == old(self)@.insert(id@, producer),
    {
        let ghost before = self.entries@;
        let ghost item = (id, producer);
        match self.find(id.as_str()) {
            Some(at) => {
                self.entries.set(at, (id, producer));
            },
            None => {
                self.entries.push((id, producer));
            },
        }
        proof {
            assert(self.entries@ =~= upsert(before, item));
            lemma_upsert_distinct(before, item);
            lemma_upsert_has_key(before, item);
            let after = self.entries@;
            assert(item.key() == id@);
            assert forall|k: Seq<char>| #[trigger]
                final(self)@.contains_key(k) == old(self)@.insert(id@, producer).contains_key(
                    k,
                ) && (final(self)@.contains_key(k) ==> final(self)@[k] == old(self)@.insert(
                    id@,
                    producer,
                )[k]) by {
                if k != id@ {
                    lemma_upsert_others(before, item, k);
                }
            }
            assert(final(self)@ =~= old(self)@.insert(id@, producer));
        }
    }

    /// Takes the producer that waits under `id` out of the registry. Fails
    /// where none waits there: before any was registered, and after it was
    /// taken.
    pub fn take(&mut self, id: &str) -> (r: Result<P, ServiceError>)
        requires
            old(self).wf(),
        ensures
            final(self).wf(),
            !final(self)@.contains_key(id@),
            final(self)@ == old(self)@.remove(id@),
            old(self)@.contains_key(id@) ==> r == Ok::<P, ServiceError>(old(self)@[id@]),
            !old(self)@.contains_key(id@) ==> (r matches Err(e) && e@ == ErrorView::NoActiveStream(
                id@,
            )),
    {
        match self.find(id) {
            Some(at) => {
                proof {
                    lemma_remove_found(self.entries@, id@);
                }
                let entry = self.entries.remove(at);
                assert(final(self)@ =~= old(self)@.remove(id@));
                Ok(entry.1)
            },
            None => {
                assert(final(self)@ =~= old(self)@.remove(id@));
                Err(ServiceError::NoActiveStream(String::from_str(id)))
            },
        }
    }
}

/// The identifiers of the items of `s`.
pub open spec fn key_set<T: Keyed>(s: Seq<T>) -> Set<Seq<char>> {
    Set::new(|k: Seq<char>| has_key(s, k))
}

/// Where no identifier occurs twice, there are as many identifiers as
/// items.
pub proof fn lemma_domain_size<T: Keyed>(s: Seq<T>)
    requires
        distinct_keys(s),
    ensures
        key_set(s).finite(),
        key_set(s).len() == s.len(),
    decreases s.len(),
{
    if s.len() == 0 {
        assert(key_set(s) =~= Set::empty());
    } else {
        let t = s.drop_last();
        let x = s.last();
        assert forall|i: int, j: int|
            0 <= i < t.len() && 0 <= j < t.len() && i != j implies (#[trigger] t[i]).key() != (
        #[trigger] t[j]).key() by {
            assert(t[i] == s[i] && t[j] == s[j]);
        }
        lemma_domain_size(t);
        lemma_position_spec(t, x.key());
        if has_key(t, x.key()) {
            let p = position(t, x.key());
            assert(t[p] == s[p]);
            assert(s[p].key() != s[s.len() - 1].key());
        }
        assert forall|k: Seq<char>| has_key(s, k) == (has_key(t, k) || k == x.key()) by {
            lemma_position_spec(t, k);
            lemma_position_spec(s, k);
            let p = position(t, k);
            if p < t.len() {
                assert forall|j: int| 0 <= j < p implies (#[trigger] s[j]).key() != k by {
                    assert(s[j] == t[j]);
                }
                assert(s[p] == t[p]);
                lemma_position(s, k, p);
            } else if k == x.key() {
                assert forall|j: int| 0 <= j < t.len() implies (#[trigger] s[j]).key() != k by {
                    assert(s[j] == t[j]);
                }
                lemma_position(s, k, t.len() as int);
            } else {
                assert forall|j: int| 0 <= j < s.len() implies (#[trigger] s[j]).key() != k by {
                    if j < t.len() {
                        assert(s[j] == t[j]);
                    }
                }
                lemma_position(s, k, s.len() as int);
            }
        }
        assert(key_set(s) =~= key_set(t).insert(x.key()));
    }
}

/// A second take under an identifier finds nothing, whatever the first
/// one found; and nothing is found in a registry in which nothing was
/// registered.
pub proof fn lemma_take_is_final<P>(waiting: Map<Seq<char>, P>, id: Seq<char>)
    ensures
        !waiting.remove(id).contains_key(id),
        waiting.remove(id).remove(id) == waiting.remove(id),
        !Map::<Seq<char>, P>::empty().contains_key(id),
{
    assert(waiting.remove(id).remove(id) =~= waiting.remove(id));
}

} // verus!
