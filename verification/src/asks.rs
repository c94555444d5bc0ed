//! Open transfer requests waiting for the receiving user's answer, each
//! under the id shown to the user; the answer goes back on the channel kept
//! with it.
use vstd::prelude::*;

verus! {

/// The mapping that a list of (id, value) pairs stands for; a later pair
/// wins over an earlier one with the same id.
pub open spec fn as_map<V>(s: Seq<(String, V)>) -> Map<Seq<char>, V>
    decreases s.len(),
{
    if s.len() == 0 {
        Map::empty()
    } else {
        as_map(s.drop_last()).insert(s.last().0@, s.last().1)
    }
}

/// No two pairs share an id.
pub open spec fn ids_unique<V>(s: Seq<(String, V)>) -> bool {
    forall|i: int, j: int| 0 <= i < j < s.len() ==> s[i].0@ != s[j].0@
}

/// The ids of a list of pairs are the keys of the mapping it stands for.
pub proof fn lemma_as_map_dom<V>(s: Seq<(String, V)>)
    ensures
        forall|x: Seq<char>|
            as_map(s).contains_key(x) <==> exists|i: int| 0 <= i < s.len() && s[i].0@ == x,
    decreases s.len(),
{
    if s.len() > 0 {
        lemma_as_map_dom(s.drop_last());
        assert forall|x: Seq<char>|
            as_map(s).contains_key(x) <==> exists|i: int| 0 <= i < s.len() && s[i].0@ == x by {
            if as_map(s).contains_key(x) && x != s.last().0@ {
                assert(as_map(s.drop_last()).contains_key(x));
                let i = choose|i: int| 0 <= i < s.drop_last().len() && s.drop_last()[i].0@ == x;
                assert(s.drop_last()[i] == s[i]);
            }
            if x == s.last().0@ {
                assert(s[s.len() - 1].0@ == x);
            }
            if exists|i: int| 0 <= i < s.len() && s[i].0@ == x {
                let i = choose|i: int| 0 <= i < s.len() && s[i].0@ == x;
                if i < s.len() - 1 {
                    assert(s.drop_last()[i].0@ == x);
                    assert(as_map(s.drop_last()).contains_key(x));
                }
            }
        }
    }
}

/// With unique ids, the mapping gives each id the value paired with it.
pub proof fn lemma_as_map_value<V>(s: Seq<(String, V)>, i: int)
    requires
        ids_unique(s),
        0 <= i < s.len(),
    ensures
        as_map(s).contains_key(s[i].0@),
        as_map(s)[s[i].0@] == s[i].1,
    decreases s.len(),
{
    if i < s.len() - 1 {
        assert(s.drop_last()[i] == s[i]);
        lemma_as_map_value(s.drop_last(), i);
    }
}

/// With unique ids, giving a pair a new value maps its id to that value.
pub proof fn lemma_as_map_update<V>(s: Seq<(String, V)>, i: int, v: V)
    requires
        ids_unique(s),
        0 <= i < s.len(),
    ensures
        as_map(s.update(i, (s[i].0, v))) == as_map(s).insert(s[i].0@, v),
    decreases s.len(),
{
    let t = s.update(i, (s[i].0, v));
    if i == s.len() - 1 {
        assert(t.drop_last() =~= s.drop_last());
        lemma_as_map_dom(s.drop_last());
        assert(as_map(t) =~= as_map(s).insert(s[i].0@, v));
    } else {
        assert(t.drop_last() =~= s.drop_last().update(i, (s[i].0, v)));
        assert(s.drop_last()[i] == s[i]);
        lemma_as_map_update(s.drop_last(), i, v);
        assert(s.last().0@ != s[i].0@);
        assert(as_map(t) =~= as_map(s).insert(s[i].0@, v));
    }
}

/// With unique ids, taking a pair out removes its id from the mapping.
pub proof fn lemma_as_map_remove<V>(s: Seq<(String, V)>, i: int)
    requires
        ids_unique(s),
        0 <= i < s.len(),
    ensures
        as_map(s.remove(i)) == as_map(s).remove(s[i].0@),
        ids_unique(s.remove(i)),
    decreases s.len(),
{
    let t = s.remove(i);
    if i == s.len() - 1 {
        assert(t =~= s.drop_last());
        lemma_as_map_dom(s.drop_last());
        if as_map(s.drop_last()).contains_key(s[i].0@) {
            let j = choose|j: int| 0 <= j < s.drop_last().len() && s.drop_last()[j].0@ == s[i].0@;
            assert(s[j].0@ == s[i].0@);
        }
        assert(as_map(t) =~= as_map(s).remove(s[i].0@));
    } else {
        assert(t.drop_last() =~= s.drop_last().remove(i));
        assert(t.last() == s.last());
        assert(s.drop_last()[i] == s[i]);
        lemma_as_map_remove(s.drop_last(), i);
        assert(s.last().0@ != s[i].0@);
        assert(as_map(t) =~= as_map(s).remove(s[i].0@));
    }
    assert forall|a: int, b: int| 0 <= a < b < t.len() implies t[a].0@ != t[b].0@ by {
        if a < i {
            if b < i {
            } else {
                assert(t[b] == s[b + 1]);
            }
        } else {
            assert(t[a] == s[a + 1]);
            assert(t[b] == s[b + 1]);
        }
    }
}

/// Requests waiting for an answer, by id.
pub struct AskRegistry<T> {
    entries: Vec<(String, T)>,
}

impl<T> View for AskRegistry<T> {
    type V = Map<Seq<char>, T>;

    /// The waiting requests, by id.
    closed spec fn view(&self) -> Map<Seq<char>, T> {
        as_map(self.entries@)
    }
}

impl<T> AskRegistry<T> {
    /// The registry's invariant: ids are unique.
    pub closed spec fn wf(&self) -> bool {
        ids_unique(self.entries@)
    }

    /// No request waiting.
    pub fn new() -> (r: Self)
        ensures
            r.wf(),
            r@ == Map::<Seq<char>, T>::empty(),
    {
        AskRegistry { entries: Vec::new() }
    }

    /// Keeps `v` under `id` (replacing what was kept under it).
    pub fn insert(&mut self, id: String, v: T)
        requires
            old(self).wf(),
        ensures
            final(self).wf(),
            final(self)@ == old(self)@.insert(id@, v),
    {
        let n = self.entries.len();
        let mut i: usize = 0;
        while i < n
            invariant
                n == self.entries@.len(),
                self.entries@ == old(self).entries@,
                ids_unique(self.entries@),
                i <= n,
                forall|j: int| 0 <= j < i ==> self.entries@[j].0@ != id@,
            decreases n - i,
        {
            if self.entries[i].0 == id {
                let ghost before = self.entries@;
                let (k, _old_v) = self.entries.remove(i);
                self.entries.insert(i, (k, v));
                proof {
                    assert(self.entries@ =~= before.update(i as int, (before[i as int].0, v)));
                    lemma_as_map_update(before, i as int, v);
                    assert forall|a: int, b: int| 0 <= a < b < self.entries@.len() implies
                        self.entries@[a].0@ != self.entries@[b].0@ by {
                        assert(before[a].0@ != before[b].0@);
                    }
                }
                return;
            }
            i = i + 1;
        }
        let ghost before = self.entries@;
        self.entries.push((id, v));
        proof {
            assert(self.entries@.drop_last() =~= before);
            assert forall|a: int, b: int| 0 <= a < b < self.entries@.len() implies
                self.entries@[a].0@ != self.entries@[b].0@ by {
                if b == before.len() {
                    assert(before[a].0@ != id@);
                }
            }
        }
    }

    /// Takes out what was kept under `id`, if anything.
    pub fn remove(&mut self, id: &String) -> (r: Option<T>)
        requires
            old(self).wf(),
        ensures
            final(self).wf(),
            r == (if old(self)@.contains_key(id@) {
                Some(old(self)@[id@])
            } else {
                None
            }),
            final(self)@ == old(self)@.remove(id@),
    {
        proof {
            lemma_as_map_dom(self.entries@);
        }
        let n = self.entries.len();
        let mut i: usize = 0;
        while i < n
            invariant
                n == self.entries@.len(),
                self.entries@ == old(self).entries@,
                ids_unique(self.entries@),
                i <= n,
                forall|j: int| 0 <= j < i ==> self.entries@[j].0@ != id@,
            decreases n - i,
        {
            if self.entries[i].0 == *id {
                let ghost before = self.entries@;
                proof {
                    lemma_as_map_value(before, i as int);
                    lemma_as_map_remove(before, i as int);
                }
                let (_k, v) = self.entries.remove(i);
                return Some(v);
            }
            i = i + 1;
        }
        assert(!old(self)@.contains_key(id@));
        assert(old(self)@.remove(id@) =~= old(self)@);
        None
    }
}

/// Answer routing, over `AskRegistry::insert` followed by
/// `AskRegistry::remove`: from `before`, a request `v` is kept under `id`
/// (giving `mid`), then the answer under `id` takes out `r` (giving
/// `after`). The answer finds exactly that request; afterwards nothing is
/// kept under `id`, so a second answer finds nothing; and every other
/// waiting request is as it was in `before`.
pub proof fn lemma_answer_reaches_request<T>(
    before: AskRegistry<T>,
    mid: AskRegistry<T>,
    after: AskRegistry<T>,
    id: Seq<char>,
    v: T,
    r: Option<T>,
)
    requires
        mid@ == before@.insert(id, v),
        r == (if mid@.contains_key(id) {
            Some(mid@[id])
        } else {
            None
        }),
        after@ == mid@.remove(id),
    ensures
        r == Some(v),
        !after@.contains_key(id),
        after@ == before@.remove(id),
{
    assert(after@ =~= before@.remove(id));
}

} // verus!
