//! The ids of the sending jobs that are running; a new transfer is refused
//! while any is.
use vstd::prelude::*;

verus! {

/// `s` with every occurrence of `x` taken out, the rest in order.
pub open spec fn without(s: Seq<Seq<char>>, x: Seq<char>) -> Seq<Seq<char>>
    decreases s.len(),
{
    if s.len() == 0 {
        s
    } else if s.last() == x {
        without(s.drop_last(), x)
    } else {
        without(s.drop_last(), x).push(s.last())
    }
}

/// The running sending jobs, by id, in the order they started.
pub struct RunningJobs {
    ids: Vec<String>,
}

impl View for RunningJobs {
    type V = Seq<Seq<char>>;

    closed spec fn view(&self) -> Seq<Seq<char>> {
        self.ids@.map_values(|s: String| s@)
    }
}

impl RunningJobs {
    /// No job running.
    pub fn new() -> (j: Self)
        ensures
            j@ == Seq::<Seq<char>>::empty(),
    {
        let j = RunningJobs { ids: Vec::new() };
        assert(j@ =~= Seq::<Seq<char>>::empty());
        j
    }

    /// A job with id `id` starts.
    pub fn start(&mut self, id: String)
        ensures
            final(self)@ == old(self)@.push(id@),
    {
        self.ids.push(id);
        assert(self@ =~= old(self)@.push(id@));
    }

    /// The job with id `id` is over: every entry with that id goes.
    pub fn finish(&mut self, id: &String)
        ensures
            final(self)@ == without(old(self)@, id@),
    {
        let ghost before = self@;
        let mut kept: Vec<String> = Vec::new();
        let n = self.ids.len();
        let mut i: usize = 0;
        while i < n
            invariant
                n == self.ids@.len(),
                before == self@,
                i <= n,
                kept@.map_values(|s: String| s@) == without(before.take(i as int), id@),
            decreases n - i,
        {
            assert(before.take(i + 1).drop_last() =~= before.take(i as int));
            assert(before[i as int] == self.ids@[i as int]@);
            if self.ids[i] != *id {
                let ghost k0 = kept@;
                kept.push(self.ids[i].clone());
                assert(kept@.map_values(|s: String| s@) =~= k0.map_values(|s: String| s@).push(
                    before[i as int],
                ));
            }
            i = i + 1;
        }
        assert(before.take(n as int) =~= before);
        self.ids = kept;
    }

    /// No job is running.
    pub fn is_empty(&self) -> (b: bool)
        ensures
            b == (self@.len() == 0),
    {
        self.ids.len() == 0
    }

    /// The ids of the running jobs.
    pub fn ids(&self) -> (r: &Vec<String>)
        ensures
            r@.map_values(|s: String| s@) == self@,
    {
        &self.ids
    }
}

/// Finishing a job keeps every other running id, in order: `without` is the
/// standard filter on the id.
pub proof fn lemma_without_is_filter(s: Seq<Seq<char>>, x: Seq<char>)
    ensures
        without(s, x) == s.filter(|y: Seq<char>| y != x),
    decreases s.len(),
{
    reveal_with_fuel(Seq::filter, 1);
    if s.len() > 0 {
        lemma_without_is_filter(s.drop_last(), x);
    }
}

/// Membership in a sequence with one more element at its end.
pub proof fn lemma_push_contains(s: Seq<Seq<char>>, a: Seq<char>, y: Seq<char>)
    ensures
        s.push(a).contains(y) <==> (s.contains(y) || a == y),
{
    if s.push(a).contains(y) {
        let k = choose|k: int| 0 <= k < s.push(a).len() && s.push(a)[k] == y;
        if k < s.len() {
            assert(s[k] == y);
        }
    }
    if s.contains(y) {
        let k = choose|k: int| 0 <= k < s.len() && s[k] == y;
        assert(s.push(a)[k] == y);
    }
    if a == y {
        assert(s.push(a)[s.len() as int] == y);
    }
}

/// After `without`, `x` is gone and every other entry is still there.
pub proof fn lemma_without(s: Seq<Seq<char>>, x: Seq<char>)
    ensures
        !without(s, x).contains(x),
        forall|y: Seq<char>| y != x ==> (without(s, x).contains(y) <==> s.contains(y)),
        without(s, x).len() <= s.len(),
    decreases s.len(),
{
    if s.len() > 0 {
        lemma_without(s.drop_last(), x);
        let w = without(s.drop_last(), x);
        assert(s =~= s.drop_last().push(s.last()));
        lemma_push_contains(w, s.last(), x);
        assert forall|y: Seq<char>| y != x implies (without(s, x).contains(y) <==> s.contains(y)) by {
            lemma_push_contains(w, s.last(), y);
            lemma_push_contains(s.drop_last(), s.last(), y);
        }
    }
}

/// Taking out an entry that is not there changes nothing.
pub proof fn lemma_without_absent(s: Seq<Seq<char>>, x: Seq<char>)
    requires
        !s.contains(x),
    ensures
        without(s, x) == s,
    decreases s.len(),
{
    if s.len() > 0 {
        let rest = s.drop_last();
        if rest.contains(x) {
            let k = choose|k: int| 0 <= k < rest.len() && rest[k] == x;
            assert(s[k] == x);
        }
        assert(s[s.len() - 1] == s.last());
        lemma_without_absent(rest, x);
        assert(s =~= rest.push(s.last()));
    }
}

/// A job that started and finished no longer counts as running, and the
/// other running jobs are untouched; when its id was fresh (not among the
/// running ids), the running list is exactly what it was before it started.
pub proof fn lemma_start_then_finish(before: Seq<Seq<char>>, id: Seq<char>)
    ensures
        !before.contains(id) ==> without(before.push(id), id) == before,
        !without(before.push(id), id).contains(id),
        forall|y: Seq<char>| y != id ==> (without(before.push(id), id).contains(y) <==> before.contains(y)),
{
    lemma_without(before.push(id), id);
    if !before.contains(id) {
        assert(before.push(id).drop_last() =~= before);
        lemma_without_absent(before, id);
    }
    assert forall|y: Seq<char>| y != id implies (before.push(id).contains(y) <==> before.contains(y)) by {
        lemma_push_contains(before, id, y);
    }
}

/// The ids of the running sending jobs; a transfer may start only when this
/// is empty.
pub fn get_sender_running_number(jobs: &RunningJobs) -> (r: &Vec<String>)
    ensures
        r@.map_values(|s: String| s@) == jobs@,
{
    jobs.ids()
}

} // verus!
