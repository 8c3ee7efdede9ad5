//! The deduplication gate: a set of job-id strings with an atomic
//! check-and-insert, a consistent snapshot for persistence, and the guarantee
//! that `insert_if_new` answers `true` for a given id at most once.

use vstd::prelude::*;

verus! {

/// A set of job-id strings. An id is a member exactly when a notification for
/// that job has been (or is being) dispatched; the set grows monotonically.
pub struct SeenSet {
    ids: Vec<String>,
}

impl View for SeenSet {
    type V = Set<Seq<char>>;

    open spec fn view(&self) -> Set<Seq<char>> {
        self.ids_seq().to_set()
    }
}

impl SeenSet {
    /// The ids held, in insertion order.
    pub closed spec fn ids_seq(&self) -> Seq<Seq<char>> {
        self.ids@.map_values(|s: String| s@)
    }

    /// Well-formed: no id occurs twice.
    pub open spec fn wf(&self) -> bool {
        forall|i: int, j: int|
            0 <= i < j < self.ids_seq().len() ==> self.ids_seq()[i] != self.ids_seq()[j]
    }

    /// An empty set.
    pub fn new() -> (s: SeenSet)
        ensures
            s.wf(),
            s.ids_seq() == Seq::<Seq<char>>::empty(),
            s@ == Set::<Seq<char>>::empty(),
    {
        let s = SeenSet { ids: Vec::new() };
        proof {
            assert(s.ids_seq() =~= Seq::<Seq<char>>::empty());
            assert(s@ =~= Set::<Seq<char>>::empty());
        }
        s
    }

    /// How many distinct ids are held.
    pub fn len(&self) -> (n: usize)
        ensures
            n == self.ids_seq().len(),
    {
        self.ids.len()
    }

    /// The id at a given insertion position.
    pub fn get(&self, i: usize) -> (id: &String)
        requires
            i < self.ids_seq().len(),
        ensures
            id@ == self.ids_seq()[i as int],
    {
        &self.ids[i]
    }

    /// Whether an id is already a member.
    pub fn contains(&self, id: &String) -> (r: bool)
        ensures
            r == self@.contains(id@),
    {
        let mut i: usize = 0;
        while i < self.ids.len()
            invariant
                i <= self.ids_seq().len(),
                forall|k: int| 0 <= k < i ==> self.ids_seq()[k] != id@,
            decreases self.ids_seq().len() - i,
        {
            proof {
                assert(self.ids_seq()[i as int] == self.ids@[i as int]@);
            }
            if self.ids[i].eq(id) {
                proof {
                    assert(self.ids_seq().contains(id@));
                }
                return true;
            }
            i = i + 1;
        }
        proof {
            assert(!self.ids_seq().contains(id@));
        }
        false
    }

    /// Atomic check-and-insert: adds the id and reports whether it was absent
    /// before this call. The caller that receives `true` owns the novelty of
    /// the id and must dispatch its notification.
    pub fn insert_if_new(&mut self, id: String) -> (r: bool)
        requires
            old(self).wf(),
        ensures
            final(self).wf(),
            r == !old(self)@.contains(id@),
            final(self)@ == old(self)@.insert(id@),
            r ==> final(self).ids_seq() == old(self).ids_seq().push(id@),
            !r ==> *final(self) == *old(self),
    {
        if self.contains(&id) {
            proof {
                assert(self@ =~= old(self)@.insert(id@));
            }
            return false;
        }
        self.ids.push(id);
        proof {
            let new_ids = self.ids_seq();
            let old_ids = old(self).ids_seq();
            assert(new_ids =~= old_ids.push(id@));
            assert forall|a: Seq<char>| self@.contains(a) implies old(self)@.insert(
                id@,
            ).contains(a) by {
                let k = choose|k: int| 0 <= k < new_ids.len() && new_ids[k] == a;
                if k < old_ids.len() {
                    assert(old_ids.contains(a));
                }
            }
            assert forall|a: Seq<char>| old(self)@.insert(id@).contains(a) implies self@.contains(
                a,
            ) by {
                if a == id@ {
                    assert(new_ids[new_ids.len() - 1] == a);
                } else {
                    let k = choose|k: int| 0 <= k < old_ids.len() && old_ids[k] == a;
                    assert(new_ids[k] == a);
                }
                assert(new_ids.contains(a));
            }
            assert(self@ =~= old(self)@.insert(id@));
            assert forall|i: int, j: int| 0 <= i < j < new_ids.len() implies new_ids[i]
                != new_ids[j] by {
                if j == new_ids.len() - 1 {
                    assert(!old_ids.contains(id@));
                }
            }
        }
        true
    }

    /// A consistent point-in-time copy, for writing to disk.
    pub fn snapshot(&self) -> (s: SeenSet)
        ensures
            s.ids_seq() == self.ids_seq(),
            s@ == self@,
            s.wf() == self.wf(),
    {
        let copy = SeenSet { ids: self.ids.clone() };
        proof {
            assert forall|i: int| 0 <= i < self.ids@.len() implies copy.ids@[i]@ == self.ids@[i]@ by {
                assert(vstd::pervasive::cloned::<String>(self.ids@[i], copy.ids@[i]));
            }
            assert(copy.ids_seq() =~= self.ids_seq());
        }
        copy
    }
}

/// Repeated `insert_if_new` calls for one id answer `true` at most once: the
/// contract of `insert_if_new` says a call that sees set `s0` answers
/// `!s0.contains(id)` and leaves `s0.insert(id)`, so whatever a first call
/// answered, a second call on the resulting set must answer `false`.
pub proof fn lemma_insert_if_new_once(
    s0: Set<Seq<char>>,
    s1: Set<Seq<char>>,
    r1: bool,
    r2: bool,
    id: Seq<char>,
)
    requires
        r1 == !s0.contains(id),
        s1 == s0.insert(id),
        r2 == !s1.contains(id),
    ensures
        !r2,
{
}

} // verus!
