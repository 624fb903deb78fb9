use vstd::prelude::*;

verus! {

/// Where one candidate's lookup stands.
#[derive(Clone, Copy, Debug, PartialEq, Eq, Structural)]
pub enum TaskState {
    Waiting,
    InFlight,
    Done,
}

/// Admission control for the lookups of a run: candidates are dispatched in
/// order, and no more than `budget` of them are outstanding at once.
pub struct Dispatcher {
    budget: usize,
    next: usize,
    outstanding: usize,
    tasks: Vec<TaskState>,
    in_flight: Ghost<Set<int>>,
    completions: Ghost<Seq<int>>,
}

impl Dispatcher {
    /// The most lookups that may be outstanding at once.
    pub closed spec fn budget(&self) -> nat {
        self.budget as nat
    }

    /// The number of candidates.
    pub closed spec fn size(&self) -> nat {
        self.tasks@.len()
    }

    /// The number of candidates dispatched so far: those are the first ones.
    pub closed spec fn dispatched(&self) -> nat {
        self.next as nat
    }

    /// The candidates whose lookup was dispatched and has not completed.
    pub closed spec fn in_flight(&self) -> Set<int> {
        self.in_flight@
    }

    /// The candidates whose lookup has completed, in order of completion.
    pub closed spec fn completions(&self) -> Seq<int> {
        self.completions@
    }

    pub closed spec fn wf(&self) -> bool {
        &&& self.budget >= 1
        &&& self.next <= self.tasks@.len() <= usize::MAX
        &&& self.outstanding <= self.budget
        &&& self.in_flight@.finite()
        &&& self.in_flight@.len() == self.outstanding
        &&& self.completions@.len() + self.outstanding == self.next
        &&& forall|i: int|
            0 <= i < self.tasks@.len() ==> (i >= self.next <==> #[trigger] self.tasks@[i]
                == TaskState::Waiting)
        &&& forall|i: int|
            #[trigger] self.in_flight@.contains(i) <==> 0 <= i < self.tasks@.len()
                && self.tasks@[i] == TaskState::InFlight
        &&& forall|k: int|
            0 <= k < self.completions@.len() ==> 0 <= #[trigger] self.completions@[k]
                < self.tasks@.len() && self.tasks@[self.completions@[k]] == TaskState::Done
        &&& forall|i: int|
            0 <= i < self.tasks@.len() && #[trigger] self.tasks@[i] == TaskState::Done ==> exists|
                k: int,
            |
                0 <= k < self.completions@.len() && #[trigger] self.completions@[k] == i
        &&& forall|k1: int, k2: int|
            0 <= k1 < k2 < self.completions@.len() ==> #[trigger] self.completions@[k1]
                != #[trigger] self.completions@[k2]
        &&& self.budget == 1 ==> forall|k: int|
            0 <= k < self.completions@.len() ==> #[trigger] self.completions@[k] == k
    }

    /// The number of candidates fits a `usize`.
    pub proof fn lemma_size_fits(self)
        requires
            self.wf(),
        ensures
            self.dispatched() <= self.size() <= usize::MAX,
    {
    }

    /// Whether another candidate may be dispatched now.
    pub open spec fn spec_can_dispatch(&self) -> bool {
        self.dispatched() < self.size() && self.in_flight().len() < self.budget()
    }

    /// Whether every candidate was dispatched and every lookup has completed.
    pub open spec fn spec_is_finished(&self) -> bool {
        self.dispatched() == self.size() && self.in_flight().len() == 0
    }

    /// A dispatcher for `size` candidates, none of them dispatched yet.
    pub fn new(size: usize, budget: usize) -> (r: Dispatcher)
        requires
            budget >= 1,
        ensures
            r.wf(),
            r.size() == size,
            r.budget() == budget,
            r.dispatched() == 0,
            r.in_flight() == Set::<int>::empty(),
            r.completions() == Seq::<int>::empty(),
    {
        let mut tasks: Vec<TaskState> = Vec::new();
        let mut i: usize = 0;
        while i < size
            invariant
                i <= size,
                tasks@.len() == i,
                forall|j: int| 0 <= j < i ==> #[trigger] tasks@[j] == TaskState::Waiting,
            decreases size - i,
        {
            tasks.push(TaskState::Waiting);
            i = i + 1;
        }
        Dispatcher {
            budget,
            next: 0,
            outstanding: 0,
            tasks,
            in_flight: Ghost(Set::empty()),
            completions: Ghost(Seq::empty()),
        }
    }

    /// Whether another candidate may be dispatched now: some are left and
    /// fewer than `budget` lookups are outstanding.
    pub fn can_dispatch(&self) -> (r: bool)
        requires
            self.wf(),
        ensures
            r == self.spec_can_dispatch(),
    {
        self.next < self.tasks.len() && self.outstanding < self.budget
    }

    /// Whether the run is over: all dispatched, none outstanding.
    pub fn is_finished(&self) -> (r: bool)
        requires
            self.wf(),
        ensures
            r == self.spec_is_finished(),
    {
        self.next == self.tasks.len() && self.outstanding == 0
    }

    /// Dispatches the next candidate in order and returns its index.
    pub fn dispatch(&mut self) -> (r: usize)
        requires
            old(self).wf(),
            old(self).spec_can_dispatch(),
        ensures
            final(self).wf(),
            r == old(self).dispatched(),
            final(self).dispatched() == old(self).dispatched() + 1,
            final(self).in_flight() == old(self).in_flight().insert(r as int),
            final(self).completions() == old(self).completions(),
            final(self).size() == old(self).size(),
            final(self).budget() == old(self).budget(),
    {
        let i = self.next;
        let n = self.tasks.len();
        assert(i < n);
        self.tasks.set(i, TaskState::InFlight);
        self.next = i + 1;
        self.outstanding = self.outstanding + 1;
        proof {
            assert(!self.in_flight@.contains(i as int));
            self.in_flight = Ghost(self.in_flight@.insert(i as int));
            assert forall|j: int|
                0 <= j < self.tasks@.len() && #[trigger] self.tasks@[j]
                    == TaskState::Done implies exists|k: int|
                0 <= k < self.completions@.len() && #[trigger] self.completions@[k] == j by {
                assert(j != i);
                assert(old(self).tasks@[j] == TaskState::Done);
            }
        }
        i
    }

    /// Records that the lookup of candidate `index` has completed. Returns
    /// false, and changes nothing, when that lookup is not outstanding.
    pub fn complete(&mut self, index: usize) -> (r: bool)
        requires
            old(self).wf(),
        ensures
            final(self).wf(),
            r == old(self).in_flight().contains(index as int),
            r ==> final(self).in_flight() == old(self).in_flight().remove(index as int)
                && final(self).completions() == old(self).completions().push(index as int),
            !r ==> *final(self) == *old(self),
            final(self).dispatched() == old(self).dispatched(),
            final(self).size() == old(self).size(),
            final(self).budget() == old(self).budget(),
    {
        if index >= self.tasks.len() {
            return false;
        }
        if self.tasks[index] != TaskState::InFlight {
            return false;
        }
        proof {
            assert(self.in_flight@.contains(index as int));
            if self.budget == 1 {
                // The only outstanding lookup is the last one dispatched.
                assert(self.in_flight@.len() == 1);
                let m = self.completions@.len() as int;
                assert forall|k: int| 0 <= k < m implies #[trigger] self.completions@[k] != index by {
                }
                assert(self.tasks@[m] != TaskState::Waiting);
                if (index as int) < m {
                    assert(self.completions@[index as int] == index as int);
                }
                if index as int != m {
                    assert(index as int > m);
                    assert(self.next == m + 1);
                    assert(false);
                }
            }
        }
        self.tasks.set(index, TaskState::Done);
        self.outstanding = self.outstanding - 1;
        proof {
            self.in_flight = Ghost(self.in_flight@.remove(index as int));
            self.completions = Ghost(self.completions@.push(index as int));
            assert forall|j: int|
                0 <= j < self.tasks@.len() && #[trigger] self.tasks@[j]
                    == TaskState::Done implies exists|k: int|
                0 <= k < self.completions@.len() && #[trigger] self.completions@[k] == j by {
                if j == index {
                    assert(self.completions@[self.completions@.len() - 1] == j);
                } else {
                    assert(old(self).tasks@[j] == TaskState::Done);
                    let k = choose|k: int|
                        0 <= k < old(self).completions@.len() && #[trigger] old(
                            self,
                        ).completions@[k] == j;
                    assert(self.completions@[k] == j);
                }
            }
        }
        true
    }

    /// At any moment no more than `budget` lookups are outstanding.
    pub proof fn lemma_within_budget(self)
        requires
            self.wf(),
        ensures
            self.in_flight().len() <= self.budget(),
            self.in_flight().finite(),
    {
    }

    /// Every dispatched candidate is either outstanding or completed, never
    /// both, and no candidate completes twice; at the end of a run every
    /// candidate has completed exactly once.
    pub proof fn lemma_each_once(self)
        requires
            self.wf(),
        ensures
            self.completions().len() + self.in_flight().len() == self.dispatched(),
            forall|k: int|
                0 <= k < self.completions().len() ==> 0 <= #[trigger] self.completions()[k]
                    < self.dispatched() && !self.in_flight().contains(self.completions()[k]),
            forall|i: int| #[trigger] self.in_flight().contains(i) ==> 0 <= i < self.dispatched(),
            forall|k1: int, k2: int|
                0 <= k1 < k2 < self.completions().len() ==> #[trigger] self.completions()[k1]
                    != #[trigger] self.completions()[k2],
            self.spec_is_finished() ==> self.completions().len() == self.size(),
    {
        assert forall|k: int| 0 <= k < self.completions().len() implies 0
            <= #[trigger] self.completions()[k] < self.dispatched() by {
            let i = self.completions@[k];
            assert(self.tasks@[i] == TaskState::Done);
        }
    }

    /// With a budget of one the run is sequential: candidates complete in
    /// the order in which they were dispatched, which is their order in the
    /// word source, and only the last one dispatched can be outstanding.
    pub proof fn lemma_single_slot_in_order(self)
        requires
            self.wf(),
            self.budget() == 1,
        ensures
            self.completions() == Seq::new(self.completions().len(), |k: int| k),
            forall|i: int| #[trigger] self.in_flight().contains(i) ==> i == self.dispatched() - 1,
    {
        assert(self.completions@ =~= Seq::new(self.completions@.len(), |k: int| k));
        assert forall|i: int| #[trigger] self.in_flight().contains(i) implies i == self.dispatched()
            - 1 by {
            let m = self.completions@.len() as int;
            assert(self.in_flight@.len() == 1);
            assert(self.next == m + 1);
            if i < m {
                assert(self.completions@[i] == i);
                assert(self.tasks@[i] == TaskState::Done);
            }
        }
    }
}

} // verus!
