//! Bounds how many speakers are fully tracked at once; the rest wait in a queue.
//!
//! A speaker is admitted while fewer than `max_active` speakers are active, so the
//! active set never holds more than `max_active` members. Waiting speakers are
//! promoted smallest identity first, not in order of arrival.
use vstd::prelude::*;

verus! {

/// Outcome of offering a speaker to the admission controller.
#[derive(PartialEq, Eq, Structural, Clone, Copy, Debug)]
pub enum Admission {
    Admitted,
    Queued,
}

/// `x` is the least member of `s`.
pub open spec fn is_least(s: Set<u64>, x: u64) -> bool {
    s.contains(x) && forall|y: u64| #[trigger] s.contains(y) ==> x <= y
}

/// The active speakers and the queue of waiting ones, disjoint.
pub struct AdmissionSet {
    active: Vec<u64>,
    overflow: Vec<u64>,
    max_active: u32,
}

/// Removes `x` from a duplicate-free vector.
fn remove_value(v: &mut Vec<u64>, x: u64) -> (r: bool)
    requires
        old(v)@.no_duplicates(),
    ensures
        final(v)@.no_duplicates(),
        final(v)@.to_set() == old(v)@.to_set().remove(x),
        r == old(v)@.contains(x),
        final(v)@.len() == old(v)@.len() - (if r { 1int } else { 0int }),
{
    let mut i: usize = 0;
    while i < v.len()
        invariant
            i <= v@.len(),
            v@ == old(v)@,
            v@.no_duplicates(),
            forall|j: int| 0 <= j < i ==> v@[j] != x,
        decreases v@.len() - i,
    {
        if v[i] == x {
            let ghost before = v@;
            v.remove(i);
            proof {
                assert(v@ == before.remove(i as int));
                assert forall|a: int, b: int|
                    0 <= a < v@.len() && 0 <= b < v@.len() && a != b implies v@[a] != v@[b] by {
                    let oa = if a < i { a } else { a + 1 };
                    let ob = if b < i { b } else { b + 1 };
                    assert(v@[a] == before[oa]);
                    assert(v@[b] == before[ob]);
                }
                assert forall|y: u64| #[trigger] v@.contains(y) <==> (before.contains(y) && y != x) by {
                    if v@.contains(y) {
                        let j = choose|j: int| 0 <= j < v@.len() && v@[j] == y;
                        let oj = if j < i { j } else { j + 1 };
                        assert(before[oj] == y);
                        assert(oj != i);
                    }
                    if before.contains(y) && y != x {
                        let j = choose|j: int| 0 <= j < before.len() && before[j] == y;
                        if j < i {
                            assert(v@[j] == y);
                        } else {
                            assert(j != i);
                            assert(v@[j - 1] == y);
                        }
                    }
                }
                assert(v@.to_set() =~= before.to_set().remove(x));
            }
            return true;
        }
        i = i + 1;
    }
    assert(v@.to_set() =~= old(v)@.to_set().remove(x));
    false
}

/// Appends `x`, which `v` does not hold yet.
fn push_new(v: &mut Vec<u64>, x: u64)
    requires
        old(v)@.no_duplicates(),
        !old(v)@.contains(x),
    ensures
        final(v)@.no_duplicates(),
        final(v)@.to_set() == old(v)@.to_set().insert(x),
        final(v)@.len() == old(v)@.len() + 1,
{
    let ghost before = v@;
    v.push(x);
    proof {
        assert forall|y: u64| v@.contains(y) implies before.contains(y) || y == x by {
            let j = choose|j: int| 0 <= j < v@.len() && v@[j] == y;
            if j < before.len() {
                assert(before[j] == y);
            }
        }
        assert forall|y: u64| before.contains(y) || y == x implies v@.contains(y) by {
            if y == x {
                assert(v@[before.len() as int] == y);
            } else {
                let j = choose|j: int| 0 <= j < before.len() && before[j] == y;
                assert(v@[j] == y);
            }
        }
        assert(v@.to_set() =~= before.to_set().insert(x));
        assert forall|a: int, b: int| 0 <= a < v@.len() && 0 <= b < v@.len() && a != b implies v@[a] != v@[b] by {
            if a == before.len() {
                assert(before[b] == v@[b]);
            } else if b == before.len() {
                assert(before[a] == v@[a]);
            }
        }
    }
}

/// Where the least element of a non-empty vector stands.
fn least_index(v: &Vec<u64>) -> (r: usize)
    requires
        v@.len() > 0,
    ensures
        r < v@.len(),
        forall|j: int| 0 <= j < v@.len() ==> v@[r as int] <= v@[j],
{
    let mut best: usize = 0;
    let mut i: usize = 1;
    while i < v.len()
        invariant
            1 <= i <= v@.len(),
            best < i,
            forall|j: int| 0 <= j < i ==> v@[best as int] <= v@[j],
        decreases v@.len() - i,
    {
        if v[i] < v[best] {
            best = i;
        }
        i = i + 1;
    }
    best
}

impl AdmissionSet {
    /// Speakers that are fully tracked.
    pub closed spec fn active_set(&self) -> Set<u64> {
        self.active@.to_set()
    }

    /// Speakers waiting for a vacancy.
    pub closed spec fn overflow_set(&self) -> Set<u64> {
        self.overflow@.to_set()
    }

    /// How many speakers are active.
    pub closed spec fn active_count(&self) -> nat {
        self.active@.len()
    }

    /// The most speakers that may be active at once.
    pub closed spec fn max_active(&self) -> nat {
        self.max_active as nat
    }

    /// No duplicates, the two sets disjoint, and the bound respected.
    pub closed spec fn wf(&self) -> bool {
        &&& self.active@.no_duplicates()
        &&& self.overflow@.no_duplicates()
        &&& forall|x: u64| #[trigger] self.active@.contains(x) ==> !self.overflow@.contains(x)
        &&& self.active@.len() <= self.max_active
    }

    /// The count is the size of the active set, and never above the bound.
    pub proof fn lemma_active_count(&self)
        requires
            self.wf(),
        ensures
            self.active_set().finite(),
            self.active_set().len() == self.active_count(),
            self.active_count() <= self.max_active(),
            self.active_set().disjoint(self.overflow_set()),
    {
        self.active@.unique_seq_to_set();
    }

    /// No one active or waiting yet.
    pub fn new(max_active: u32) -> (r: Self)
        ensures
            r.wf(),
            r.active_set() == Set::<u64>::empty(),
            r.overflow_set() == Set::<u64>::empty(),
            r.active_count() == 0,
            r.max_active() == max_active,
    {
        let r = AdmissionSet { active: Vec::new(), overflow: Vec::new(), max_active };
        assert(r.active_set() =~= Set::<u64>::empty());
        assert(r.overflow_set() =~= Set::<u64>::empty());
        r
    }

    /// Whether `speaker` is active: events about anyone else are ignored.
    pub fn is_active(&self, speaker: u64) -> (r: bool)
        ensures
            r == self.active_set().contains(speaker),
    {
        let mut i: usize = 0;
        while i < self.active.len()
            invariant
                i <= self.active@.len(),
                forall|j: int| 0 <= j < i ==> self.active@[j] != speaker,
            decreases self.active@.len() - i,
        {
            if self.active[i] == speaker {
                return true;
            }
            i = i + 1;
        }
        false
    }

    /// Whether `speaker` waits in the queue.
    pub fn is_queued(&self, speaker: u64) -> (r: bool)
        ensures
            r == self.overflow_set().contains(speaker),
    {
        let mut i: usize = 0;
        while i < self.overflow.len()
            invariant
                i <= self.overflow@.len(),
                forall|j: int| 0 <= j < i ==> self.overflow@[j] != speaker,
            decreases self.overflow@.len() - i,
        {
            if self.overflow[i] == speaker {
                return true;
            }
            i = i + 1;
        }
        false
    }

    /// Admits `speaker` while there is room, else queues it. A speaker that is
    /// already active or queued keeps its place.
    pub fn offer(&mut self, speaker: u64) -> (r: Admission)
        requires
            old(self).wf(),
        ensures
            final(self).wf(),
            final(self).max_active() == old(self).max_active(),
            old(self).active_set().contains(speaker) ==> r == Admission::Admitted
                && final(self).active_set() == old(self).active_set()
                && final(self).overflow_set() == old(self).overflow_set()
                && final(self).active_count() == old(self).active_count(),
            old(self).overflow_set().contains(speaker) ==> r == Admission::Queued
                && final(self).active_set() == old(self).active_set()
                && final(self).overflow_set() == old(self).overflow_set()
                && final(self).active_count() == old(self).active_count(),
            !old(self).active_set().contains(speaker) && !old(self).overflow_set().contains(speaker)
                ==> if old(self).active_count() < old(self).max_active() {
                r == Admission::Admitted
                    && final(self).active_set() == old(self).active_set().insert(speaker)
                    && final(self).overflow_set() == old(self).overflow_set()
                    && final(self).active_count() == old(self).active_count() + 1
            } else {
                r == Admission::Queued
                    && final(self).active_set() == old(self).active_set()
                    && final(self).overflow_set() == old(self).overflow_set().insert(speaker)
                    && final(self).active_count() == old(self).active_count()
            },
    {
        if self.is_active(speaker) {
            return Admission::Admitted;
        }
        if self.is_queued(speaker) {
            return Admission::Queued;
        }
        if self.active.len() < self.max_active as usize {
            push_new(&mut self.active, speaker);
            proof {
                assert forall|x: u64| #[trigger] self.active@.contains(x) implies !self.overflow@.contains(x) by {
                    assert(self.active@.to_set().contains(x));
                }
            }
            Admission::Admitted
        } else {
            push_new(&mut self.overflow, speaker);
            proof {
                assert forall|x: u64| #[trigger] self.active@.contains(x) implies !self.overflow@.contains(x) by {
                    assert(self.active@.to_set().contains(x));
                    if self.overflow@.contains(x) {
                        assert(self.overflow@.to_set().contains(x));
                        assert(old(self).overflow@.to_set().contains(x) || x == speaker);
                    }
                }
            }
            Admission::Queued
        }
    }

    /// Takes `speaker` out of both the active set and the queue. If that leaves
    /// room and someone waits, the least waiting identity becomes active and is
    /// returned.
    pub fn release(&mut self, speaker: u64) -> (r: Option<u64>)
        requires
            old(self).wf(),
        ensures
            final(self).wf(),
            final(self).max_active() == old(self).max_active(),
            ({
                let active = old(self).active_set().remove(speaker);
                let waiting = old(self).overflow_set().remove(speaker);
                let count = old(self).active_count() - (if old(self).active_set().contains(speaker) {
                    1int
                } else {
                    0int
                });
                &&& r is Some <==> (count < old(self).max_active() && waiting != Set::<u64>::empty())
                &&& r matches Some(p) ==> is_least(waiting, p)
                    && final(self).active_set() == active.insert(p)
                    && final(self).overflow_set() == waiting.remove(p)
                    && final(self).active_count() == count + 1
                &&& r is None ==> final(self).active_set() == active
                    && final(self).overflow_set() == waiting
                    && final(self).active_count() == count
            }),
    {
        remove_value(&mut self.active, speaker);
        remove_value(&mut self.overflow, speaker);
        proof {
            assert forall|x: u64| #[trigger] self.active@.contains(x) implies !self.overflow@.contains(x) by {
                assert(self.active@.to_set().contains(x));
                assert(old(self).active@.to_set().contains(x));
                if self.overflow@.contains(x) {
                    assert(self.overflow@.to_set().contains(x));
                }
            }
        }
        if self.overflow.len() == 0 {
            assert(self.overflow@.to_set() =~= Set::<u64>::empty());
            return None;
        }
        if self.active.len() >= self.max_active as usize {
            assert(self.overflow@.to_set().contains(self.overflow@[0]));
            return None;
        }
        let i = least_index(&self.overflow);
        let ghost waiting = self.overflow@;
        proof {
            assert(waiting.to_set().contains(waiting[i as int]));
            assert forall|y: u64| #[trigger] waiting.to_set().contains(y) implies waiting[i as int] <= y by {
                let j = choose|j: int| 0 <= j < waiting.len() && waiting[j] == y;
            }
        }
        let p = self.overflow[i];
        remove_value(&mut self.overflow, p);
        proof {
            assert(!self.active@.contains(p)) by {
                if self.active@.contains(p) {
                    assert(waiting.contains(waiting[i as int]));
                }
            }
        }
        push_new(&mut self.active, p);
        proof {
            assert forall|x: u64| #[trigger] self.active@.contains(x) implies !self.overflow@.contains(x) by {
                assert(self.active@.to_set().contains(x));
                if self.overflow@.contains(x) {
                    assert(self.overflow@.to_set().contains(x));
                    assert(waiting.to_set().contains(x));
                }
            }
        }
        Some(p)
    }
}

} // verus!
