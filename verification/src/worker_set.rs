//! Ordered sets of worker ids, held in an `indexmap::IndexSet`.
//!
//! The set keeps the order in which workers were inserted; operators which fan
//! a message out to every worker do so in this order.
use vstd::prelude::*;

use indexmap::IndexSet;

use crate::types::WorkerId;

verus! {

#[verifier::external_type_specification]
#[verifier::external_body]
#[verifier::reject_recursive_types(T)]
#[verifier::reject_recursive_types(S)]
pub struct ExIndexSet<T, S>(IndexSet<T, S>);

/// The elements of an `IndexSet` of worker ids, in insertion order.
pub uninterp spec fn index_set_elems(s: IndexSet<u64>) -> Seq<u64>;

/// `IndexSet::new`: an empty set.
#[verifier::external_body]
fn index_set_new() -> (r: IndexSet<u64>)
    ensures
        index_set_elems(r) == Seq::<u64>::empty(),
{
    IndexSet::new()
}

/// `IndexSet::insert`: appends the value at the end unless an equal value is
/// already present, in which case the set is left unchanged; returns whether
/// the value was new.
#[verifier::external_body]
fn index_set_insert(s: &mut IndexSet<u64>, v: u64) -> (added: bool)
    ensures
        added == !index_set_elems(*old(s)).contains(v),
        added ==> index_set_elems(*final(s)) == index_set_elems(*old(s)).push(v),
        !added ==> index_set_elems(*final(s)) == index_set_elems(*old(s)),
{
    s.insert(v)
}

/// `IndexSet::contains`.
#[verifier::external_body]
fn index_set_contains(s: &IndexSet<u64>, v: u64) -> (b: bool)
    ensures
        b == index_set_elems(*s).contains(v),
{
    s.contains(&v)
}

/// `IndexSet::len`.
#[verifier::external_body]
fn index_set_len(s: &IndexSet<u64>) -> (n: usize)
    ensures
        n == index_set_elems(*s).len(),
{
    s.len()
}

/// `IndexSet::get_index`: the element at a position of the insertion order.
#[verifier::external_body]
fn index_set_get(s: &IndexSet<u64>, i: usize) -> (r: Option<u64>)
    ensures
        i < index_set_elems(*s).len() ==> r == Some(index_set_elems(*s)[i as int]),
        i >= index_set_elems(*s).len() ==> r is None,
{
    s.get_index(i).copied()
}

/// `IndexSet::intersection`, collected into a new set: the elements of `a`
/// that are also in `b`, in the order of `a`.
#[verifier::external_body]
fn index_set_intersection(a: &IndexSet<u64>, b: &IndexSet<u64>) -> (r: IndexSet<u64>)
    requires
        index_set_elems(*a).no_duplicates(),
    ensures
        index_set_elems(r) == index_set_elems(*a).filter(|x: u64| index_set_elems(*b).contains(x)),
{
    a.intersection(b).copied().collect()
}

/// `IndexSet::difference`, collected into a new set: the elements of `a` that
/// are not in `b`, in the order of `a`.
#[verifier::external_body]
fn index_set_difference(a: &IndexSet<u64>, b: &IndexSet<u64>) -> (r: IndexSet<u64>)
    requires
        index_set_elems(*a).no_duplicates(),
    ensures
        index_set_elems(r) == index_set_elems(*a).filter(|x: u64| !index_set_elems(*b).contains(x)),
{
    a.difference(b).copied().collect()
}

/// `IndexSet::clone`: a set with the same elements in the same order.
#[verifier::external_body]
fn index_set_clone(a: &IndexSet<u64>) -> (r: IndexSet<u64>)
    ensures
        index_set_elems(r) == index_set_elems(*a),
{
    a.clone()
}

/// Filtering a sequence without duplicates leaves no duplicates.
pub proof fn lemma_filter_no_duplicates(s: Seq<u64>, p: spec_fn(u64) -> bool)
    requires
        s.no_duplicates(),
    ensures
        s.filter(p).no_duplicates(),
    decreases s.len(),
{
    reveal(Seq::filter);
    if s.len() > 0 {
        let t = s.drop_last();
        assert(t.no_duplicates()) by {
            assert forall|i: int, j: int| 0 <= i < t.len() && 0 <= j < t.len() && i != j implies t[i]
                != t[j] by {
                assert(t[i] == s[i] && t[j] == s[j]);
            }
        }
        lemma_filter_no_duplicates(t, p);
        if p(s.last()) {
            let f = t.filter(p);
            assert(!f.contains(s.last())) by {
                if f.contains(s.last()) {
                    t.lemma_filter_contains_rev(p, s.last());
                    let j = choose|j: int| 0 <= j < t.len() && t[j] == s.last();
                    assert(s[j] == s[s.len() - 1]);
                }
            }
            assert forall|i: int, j: int|
                0 <= i < f.push(s.last()).len() && 0 <= j < f.push(s.last()).len() && i != j implies f.push(
                s.last(),
            )[i] != f.push(s.last())[j] by {
                if i == f.len() {
                    assert(f.contains(f[j]));
                } else if j == f.len() {
                    assert(f.contains(f[i]));
                }
            }
        }
    }
}

/// An ordered set of worker ids without duplicates.
pub struct WorkerSet {
    set: IndexSet<u64>,
}

impl View for WorkerSet {
    type V = Seq<u64>;

    closed spec fn view(&self) -> Seq<u64> {
        index_set_elems(self.set)
    }
}

impl WorkerSet {
    /// Every worker set lists each worker at most once.
    #[verifier::type_invariant]
    pub open spec fn inv(self) -> bool {
        self@.no_duplicates()
    }

    /// The empty worker set.
    pub fn new() -> (r: WorkerSet)
        ensures
            r@ == Seq::<u64>::empty(),
    {
        WorkerSet { set: index_set_new() }
    }

    /// Build a set from a list of workers, keeping the first occurrence of
    /// each worker in list order.
    pub fn from_workers(workers: &Vec<WorkerId>) -> (r: WorkerSet)
        ensures
            r@.to_set() == workers@.to_set(),
            r@.no_duplicates(),
            workers@.no_duplicates() ==> r@ == workers@,
    {
        let mut s = WorkerSet::new();
        let mut i: usize = 0;
        while i < workers.len()
            invariant
                i <= workers.len(),
                s@.to_set() == workers@.take(i as int).to_set(),
                s@.no_duplicates(),
                workers@.no_duplicates() ==> s@ == workers@.take(i as int),
            decreases workers.len() - i,
        {
            proof {
                use_type_invariant(&s);
            }
            let w = workers[i];
            let ghost before = s@;
            let added = s.insert(w);
            proof {
                if added {
                    before.lemma_push_to_set_commute(w);
                } else {
                    assert(before.to_set().contains(w));
                    assert(before.to_set().insert(w) =~= before.to_set());
                }
                assert(workers@.take(i + 1) == workers@.take(i as int).push(w));
                assert(workers@.take(i as int).push(w).to_set() == workers@.take(i as int).to_set().insert(w)) by {
                    workers@.take(i as int).lemma_push_to_set_commute(w);
                }
                if workers@.no_duplicates() {
                    assert(!workers@.take(i as int).contains(w)) by {
                        if workers@.take(i as int).contains(w) {
                            let j = choose|j: int| 0 <= j < i && workers@.take(i as int)[j] == w;
                            assert(workers@[j] == workers@[i as int]);
                        }
                    }
                }
            }
            i = i + 1;
        }
        proof {
            assert(workers@.take(workers@.len() as int) == workers@);
        }
        s
    }

    /// Add a worker at the end unless it is already a member; returns whether
    /// it was added.
    pub fn insert(&mut self, w: WorkerId) -> (added: bool)
        ensures
            added == !old(self)@.contains(w),
            added ==> final(self)@ == old(self)@.push(w),
            !added ==> final(self)@ == old(self)@,
    {
        proof {
            use_type_invariant(&*self);
        }
        let mut set = index_set_new();
        core::mem::swap(&mut set, &mut self.set);
        let added = index_set_insert(&mut set, w);
        proof {
            if added {
                assert(old(self)@.push(w).no_duplicates()) by {
                    assert forall|i: int, j: int|
                        0 <= i < j < old(self)@.push(w).len() implies old(self)@.push(w)[i]
                        != old(self)@.push(w)[j] by {
                        if j == old(self)@.len() {
                            assert(old(self)@.push(w)[i] == old(self)@[i]);
                        }
                    }
                }
            }
        }
        core::mem::swap(&mut set, &mut self.set);
        added
    }

    /// Membership test.
    pub fn contains(&self, w: WorkerId) -> (b: bool)
        ensures
            b == self@.contains(w),
    {
        index_set_contains(&self.set, w)
    }

    /// Number of workers in the set.
    pub fn len(&self) -> (n: usize)
        ensures
            n == self@.len(),
    {
        index_set_len(&self.set)
    }

    /// The worker at position `i` of the insertion order.
    pub fn get(&self, i: usize) -> (r: Option<WorkerId>)
        ensures
            i < self@.len() ==> r == Some(self@[i as int]),
            i >= self@.len() ==> r is None,
    {
        index_set_get(&self.set, i)
    }

    /// The workers of `self` which are also in `other`, in the order of `self`.
    pub fn intersection(&self, other: &WorkerSet) -> (r: WorkerSet)
        ensures
            r@ == self@.filter(|x: u64| other@.contains(x)),
    {
        proof {
            use_type_invariant(self);
        }
        let set = index_set_intersection(&self.set, &other.set);
        proof {
            lemma_filter_no_duplicates(self@, |x: u64| other@.contains(x));
        }
        WorkerSet { set }
    }

    /// The workers of `self` which are not in `other`, in the order of `self`.
    pub fn difference(&self, other: &WorkerSet) -> (r: WorkerSet)
        ensures
            r@ == self@.filter(|x: u64| !other@.contains(x)),
    {
        proof {
            use_type_invariant(self);
        }
        let set = index_set_difference(&self.set, &other.set);
        proof {
            lemma_filter_no_duplicates(self@, |x: u64| !other@.contains(x));
        }
        WorkerSet { set }
    }

    /// A copy of this set.
    pub fn duplicate(&self) -> (r: WorkerSet)
        ensures
            r@ == self@,
    {
        proof {
            use_type_invariant(self);
        }
        WorkerSet { set: index_set_clone(&self.set) }
    }
}

} // verus!
