//! Communication of an operator with its counterparts on other workers.
use vstd::prelude::*;

use std::collections::HashMap;

use crate::types::{OperatorId, WorkerId};
use crate::worker_set::WorkerSet;
use vstd::std_specs::iter::IteratorSpec;

verus! {

broadcast use vstd::std_specs::hash::group_hash_axioms;

/// Errors of sending through a [CommUtility].
#[derive(Debug, PartialEq, Eq, Structural)]
pub enum CommUtilityError<T> {
    /// There is no connection to the worker; the message is handed back.
    WorkerIdNotConnected(T),
}

impl<T> CommUtilityError<T> {
    /// Human readable description of the error.
    pub fn message(&self) -> (r: &'static str)
        ensures
            r@ == "Worker ID not connected"@,
    {
        match self {
            CommUtilityError::WorkerIdNotConnected(_) => "Worker ID not connected",
        }
    }
}

/// Connections of an operator to the same operator on every worker of the
/// job (including its own worker), all on one channel id.
///
/// `C` is the connection (sender and receiver) to one worker.
pub struct CommUtility<C> {
    clients: HashMap<WorkerId, C>,
    channel_id: OperatorId,
}

impl<C> View for CommUtility<C> {
    type V = Map<WorkerId, C>;

    /// The connection to each connected worker.
    closed spec fn view(&self) -> Map<WorkerId, C> {
        self.clients@
    }
}

impl<C> CommUtility<C> {
    /// The channel id shared by both ends of every connection.
    pub closed spec fn channel(&self) -> OperatorId {
        self.channel_id
    }

    /// Connect to every worker of the job (including this worker: both
    /// sides of a pair may live on the same worker) on `channel_id`, which
    /// the two sides of a pair share. `connect` creates the connection to one
    /// worker on a channel; it fails as the communication backend does.
    pub fn new<F: Fn(WorkerId, OperatorId) -> C>(workers: &WorkerSet, channel_id: OperatorId, connect: F) -> (r: Self)
        requires
            forall|w: WorkerId, ch: OperatorId| #[trigger] connect.requires((w, ch)),
        ensures
            r@.dom() == workers@.to_set(),
            forall|w: WorkerId| #[trigger] r@.contains_key(w) ==> connect.ensures((w, channel_id), r@[w]),
            r.channel() == channel_id,
    {
        let mut clients: HashMap<WorkerId, C> = HashMap::new();
        let n = workers.len();
        let mut i: usize = 0;
        while i < n
            invariant
                n == workers@.len(),
                i <= n,
                forall|w: WorkerId, ch: OperatorId| #[trigger] connect.requires((w, ch)),
                clients@.dom() == workers@.take(i as int).to_set(),
                forall|w: WorkerId| #[trigger] clients@.contains_key(w) ==> connect.ensures((w, channel_id), clients@[w]),
            decreases n - i,
        {
            let w = workers.get(i).unwrap();
            let c = connect(w, channel_id);
            clients.insert(w, c);
            proof {
                assert(workers@.take(i + 1) == workers@.take(i as int).push(w));
                workers@.take(i as int).lemma_push_to_set_commute(w);
                assert(clients@.dom() =~= workers@.take(i + 1).to_set());
            }
            i = i + 1;
        }
        proof {
            assert(workers@.take(n as int) == workers@);
        }
        CommUtility { clients, channel_id }
    }

    /// The channel id shared by both ends of every connection.
    pub fn channel_id(&self) -> (r: OperatorId)
        ensures
            r == self.channel(),
    {
        self.channel_id
    }

    /// The workers connected, as an ordered set.
    pub fn connected_workers(&self) -> (r: WorkerSet)
        ensures
            r@.to_set() == self@.dom(),
    {
        let mut r = WorkerSet::new();
        let ghost all = vstd::std_specs::hash::spec_keys_iter(&self.clients).remaining().unref();
        proof {
            vstd::std_specs::hash::axiom_spec_keys_iter(&self.clients);
        }
        for k in it: self.clients.keys()
            invariant
                it.seq().unref() == all,
                all.to_set() == self@.dom(),
                r@.to_set() == all.take(it.index() as int).to_set(),
        {
            let ghost before = r@;
            let added = r.insert(*k);
            proof {
                assert(all.take(it.index() + 1) == all.take(it.index() as int).push(*k));
                all.take(it.index() as int).lemma_push_to_set_commute(*k);
                if added {
                    before.lemma_push_to_set_commute(*k);
                } else {
                    assert(before.to_set().insert(*k) =~= before.to_set());
                }
            }
        }
        proof {
            assert(all.take(all.len() as int) == all);
        }
        r
    }

    /// The workers of `workers` to which there is no connection yet, in the
    /// order of `workers`. Building the utility connects to every worker of
    /// the job; a rescale connects to the workers which joined.
    pub fn missing_connections(&self, workers: &WorkerSet) -> (r: WorkerSet)
        ensures
            r@ == workers@.filter(|w: WorkerId| !self@.dom().contains(w)),
    {
        let existing = self.connected_workers();
        let r = workers.difference(&existing);
        proof {
            let f1 = |w: WorkerId| !existing@.contains(w);
            let f2 = |w: WorkerId| !self@.dom().contains(w);
            assert forall|w: WorkerId| #[trigger] f1(w) == f2(w) by {
                assert(existing@.contains(w) == existing@.to_set().contains(w));
            }
            assert(f1 =~= f2);
        }
        r
    }

    /// On a rescale, connect to the workers of the job to which there is no
    /// connection yet; existing connections stay as they are.
    pub fn handle_rescale<F: Fn(WorkerId, OperatorId) -> C>(&mut self, all_workers: &WorkerSet, connect: F)
        requires
            forall|w: WorkerId, ch: OperatorId| #[trigger] connect.requires((w, ch)),
        ensures
            final(self)@.dom() == old(self)@.dom() + all_workers@.to_set(),
            forall|w: WorkerId| #[trigger] old(self)@.contains_key(w) ==> final(self)@[w] == old(self)@[w],
            forall|w: WorkerId|
                #[trigger] final(self)@.contains_key(w) && !old(self)@.contains_key(w) ==> connect.ensures(
                    (w, old(self).channel()),
                    final(self)@[w],
                ),
            final(self).channel() == old(self).channel(),
    {
        let missing = self.missing_connections(all_workers);
        let ghost p = |x: WorkerId| !old(self)@.dom().contains(x);
        let n = missing.len();
        let mut i: usize = 0;
        while i < n
            invariant
                n == missing@.len(),
                i <= n,
                forall|w: WorkerId, ch: OperatorId| #[trigger] connect.requires((w, ch)),
                missing@ == all_workers@.filter(p),
                p == (|x: WorkerId| !old(self)@.dom().contains(x)),
                self.channel() == old(self).channel(),
                self@.dom() == old(self)@.dom() + missing@.take(i as int).to_set(),
                forall|w: WorkerId| #[trigger] old(self)@.contains_key(w) ==> self@[w] == old(self)@[w],
                forall|w: WorkerId|
                    #[trigger] self@.contains_key(w) && !old(self)@.contains_key(w) ==> connect.ensures(
                        (w, old(self).channel()),
                        self@[w],
                    ),
            decreases n - i,
        {
            let w = missing.get(i).unwrap();
            proof {
                all_workers@.lemma_filter_pred(p, i as int);
            }
            let c = connect(w, self.channel_id);
            self.clients.insert(w, c);
            proof {
                assert(missing@.take(i + 1) == missing@.take(i as int).push(w));
                missing@.take(i as int).lemma_push_to_set_commute(w);
                assert(self@.dom() =~= old(self)@.dom() + missing@.take(i + 1).to_set());
            }
            i = i + 1;
        }
        proof {
            assert(missing@.take(n as int) == missing@);
            assert forall|w: WorkerId|
                (old(self)@.dom() + missing@.to_set()).contains(w) <==> #[trigger] (old(self)@.dom()
                    + all_workers@.to_set()).contains(w) by {
                if missing@.to_set().contains(w) {
                    assert(missing@.contains(w));
                    all_workers@.lemma_filter_contains_rev(p, w);
                }
                if all_workers@.to_set().contains(w) && !old(self)@.dom().contains(w) {
                    let j = choose|j: int| 0 <= j < all_workers@.len() && all_workers@[j] == w;
                    all_workers@.lemma_filter_contains(p, j);
                    assert(missing@.contains(w));
                }
            }
            assert(self@.dom() =~= old(self)@.dom() + all_workers@.to_set());
        }
    }

    /// After a reconfiguration completed, drop the connections to workers
    /// which are no longer part of the job.
    pub fn handle_reconfig_complete(&mut self, new_workers: &WorkerSet)
        ensures
            final(self)@ == old(self)@.restrict(new_workers@.to_set()),
            final(self).channel() == old(self).channel(),
    {
        let connected = self.connected_workers();
        let gone = connected.difference(new_workers);
        let n = gone.len();
        let mut i: usize = 0;
        while i < n
            invariant
                n == gone@.len(),
                i <= n,
                gone@ == connected@.filter(|w: WorkerId| !new_workers@.contains(w)),
                connected@.to_set() == old(self)@.dom(),
                self.channel() == old(self).channel(),
                self@ == old(self)@.remove_keys(gone@.take(i as int).to_set()),
            decreases n - i,
        {
            let w = gone.get(i).unwrap();
            self.clients.remove(&w);
            proof {
                assert(gone@.take(i + 1) == gone@.take(i as int).push(w));
                gone@.take(i as int).lemma_push_to_set_commute(w);
                assert(self@ =~= old(self)@.remove_keys(gone@.take(i + 1).to_set()));
            }
            i = i + 1;
        }
        proof {
            assert(gone@.take(n as int) == gone@);
            let p = |w: WorkerId| !new_workers@.contains(w);
            assert forall|w: WorkerId| #[trigger] gone@.to_set().contains(w) <==> (old(self)@.dom().contains(w) && !new_workers@.contains(w)) by {
                if gone@.to_set().contains(w) {
                    assert(gone@.contains(w));
                    connected@.lemma_filter_contains_rev(p, w);
                    let j = choose|j: int| 0 <= j < gone@.len() && gone@[j] == w;
                    connected@.lemma_filter_pred(p, j);
                    assert(connected@.to_set().contains(w));
                }
                if old(self)@.dom().contains(w) && !new_workers@.contains(w) {
                    assert(connected@.to_set().contains(w));
                    let j = choose|j: int| 0 <= j < connected@.len() && connected@[j] == w;
                    connected@.lemma_filter_contains(p, j);
                    assert(gone@.contains(w));
                }
            }
            assert(self@ =~= old(self)@.restrict(new_workers@.to_set()));
        }
    }

    /// Route a message to the connection of worker `wid`. If there is no
    /// connection to that worker, the message is handed back in the error.
    pub fn route<T>(&self, wid: WorkerId, msg: T) -> (r: Result<(&C, T), CommUtilityError<T>>)
        ensures
            self@.contains_key(wid) ==> r == Ok::<(&C, T), CommUtilityError<T>>((&self@[wid], msg)),
            !self@.contains_key(wid) ==> r == Err::<(&C, T), CommUtilityError<T>>(
                CommUtilityError::WorkerIdNotConnected(msg),
            ),
    {
        match self.clients.get(&wid) {
            Some(c) => Ok((c, msg)),
            None => Err(CommUtilityError::WorkerIdNotConnected(msg)),
        }
    }

    /// Whether there is any connection to receive from. Receiving without
    /// connections waits forever.
    pub fn has_clients(&self) -> (r: bool)
        ensures
            r == (self@.dom().len() > 0),
    {
        self.clients.len() > 0
    }
}

/// A communication backend which always fails to create a connection.
/// Only useful for unit tests where an operator must not connect to anything.
#[derive(Debug, Default)]
pub struct NoCommunication;

impl NoCommunication {
    /// Creating a sender always fails.
    pub fn new_sender(&self, _to_worker: WorkerId, _channel_id: OperatorId) -> (r: Result<(), &'static str>)
        ensures
            r == Err::<(), &'static str>("NoCommunication backend cannot create senders"),
    {
        Err("NoCommunication backend cannot create senders")
    }

    /// Creating a receiver always fails.
    pub fn new_receiver(&self, _from_worker: WorkerId, _channel_id: OperatorId) -> (r: Result<(), &'static str>)
        ensures
            r == Err::<(), &'static str>("NoCommunication backend cannot create receivers"),
    {
        Err("NoCommunication backend cannot create receivers")
    }
}

/// Law: after a reconfiguration completes, an operator is connected exactly
/// to the workers it was connected to which are still part of the job, and
/// routing a message to a worker that left hands the message back.
pub proof fn reconfig_disconnects_departed_workers<C>(before: Map<WorkerId, C>, new_workers: Set<WorkerId>, w: WorkerId)
    ensures
        before.restrict(new_workers).contains_key(w) <==> (before.contains_key(w) && new_workers.contains(w)),
{
}

/// Law: once a rescale is handled, the operator is connected to every
/// worker of the job.
pub proof fn rescale_connects_every_worker(before: Set<WorkerId>, all_workers: Seq<WorkerId>, w: WorkerId)
    requires
        all_workers.contains(w),
    ensures
        (before + all_workers.to_set()).contains(w),
{
}

/// Law: a rescale to a set of workers followed by the reconfiguration to
/// that same set leaves the operator connected to exactly those workers.
pub proof fn rescale_then_reconfig_connects_exactly<C>(after_rescale: Map<WorkerId, C>, before: Set<WorkerId>, workers: Seq<WorkerId>)
    requires
        after_rescale.dom() == before + workers.to_set(),
    ensures
        after_rescale.restrict(workers.to_set()).dom() == workers.to_set(),
{
    assert(after_rescale.restrict(workers.to_set()).dom() =~= workers.to_set());
}

} // verus!
