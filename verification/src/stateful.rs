//! Stateful operators: per-key state which survives restarts (through
//! snapshots) and moves with its key when the worker set changes.
use vstd::prelude::*;

use std::collections::HashMap;

use crate::types::{DataMessage, Interrogate};
use vstd::std_specs::iter::IteratorSpec;

verus! {

broadcast use vstd::std_specs::hash::group_hash_axioms;

/// State of a key of a stateful operator: a key without state starts from
/// the default state.
pub trait State: Default {
}

impl<X: Default> State for X {
}

/// Key of a keyed stream whose state an operator holds.
pub type StateKey = u64;

/// The key states after a data message was processed: the state returned by
/// the logic is kept, `None` discards the key's state.
pub open spec fn after_data<S>(states: Map<StateKey, S>, key: StateKey, new_state: Option<S>) -> Map<
    StateKey,
    S,
> {
    match new_state {
        Some(s) => states.insert(key, s),
        None => states.remove(key),
    }
}

/// The key states after the state of `key` was handed over to another worker.
pub open spec fn after_collect<S>(states: Map<StateKey, S>, key: StateKey) -> Map<StateKey, S> {
    states.remove(key)
}

/// The key states after state for `key` was taken over from another worker.
pub open spec fn after_acquire<S>(states: Map<StateKey, S>, key: StateKey, state: Option<S>) -> Map<
    StateKey,
    S,
> {
    match state {
        Some(s) => states.insert(key, s),
        None => states,
    }
}

/// The keys of a map, each once, in the map's iteration order.
pub fn map_keys<V>(m: &HashMap<StateKey, V>) -> (r: Vec<StateKey>)
    ensures
        r@.to_set() == m@.dom(),
        r@.no_duplicates(),
        r@.len() == m@.dom().len(),
{
    let mut r: Vec<StateKey> = Vec::new();
    let ghost all = vstd::std_specs::hash::spec_keys_iter(m).remaining().unref();
    proof {
        vstd::std_specs::hash::axiom_spec_keys_iter(m);
        assert(all.no_duplicates()) by {
            let rem = vstd::std_specs::hash::spec_keys_iter(m).remaining();
            assert forall|i: int, j: int|
                0 <= i < all.len() && 0 <= j < all.len() && i != j implies all[i] != all[j] by {
                assert(rem[i] != rem[j]);
            }
        }
    }
    for k in it: m.keys()
        invariant
            it.seq().unref() == all,
            r@ == all.take(it.index() as int),
    {
        r.push(*k);
        proof {
            assert(all.take(it.index() + 1) == all.take(it.index() as int).push(*k));
        }
    }
    proof {
        assert(all.take(all.len() as int) == all);
    }
    r
}

/// Per-key state of a stateful operator.
///
/// For each data message the operator logic receives the state of the
/// message's key (or the default state if the key has none) and returns the
/// new state: `Some(x)` retains `x`, `None` discards the key's state.
pub struct StatefulOp<S> {
    state: HashMap<StateKey, S>,
}

impl<S> View for StatefulOp<S> {
    type V = Map<StateKey, S>;

    closed spec fn view(&self) -> Map<StateKey, S> {
        self.state@
    }
}

impl<S> StatefulOp<S> {
    /// An operator holding no state, as built when no snapshot exists.
    pub fn new() -> (r: Self)
        ensures
            r@ == Map::<StateKey, S>::empty(),
    {
        StatefulOp { state: HashMap::new() }
    }

    /// An operator restored from the key states of a snapshot.
    pub fn from_state(state: HashMap<StateKey, S>) -> (r: Self)
        ensures
            r@ == state@,
    {
        StatefulOp { state }
    }

    /// The state held for `key`, if any.
    pub fn get(&self, key: StateKey) -> (r: Option<&S>)
        ensures
            r == (if self@.contains_key(key) {
                Some(&self@[key])
            } else {
                None
            }),
    {
        self.state.get(&key)
    }

    /// Process one data message with the operator logic. The logic gets the
    /// message and the key's state, returns the new state for the key and the
    /// messages to emit, which are returned.
    pub fn on_data<V, T, O, L>(&mut self, msg: DataMessage<StateKey, V, T>, logic: L) -> (out: O) where
        S: State,
        L: FnOnce(DataMessage<StateKey, V, T>, S) -> (Option<S>, O),

        requires
            forall|m: DataMessage<StateKey, V, T>, s: S| #[trigger] logic.requires((m, s)),
        ensures
            exists|given: S, new_state: Option<S>|
                {
                    &&& #[trigger] logic.ensures((msg, given), (new_state, out))
                    &&& old(self)@.contains_key(msg.key) ==> given == old(self)@[msg.key]
                    &&& !old(self)@.contains_key(msg.key) ==> call_ensures(S::default, (), given)
                    &&& final(self)@ == after_data(old(self)@, msg.key, new_state)
                },
    {
        let key = msg.key;
        let key_state = match self.state.remove(&key) {
            Some(s) => s,
            None => S::default(),
        };
        let ghost given = key_state;
        let ghost m = msg;
        let (new_state, out) = logic(msg, key_state);
        match new_state {
            Some(n) => {
                self.state.insert(key, n);
            },
            None => {},
        }
        proof {
            assert(final(self)@ =~= after_data(old(self)@, m.key, new_state));
            assert(logic.ensures((m, given), (new_state, out)));
        }
        out
    }

    /// Handle an epoch: the logic gets the epoch and the states of all keys
    /// held here, returns the states to keep and the messages to emit, which
    /// are returned. The epoch itself is forwarded after them.
    pub fn on_epoch<T, O, L>(&mut self, epoch: &T, logic: L) -> (out: O) where
        L: FnOnce(&T, HashMap<StateKey, S>) -> (HashMap<StateKey, S>, O),

        requires
            forall|e: &T, m: HashMap<StateKey, S>| #[trigger] logic.requires((e, m)),
        ensures
            exists|given: HashMap<StateKey, S>, kept: HashMap<StateKey, S>|
                {
                    &&& #[trigger] logic.ensures((epoch, given), (kept, out))
                    &&& given@ == old(self)@
                    &&& final(self)@ == kept@
                },
    {
        let mut states: HashMap<StateKey, S> = HashMap::new();
        std::mem::swap(&mut states, &mut self.state);
        let ghost given = states;
        let (kept, out) = logic(epoch, states);
        let ghost k = kept;
        self.state = kept;
        proof {
            assert(logic.ensures((epoch, given), (k, out)));
        }
        out
    }

    /// Called whenever the operator is scheduled: the logic gets the states
    /// of all keys held here, returns the states to keep and the messages to
    /// emit, which are returned.
    pub fn on_schedule<O, L>(&mut self, logic: L) -> (out: O) where
        L: FnOnce(HashMap<StateKey, S>) -> (HashMap<StateKey, S>, O),

        requires
            forall|m: HashMap<StateKey, S>| #[trigger] logic.requires((m,)),
        ensures
            exists|given: HashMap<StateKey, S>, kept: HashMap<StateKey, S>|
                {
                    &&& #[trigger] logic.ensures((given,), (kept, out))
                    &&& given@ == old(self)@
                    &&& final(self)@ == kept@
                },
    {
        let mut states: HashMap<StateKey, S> = HashMap::new();
        std::mem::swap(&mut states, &mut self.state);
        let ghost given = states;
        let (kept, out) = logic(states);
        let ghost k = kept;
        self.state = kept;
        proof {
            assert(logic.ensures((given,), (k, out)));
        }
        out
    }

    /// Report every key this operator holds state for.
    pub fn on_interrogate(&self, interrogate: &mut Interrogate<StateKey>)
        ensures
            final(interrogate).keys@.len() == old(interrogate).keys@.len() + self@.dom().len(),
            final(interrogate).keys@.take(old(interrogate).keys@.len() as int) == old(
                interrogate,
            ).keys@,
            final(interrogate).keys@.skip(old(interrogate).keys@.len() as int).to_set()
                == self@.dom(),
            final(interrogate).keys@.skip(old(interrogate).keys@.len() as int).no_duplicates(),
    {
        let keys = map_keys(&self.state);
        let ghost start = interrogate.keys@;
        let mut i: usize = 0;
        while i < keys.len()
            invariant
                i <= keys@.len(),
                interrogate.keys@ == start + keys@.take(i as int),
            decreases keys.len() - i,
        {
            interrogate.keys.push(keys[i]);
            proof {
                assert(keys@.take(i + 1) == keys@.take(i as int).push(keys@[i as int]));
            }
            i = i + 1;
        }
        proof {
            assert(keys@.take(keys@.len() as int) == keys@);
            assert(interrogate.keys@.skip(start.len() as int) == keys@);
            assert(interrogate.keys@.take(start.len() as int) == start);
        }
    }

    /// Hand over the state of `key`, which moves to another worker. The key's
    /// state is removed from this operator.
    pub fn on_collect(&mut self, key: StateKey) -> (r: Option<S>)
        ensures
            final(self)@ == after_collect(old(self)@, key),
            r == (if old(self)@.contains_key(key) {
                Some(old(self)@[key])
            } else {
                None
            }),
    {
        let r = self.state.remove(&key);
        proof {
            assert(final(self)@ =~= after_collect(old(self)@, key));
        }
        r
    }

    /// Take over state for `key` from another worker, if that worker had any.
    pub fn on_acquire(&mut self, key: StateKey, state: Option<S>)
        ensures
            final(self)@ == after_acquire(old(self)@, key, state),
    {
        match state {
            Some(s) => {
                self.state.insert(key, s);
            },
            None => {},
        }
    }

    /// The key states to persist when a snapshot barrier passes.
    pub fn snapshot(&self) -> (r: &HashMap<StateKey, S>)
        ensures
            r@ == self@,
    {
        &self.state
    }
}

/// Law: a key's state is retained exactly when the logic returns `Some`, and
/// then it is the state the logic returned.
pub proof fn state_retained_iff_some<S>(states: Map<StateKey, S>, key: StateKey, new_state: Option<S>)
    ensures
        after_data(states, key, new_state).contains_key(key) <==> new_state is Some,
        new_state is Some ==> after_data(states, key, new_state)[key] == new_state->0,
        forall|k: StateKey|
            k != key ==> (#[trigger] after_data(states, key, new_state).contains_key(k)
                <==> states.contains_key(k)),
{
}

/// Law: after a key's state was collected the operator holds no state for
/// that key (so, by `StatefulOp::on_data`, its next message is given the
/// default state), and no other key is affected.
pub proof fn collected_key_starts_fresh<S>(states: Map<StateKey, S>, key: StateKey)
    ensures
        !after_collect(states, key).contains_key(key),
        forall|k: StateKey|
            k != key ==> (#[trigger] after_collect(states, key).contains_key(k) <==> states.contains_key(
                k,
            )) && (states.contains_key(k) ==> after_collect(states, key)[k] == states[k]),
{
}

/// Law: state acquired for a key is the state the next message of that key
/// receives.
pub proof fn acquired_state_is_used<S>(states: Map<StateKey, S>, key: StateKey, state: S)
    ensures
        after_acquire(states, key, Some(state)).contains_key(key),
        after_acquire(states, key, Some(state))[key] == state,
{
}

/// Law: collecting a key's state and acquiring it again restores the key
/// states as they were.
pub proof fn collect_then_acquire_restores<S>(states: Map<StateKey, S>, key: StateKey)
    requires
        states.contains_key(key),
    ensures
        after_acquire(after_collect(states, key), key, Some(states[key])) == states,
{
    assert(after_acquire(after_collect(states, key), key, Some(states[key])) =~= states);
}

} // verus!
