//! Reactive signals: values (as bytes) with subscribers, and the queue of
//! signals changed since the last time pending updates were processed.

use vstd::prelude::*;
use crate::runtime::abi::RuntimeError;
use crate::util::copy::copy_vec;
use std::collections::HashMap;

verus! {

/// The stored state of a signal: its value as bytes and its subscribers.
#[derive(Debug)]
pub struct SignalData {
    pub(crate) value: Vec<u8>,
    pub(crate) subscribers: Vec<u64>,
}

impl SignalData {
    /// The stored bytes.
    pub closed spec fn bytes(&self) -> Seq<u8> {
        self.value@
    }

    /// The subscribers, in order.
    pub closed spec fn subscriber_seq(&self) -> Seq<u64> {
        self.subscribers@
    }

    /// A signal state with `value` and no subscribers.
    pub fn new(value: Vec<u8>) -> (r: Self)
        ensures
            r.bytes() == value@,
            r.subscriber_seq().len() == 0,
    {
        SignalData { value, subscribers: Vec::new() }
    }
}

/// `s` without any occurrence of `x`, the rest in order.
pub open spec fn without(s: Seq<u64>, x: u64) -> Seq<u64>
    decreases s.len(),
{
    if s.len() == 0 {
        Seq::empty()
    } else if s.last() == x {
        without(s.drop_last(), x)
    } else {
        without(s.drop_last(), x).push(s.last())
    }
}

/// `s` with `x` added at the end unless it is there already.
pub open spec fn with_member(s: Seq<u64>, x: u64) -> Seq<u64> {
    if s.contains(x) { s } else { s.push(x) }
}

fn remove_all(v: &Vec<u64>, x: u64) -> (r: Vec<u64>)
    ensures
        r@ == without(v@, x),
{
    let mut out: Vec<u64> = Vec::new();
    let mut i: usize = 0;
    while i < v.len()
        invariant
            0 <= i <= v@.len(),
            out@ == without(v@.take(i as int), x),
        decreases v@.len() - i,
    {
        assert(v@.take(i + 1).drop_last() =~= v@.take(i as int));
        if v[i] != x {
            out.push(v[i]);
        }
        i = i + 1;
    }
    assert(v@.take(v@.len() as int) =~= v@);
    out
}

fn contains_u64(v: &Vec<u64>, x: u64) -> (r: bool)
    ensures
        r == v@.contains(x),
{
    let mut i: usize = 0;
    while i < v.len()
        invariant
            0 <= i <= v@.len(),
            forall|j: int| 0 <= j < i ==> v@[j] != x,
        decreases v@.len() - i,
    {
        if v[i] == x {
            assert(v@[i as int] == x);
            return true;
        }
        i = i + 1;
    }
    false
}

/// A typed signal with subscribers.
#[derive(Debug)]
pub struct Signal<T> {
    pub id: u64,
    pub(crate) value: T,
    pub(crate) subscribers: Vec<u64>,
}

impl<T> Signal<T> {
    /// The signal's identifier.
    pub closed spec fn ident(&self) -> u64 {
        self.id
    }

    /// The signal's value.
    pub closed spec fn current(&self) -> T {
        self.value
    }

    /// The signal's subscribers, in order.
    pub closed spec fn subscriber_seq(&self) -> Seq<u64> {
        self.subscribers@
    }

    /// A signal with `id` and `value` and no subscribers.
    pub fn new(id: u64, value: T) -> (r: Self)
        ensures
            r.ident() == id,
            r.current() == value,
            r.subscriber_seq().len() == 0,
    {
        Signal { id, value, subscribers: Vec::new() }
    }

    /// The current value.
    pub fn get(&self) -> (r: &T)
        ensures
            *r == self.current(),
    {
        &self.value
    }

    /// Set the value.
    pub fn set(&mut self, value: T)
        ensures
            final(self).current() == value,
            final(self).ident() == old(self).ident(),
            final(self).subscriber_seq() == old(self).subscriber_seq(),
    {
        self.value = value;
    }

    /// Subscribe a callback, once.
    pub fn subscribe(&mut self, callback: u64)
        ensures
            final(self).subscriber_seq() == with_member(old(self).subscriber_seq(), callback),
            final(self).current() == old(self).current(),
            final(self).ident() == old(self).ident(),
    {
        if !contains_u64(&self.subscribers, callback) {
            self.subscribers.push(callback);
        }
    }

    /// Unsubscribe a callback.
    pub fn unsubscribe(&mut self, callback: u64)
        ensures
            final(self).subscriber_seq() == without(old(self).subscriber_seq(), callback),
            final(self).current() == old(self).current(),
            final(self).ident() == old(self).ident(),
    {
        self.subscribers = remove_all(&self.subscribers, callback);
    }

    /// The subscribers, in order.
    pub fn subscribers(&self) -> (r: &[u64])
        ensures
            r@ == self.subscriber_seq(),
    {
        self.subscribers.as_slice()
    }
}

/// A signal as a value: its bytes and its subscribers.
pub type SignalView = (Seq<u8>, Seq<u64>);

/// Storage for all signals.
#[derive(Debug)]
pub struct SignalStore {
    signals: HashMap<u64, SignalData>,
    next_id: u64,
    pending_updates: Vec<u64>,
}

impl SignalStore {
    /// The signals, by identifier.
    pub closed spec fn table(&self) -> Map<u64, SignalView> {
        Map::new(
            |k: u64| self.signals@.contains_key(k),
            |k: u64| (self.signals@[k].value@, self.signals@[k].subscribers@),
        )
    }

    /// The signals changed since pending updates were last processed, in
    /// the order of their first change.
    pub closed spec fn pending(&self) -> Seq<u64> {
        self.pending_updates@
    }

    /// The identifier the next signal will get.
    pub closed spec fn next(&self) -> u64 {
        self.next_id
    }

    /// Identifiers are below the counter; pending signals exist and are
    /// listed once.
    pub closed spec fn wf(&self) -> bool {
        &&& forall|k: u64| #[trigger] self.signals@.contains_key(k) ==> k < self.next_id
        &&& forall|i: int| 0 <= i < self.pending_updates@.len() ==> self.signals@.contains_key(#[trigger] self.pending_updates@[i])
        &&& forall|i: int, j: int| 0 <= i < j < self.pending_updates@.len() ==> #[trigger] self.pending_updates@[i] != #[trigger] self.pending_updates@[j]
    }

    /// An empty store whose identifiers start at 1.
    pub fn new() -> (r: Self)
        ensures
            r.wf(),
            r.table() == Map::<u64, SignalView>::empty(),
            r.pending().len() == 0,
            r.next() == 1,
    {
        let r = SignalStore { signals: HashMap::new(), next_id: 1, pending_updates: Vec::new() };
        assert(r.table() =~= Map::<u64, SignalView>::empty());
        r
    }

    /// Create a signal holding `initial`; it gets the next identifier.
    pub fn create_raw(&mut self, initial: Vec<u8>) -> (r: u64)
        requires
            old(self).wf(),
            old(self).next() < u64::MAX,
        ensures
            final(self).wf(),
            r == old(self).next(),
            final(self).next() == old(self).next() + 1,
            final(self).table() == old(self).table().insert(r, (initial@, Seq::empty())),
            final(self).pending() == old(self).pending(),
    {
        let ghost before = self.table();
        let ghost v = initial@;
        let id = self.next_id;
        self.next_id = self.next_id + 1;
        let data = SignalData::new(initial);
        assert(data.subscribers@ =~= Seq::<u64>::empty());
        self.signals.insert(id, data);
        assert(self.table() =~= before.insert(id, (v, Seq::empty())));
        id
    }

    /// The bytes of signal `id`.
    pub fn get_raw(&self, id: u64) -> (r: Result<Vec<u8>, RuntimeError>)
        ensures
            match r {
                Ok(v) => self.table().contains_key(id) && v@ == self.table()[id].0,
                Err(e) => !self.table().contains_key(id) && e == RuntimeError::SignalNotFound(id),
            },
    {
        match self.signals.get(&id) {
            Some(data) => Ok(copy_vec(&data.value)),
            None => Err(RuntimeError::SignalNotFound(id)),
        }
    }

    /// Set the bytes of signal `id`, and mark it pending if it is not yet.
    pub fn set_raw(&mut self, id: u64, value: Vec<u8>) -> (r: Result<(), RuntimeError>)
        requires
            old(self).wf(),
        ensures
            final(self).wf(),
            final(self).next() == old(self).next(),
            match r {
                Ok(()) => old(self).table().contains_key(id)
                    && final(self).table() == old(self).table().insert(id, (value@, old(self).table()[id].1))
                    && final(self).pending() == with_member(old(self).pending(), id),
                Err(e) => !old(self).table().contains_key(id) && e == RuntimeError::SignalNotFound(id)
                    && final(self).table() == old(self).table() && final(self).pending() == old(self).pending(),
            },
    {
        let ghost before = self.table();
        let ghost v = value@;
        match self.signals.remove(&id) {
            Some(data) => {
                let subs = data.subscribers;
                let ghost s = subs@;
                self.signals.insert(id, SignalData { value, subscribers: subs });
                assert(self.table() =~= before.insert(id, (v, s)));
                if !contains_u64(&self.pending_updates, id) {
                    self.pending_updates.push(id);
                }
                Ok(())
            },
            None => {
                assert(self.table() =~= before);
                Err(RuntimeError::SignalNotFound(id))
            },
        }
    }

    /// Subscribe `callback` to signal `signal_id`, once.
    pub fn subscribe(&mut self, signal_id: u64, callback: u64) -> (r: Result<(), RuntimeError>)
        requires
            old(self).wf(),
        ensures
            final(self).wf(),
            final(self).next() == old(self).next(),
            final(self).pending() == old(self).pending(),
            match r {
                Ok(()) => old(self).table().contains_key(signal_id)
                    && final(self).table() == old(self).table().insert(signal_id,
                        (old(self).table()[signal_id].0, with_member(old(self).table()[signal_id].1, callback))),
                Err(e) => !old(self).table().contains_key(signal_id) && e == RuntimeError::SignalNotFound(signal_id)
                    && final(self).table() == old(self).table(),
            },
    {
        let ghost before = self.table();
        match self.signals.remove(&signal_id) {
            Some(data) => {
                let mut subs = data.subscribers;
                let ghost s = subs@;
                let ghost v = data.value@;
                if !contains_u64(&subs, callback) {
                    subs.push(callback);
                }
                self.signals.insert(signal_id, SignalData { value: data.value, subscribers: subs });
                assert(self.table() =~= before.insert(signal_id, (v, with_member(s, callback))));
                Ok(())
            },
            None => {
                assert(self.table() =~= before);
                Err(RuntimeError::SignalNotFound(signal_id))
            },
        }
    }

    /// Unsubscribe `callback` from signal `signal_id`.
    pub fn unsubscribe(&mut self, signal_id: u64, callback: u64) -> (r: Result<(), RuntimeError>)
        requires
            old(self).wf(),
        ensures
            final(self).wf(),
            final(self).next() == old(self).next(),
            final(self).pending() == old(self).pending(),
            match r {
                Ok(()) => old(self).table().contains_key(signal_id)
                    && final(self).table() == old(self).table().insert(signal_id,
                        (old(self).table()[signal_id].0, without(old(self).table()[signal_id].1, callback))),
                Err(e) => !old(self).table().contains_key(signal_id) && e == RuntimeError::SignalNotFound(signal_id)
                    && final(self).table() == old(self).table(),
            },
    {
        let ghost before = self.table();
        match self.signals.remove(&signal_id) {
            Some(data) => {
                let ghost s = data.subscribers@;
                let ghost v = data.value@;
                let subs = remove_all(&data.subscribers, callback);
                self.signals.insert(signal_id, SignalData { value: data.value, subscribers: subs });
                assert(self.table() =~= before.insert(signal_id, (v, without(s, callback))));
                Ok(())
            },
            None => {
                assert(self.table() =~= before);
                Err(RuntimeError::SignalNotFound(signal_id))
            },
        }
    }

    /// The subscribers of signal `signal_id`, in order.
    pub fn subscribers(&self, signal_id: u64) -> (r: Result<Vec<u64>, RuntimeError>)
        ensures
            match r {
                Ok(v) => self.table().contains_key(signal_id) && v@ == self.table()[signal_id].1,
                Err(e) => !self.table().contains_key(signal_id) && e == RuntimeError::SignalNotFound(signal_id),
            },
    {
        match self.signals.get(&signal_id) {
            Some(data) => Ok(copy_vec(&data.subscribers)),
            None => Err(RuntimeError::SignalNotFound(signal_id)),
        }
    }

    /// Take the pending updates, in order: each changed signal with its
    /// bytes and subscribers. Nothing is pending afterwards.
    pub fn process_pending(&mut self) -> (r: Vec<(u64, Vec<u8>, Vec<u64>)>)
        requires
            old(self).wf(),
        ensures
            final(self).wf(),
            final(self).pending().len() == 0,
            final(self).table() == old(self).table(),
            final(self).next() == old(self).next(),
            r@.len() == old(self).pending().len(),
            forall|i: int| 0 <= i < r@.len() ==> {
                let id = #[trigger] old(self).pending()[i];
                &&& r@[i].0 == id
                &&& r@[i].1@ == old(self).table()[id].0
                &&& r@[i].2@ == old(self).table()[id].1
            },
    {
        let mut pending: Vec<u64> = Vec::new();
        std::mem::swap(&mut pending, &mut self.pending_updates);
        let mut results: Vec<(u64, Vec<u8>, Vec<u64>)> = Vec::new();
        let mut i: usize = 0;
        while i < pending.len()
            invariant
                0 <= i <= pending@.len(),
                pending@ == old(self).pending(),
                self.table() == old(self).table(),
                self.signals@ == old(self).signals@,
                forall|j: int| 0 <= j < pending@.len() ==> self.signals@.contains_key(#[trigger] pending@[j]),
                results@.len() == i,
                forall|j: int| 0 <= j < i ==> {
                    let id = #[trigger] pending@[j];
                    &&& results@[j].0 == id
                    &&& results@[j].1@ == old(self).table()[id].0
                    &&& results@[j].2@ == old(self).table()[id].1
                },
            decreases pending@.len() - i,
        {
            let id = pending[i];
            match self.signals.get(&id) {
                Some(data) => {
                    results.push((id, copy_vec(&data.value), copy_vec(&data.subscribers)));
                },
                None => {},
            }
            i = i + 1;
        }
        results
    }

    /// Whether any signal is pending.
    pub fn has_pending(&self) -> (r: bool)
        ensures
            r == (self.pending().len() > 0),
    {
        self.pending_updates.len() != 0
    }

    /// The number of signals.
    pub fn len(&self) -> (r: usize)
        ensures
            r == self.table().len(),
    {
        assert(self.table().dom() =~= self.signals@.dom());
        self.signals.len()
    }

    /// Whether there are no signals.
    pub fn is_empty(&self) -> (r: bool)
        ensures
            r == (self.table().len() == 0),
    {
        assert(self.table().dom() =~= self.signals@.dom());
        self.signals.is_empty()
    }

    /// Remove all signals and pending updates; the counter goes on.
    pub fn clear(&mut self)
        requires
            old(self).wf(),
        ensures
            final(self).wf(),
            final(self).table() == Map::<u64, SignalView>::empty(),
            final(self).pending().len() == 0,
            final(self).next() == old(self).next(),
    {
        self.signals.clear();
        self.pending_updates.clear();
        assert(self.table() =~= Map::<u64, SignalView>::empty());
    }
}

impl Default for SignalStore {
    fn default() -> (r: Self)
        ensures
            r.wf(),
            r.table() == Map::<u64, SignalView>::empty(),
            r.pending().len() == 0,
            r.next() == 1,
    {
        SignalStore::new()
    }
}

/// Serializes a value to JSON bytes with `serde_json::to_vec`; on failure,
/// the error's message. Nothing is claimed of the bytes, which depend on
/// the value's `Serialize` implementation.
#[verifier::external_body]
fn json_bytes<T: serde::Serialize>(value: &T) -> (r: Result<Vec<u8>, String>)
{
    match serde_json::to_vec(value) {
        Ok(bytes) => Ok(bytes),
        Err(e) => Err(e.to_string()),
    }
}

/// Deserializes JSON bytes with `serde_json::from_slice`; on failure, the
/// error's message. Nothing is claimed of the value, which depends on the
/// type's `Deserialize` implementation.
#[verifier::external_body]
fn json_value<T: serde::de::DeserializeOwned>(bytes: &[u8]) -> (r: Result<T, String>)
{
    match serde_json::from_slice(bytes) {
        Ok(value) => Ok(value),
        Err(e) => Err(e.to_string()),
    }
}

impl SignalStore {
    /// Create a signal holding `initial` as JSON. The identifier is taken
    /// first, so a value that fails to serialize still uses one up.
    pub fn create<T: serde::Serialize>(&mut self, initial: T) -> (r: Result<u64, RuntimeError>)
        requires
            old(self).wf(),
            old(self).next() < u64::MAX,
        ensures
            final(self).wf(),
            final(self).next() == old(self).next() + 1,
            final(self).pending() == old(self).pending(),
            match r {
                Ok(id) => id == old(self).next()
                    && final(self).table().dom() == old(self).table().dom().insert(id)
                    && final(self).table()[id].1.len() == 0
                    && forall|k: u64| k != id && #[trigger] old(self).table().contains_key(k) ==> final(self).table()[k] == old(self).table()[k],
                Err(e) => e is SerializationError && final(self).table() == old(self).table(),
            },
    {
        match json_bytes(&initial) {
            Ok(value) => Ok(self.create_raw(value)),
            Err(m) => {
                // The identifier is used up even when serialising fails.
                self.next_id = self.next_id + 1;
                Err(RuntimeError::SerializationError(m))
            },
        }
    }

    /// The value of signal `id`, read from its JSON bytes.
    pub fn get<T: serde::de::DeserializeOwned>(&self, id: u64) -> (r: Result<T, RuntimeError>)
        ensures
            !self.table().contains_key(id) <==> (r matches Err(e) && e == RuntimeError::SignalNotFound(id)),
            r matches Err(e) ==> (e == RuntimeError::SignalNotFound(id) || e is SerializationError),
    {
        match self.signals.get(&id) {
            Some(data) => match json_value(data.value.as_slice()) {
                Ok(v) => Ok(v),
                Err(m) => Err(RuntimeError::SerializationError(m)),
            },
            None => Err(RuntimeError::SignalNotFound(id)),
        }
    }

    /// Set signal `id` to `value` as JSON, and mark it pending.
    pub fn set<T: serde::Serialize>(&mut self, id: u64, value: T) -> (r: Result<(), RuntimeError>)
        requires
            old(self).wf(),
        ensures
            final(self).wf(),
            final(self).next() == old(self).next(),
            match r {
                Ok(()) => old(self).table().contains_key(id)
                    && final(self).table().dom() == old(self).table().dom()
                    && final(self).table()[id].1 == old(self).table()[id].1
                    && forall|k: u64| k != id && #[trigger] old(self).table().contains_key(k) ==> final(self).table()[k] == old(self).table()[k]
                    && final(self).pending() == with_member(old(self).pending(), id),
                Err(e) => (e == RuntimeError::SignalNotFound(id) && !old(self).table().contains_key(id) || e is SerializationError)
                    && final(self).table() == old(self).table() && final(self).pending() == old(self).pending(),
            },
    {
        match json_bytes(&value) {
            Ok(bytes) => {
                let ghost before = self.table();
                let r = self.set_raw(id, bytes);
                proof {
                    if r is Ok {
                        assert(self.table().dom() =~= before.dom());
                    }
                }
                r
            },
            Err(m) => Err(RuntimeError::SerializationError(m)),
        }
    }
}

} // verus!
