//! A local dataspace: assertions published under patterns, and
//! subscriptions that name a callback for a pattern. Assertions and
//! subscriptions keep the order in which they were made, and each gets the
//! next number of its counter, starting from 1.

use vstd::prelude::*;
use crate::runtime::abi::RuntimeError;
use crate::util::text::{str_eq, push_str, to_owned_string, u64_to_text, decimal};

verus! {

/// Identifier of an assertion.
pub type AssertionId = u64;

/// Identifier of a subscription.
pub type SubscriptionId = u64;

/// Identifier of a callback.
pub type CallbackId = u64;

/// An assertion in the dataspace.
#[derive(Debug, Clone)]
pub struct Assertion {
    pub id: u64,
    pub pattern: String,
    pub value: Vec<u8>,
}

/// A subscription to a pattern.
#[derive(Debug, Clone)]
pub struct Subscription {
    pub id: u64,
    pub pattern: String,
    pub callback: u64,
}

/// Client for the dataspace.
#[derive(Debug)]
pub struct DataspaceClient {
    assertions: Vec<Assertion>,
    subscriptions: Vec<Subscription>,
    next_assertion_id: u64,
    next_subscription_id: u64,
}

/// The assertions of `s` published under pattern `p`, in order.
pub open spec fn with_pattern(s: Seq<Assertion>, p: Seq<char>) -> Seq<Assertion>
    decreases s.len(),
{
    if s.len() == 0 {
        Seq::empty()
    } else if s.last().pattern@ == p {
        with_pattern(s.drop_last(), p).push(s.last())
    } else {
        with_pattern(s.drop_last(), p)
    }
}

/// The callbacks of the subscriptions of `s` to pattern `p`, in order.
pub open spec fn callbacks_for(s: Seq<Subscription>, p: Seq<char>) -> Seq<u64>
    decreases s.len(),
{
    if s.len() == 0 {
        Seq::empty()
    } else if s.last().pattern@ == p {
        callbacks_for(s.drop_last(), p).push(s.last().callback)
    } else {
        callbacks_for(s.drop_last(), p)
    }
}

/// Some element of `s` has identifier `id`.
pub open spec fn has_assertion(s: Seq<Assertion>, id: u64) -> bool {
    exists|i: int| 0 <= i < s.len() && #[trigger] s[i].id == id
}

/// Some element of `s` has identifier `id`.
pub open spec fn has_subscription(s: Seq<Subscription>, id: u64) -> bool {
    exists|i: int| 0 <= i < s.len() && #[trigger] s[i].id == id
}

/// `e` is a dataspace error with message `m`.
pub open spec fn is_dataspace_error(e: RuntimeError, m: Seq<char>) -> bool {
    e matches RuntimeError::DataspaceError(x) && x@ == m
}

impl DataspaceClient {
    /// The assertions, in the order they were published.
    pub closed spec fn assertion_seq(&self) -> Seq<Assertion> {
        self.assertions@
    }

    /// The subscriptions, in the order they were made.
    pub closed spec fn subscription_seq(&self) -> Seq<Subscription> {
        self.subscriptions@
    }

    /// The identifier the next assertion will get.
    pub closed spec fn next_assertion(&self) -> u64 {
        self.next_assertion_id
    }

    /// The identifier the next subscription will get.
    pub closed spec fn next_subscription(&self) -> u64 {
        self.next_subscription_id
    }

    /// Identifiers increase along each list and stay below the counters, so
    /// no identifier occurs twice.
    pub closed spec fn wf(&self) -> bool {
        &&& forall|i: int, j: int| 0 <= i < j < self.assertions@.len() ==> #[trigger] self.assertions@[i].id < #[trigger] self.assertions@[j].id
        &&& forall|i: int| 0 <= i < self.assertions@.len() ==> #[trigger] self.assertions@[i].id < self.next_assertion_id
        &&& forall|i: int, j: int| 0 <= i < j < self.subscriptions@.len() ==> #[trigger] self.subscriptions@[i].id < #[trigger] self.subscriptions@[j].id
        &&& forall|i: int| 0 <= i < self.subscriptions@.len() ==> #[trigger] self.subscriptions@[i].id < self.next_subscription_id
    }

    /// In a well-formed dataspace the assertion identifiers increase along
    /// the list and stay below the next identifier, so an identifier not yet
    /// handed out by `publish` names no assertion.
    pub proof fn lemma_ids_below_next(&self)
        requires
            self.wf(),
        ensures
            forall|a: int, b: int| 0 <= a < b < self.assertion_seq().len() ==> #[trigger] self.assertion_seq()[a].id < #[trigger] self.assertion_seq()[b].id,
            forall|a: int| 0 <= a < self.assertion_seq().len() ==> #[trigger] self.assertion_seq()[a].id < self.next_assertion(),
            forall|x: u64| x >= self.next_assertion() ==> !has_assertion(self.assertion_seq(), x),
    {
    }

    /// An empty dataspace whose counters start at 1.
    pub fn new() -> (r: Self)
        ensures
            r.wf(),
            r.assertion_seq().len() == 0,
            r.subscription_seq().len() == 0,
            r.next_assertion() == 1,
            r.next_subscription() == 1,
    {
        DataspaceClient { assertions: Vec::new(), subscriptions: Vec::new(), next_assertion_id: 1, next_subscription_id: 1 }
    }

    /// Publish an assertion; it gets the next assertion identifier.
    pub fn publish(&mut self, pattern: String, value: Vec<u8>) -> (r: u64)
        requires
            old(self).wf(),
            old(self).next_assertion() < u64::MAX,
        ensures
            final(self).wf(),
            r == old(self).next_assertion(),
            !has_assertion(old(self).assertion_seq(), r),
            final(self).next_assertion() == old(self).next_assertion() + 1,
            final(self).assertion_seq() == old(self).assertion_seq().push(Assertion { id: r, pattern, value }),
            final(self).subscription_seq() == old(self).subscription_seq(),
            final(self).next_subscription() == old(self).next_subscription(),
    {
        proof { self.lemma_ids_below_next(); }
        let id = self.next_assertion_id;
        self.next_assertion_id = self.next_assertion_id + 1;
        self.assertions.push(Assertion { id, pattern, value });
        id
    }

    /// Retract an assertion by identifier.
    pub fn retract(&mut self, assertion_id: u64) -> (r: Result<(), RuntimeError>)
        requires
            old(self).wf(),
        ensures
            final(self).wf(),
            final(self).subscription_seq() == old(self).subscription_seq(),
            final(self).next_assertion() == old(self).next_assertion(),
            final(self).next_subscription() == old(self).next_subscription(),
            match r {
                Ok(()) => (exists|i: int| 0 <= i < old(self).assertion_seq().len()
                    && old(self).assertion_seq()[i].id == assertion_id
                    && final(self).assertion_seq() == old(self).assertion_seq().remove(i))
                    && final(self).assertion_seq().len() == old(self).assertion_seq().len() - 1
                    && forall|x: u64| #[trigger] has_assertion(final(self).assertion_seq(), x)
                        == (has_assertion(old(self).assertion_seq(), x) && x != assertion_id),
                Err(e) => !has_assertion(old(self).assertion_seq(), assertion_id)
                    && final(self).assertion_seq() == old(self).assertion_seq()
                    && is_dataspace_error(e, "Assertion "@ + decimal(assertion_id as nat) + " not found"@),
            },
    {
        let mut i: usize = 0;
        while i < self.assertions.len()
            invariant
                0 <= i <= self.assertions@.len(),
                self.wf(),
                self.assertions@ == old(self).assertions@,
                self.subscriptions@ == old(self).subscriptions@,
                self.next_assertion_id == old(self).next_assertion_id,
                self.next_subscription_id == old(self).next_subscription_id,
                forall|j: int| 0 <= j < i ==> #[trigger] self.assertions@[j].id != assertion_id,
            decreases self.assertions@.len() - i,
        {
            if self.assertions[i].id == assertion_id {
                let ghost before = self.assertions@;
                self.assertions.remove(i);
                proof {
                    lemma_remove_by_id(before, i as int, assertion_id);
                    assert forall|a: int, b: int| 0 <= a < b < self.assertions@.len() implies #[trigger] self.assertions@[a].id < #[trigger] self.assertions@[b].id by {
                        let a0 = if a < i { a } else { a + 1 };
                        let b0 = if b < i { b } else { b + 1 };
                        assert(self.assertions@[a] == before[a0]);
                        assert(self.assertions@[b] == before[b0]);
                    }
                    assert forall|a: int| 0 <= a < self.assertions@.len() implies #[trigger] self.assertions@[a].id < self.next_assertion_id by {
                        let a0 = if a < i { a } else { a + 1 };
                        assert(self.assertions@[a] == before[a0]);
                    }
                }
                return Ok(());
            }
            i = i + 1;
        }
        let mut m = to_owned_string("Assertion ");
        let d = u64_to_text(assertion_id);
        push_str(&mut m, d.as_str());
        push_str(&mut m, " not found");
        Err(RuntimeError::DataspaceError(m))
    }

    /// Subscribe `callback_id` to `pattern`; the subscription gets the next
    /// subscription identifier.
    pub fn subscribe(&mut self, pattern: String, callback_id: u64) -> (r: u64)
        requires
            old(self).wf(),
            old(self).next_subscription() < u64::MAX,
        ensures
            final(self).wf(),
            r == old(self).next_subscription(),
            final(self).next_subscription() == old(self).next_subscription() + 1,
            final(self).subscription_seq() == old(self).subscription_seq().push(Subscription { id: r, pattern, callback: callback_id }),
            final(self).assertion_seq() == old(self).assertion_seq(),
            final(self).next_assertion() == old(self).next_assertion(),
    {
        let id = self.next_subscription_id;
        self.next_subscription_id = self.next_subscription_id + 1;
        self.subscriptions.push(Subscription { id, pattern, callback: callback_id });
        id
    }

    /// Cancel a subscription by identifier.
    pub fn unsubscribe(&mut self, subscription_id: u64) -> (r: Result<(), RuntimeError>)
        requires
            old(self).wf(),
        ensures
            final(self).wf(),
            final(self).assertion_seq() == old(self).assertion_seq(),
            final(self).next_assertion() == old(self).next_assertion(),
            final(self).next_subscription() == old(self).next_subscription(),
            match r {
                Ok(()) => exists|i: int| 0 <= i < old(self).subscription_seq().len()
                    && old(self).subscription_seq()[i].id == subscription_id
                    && final(self).subscription_seq() == old(self).subscription_seq().remove(i),
                Err(e) => !has_subscription(old(self).subscription_seq(), subscription_id)
                    && final(self).subscription_seq() == old(self).subscription_seq()
                    && is_dataspace_error(e, "Subscription "@ + decimal(subscription_id as nat) + " not found"@),
            },
    {
        let mut i: usize = 0;
        while i < self.subscriptions.len()
            invariant
                0 <= i <= self.subscriptions@.len(),
                self.wf(),
                self.assertions@ == old(self).assertions@,
                self.subscriptions@ == old(self).subscriptions@,
                self.next_assertion_id == old(self).next_assertion_id,
                self.next_subscription_id == old(self).next_subscription_id,
                forall|j: int| 0 <= j < i ==> #[trigger] self.subscriptions@[j].id != subscription_id,
            decreases self.subscriptions@.len() - i,
        {
            if self.subscriptions[i].id == subscription_id {
                let ghost before = self.subscriptions@;
                self.subscriptions.remove(i);
                assert forall|a: int, b: int| 0 <= a < b < self.subscriptions@.len() implies #[trigger] self.subscriptions@[a].id < #[trigger] self.subscriptions@[b].id by {
                    let a0 = if a < i { a } else { a + 1 };
                    let b0 = if b < i { b } else { b + 1 };
                    assert(self.subscriptions@[a] == before[a0]);
                    assert(self.subscriptions@[b] == before[b0]);
                }
                assert forall|a: int| 0 <= a < self.subscriptions@.len() implies #[trigger] self.subscriptions@[a].id < self.next_subscription_id by {
                    let a0 = if a < i { a } else { a + 1 };
                    assert(self.subscriptions@[a] == before[a0]);
                }
                assert(0 <= i < old(self).subscription_seq().len() && old(self).subscription_seq()[i as int].id == subscription_id
                    && self.subscription_seq() == old(self).subscription_seq().remove(i as int));
                return Ok(());
            }
            i = i + 1;
        }
        let mut m = to_owned_string("Subscription ");
        let d = u64_to_text(subscription_id);
        push_str(&mut m, d.as_str());
        push_str(&mut m, " not found");
        Err(RuntimeError::DataspaceError(m))
    }

    /// The assertions published under `pattern`, in order.
    pub fn query(&self, pattern: &str) -> (r: Vec<&Assertion>)
        ensures
            r@.len() == with_pattern(self.assertion_seq(), pattern@).len(),
            forall|i: int| 0 <= i < r@.len() ==> *r@[i] == #[trigger] with_pattern(self.assertion_seq(), pattern@)[i],
    {
        let mut out: Vec<&Assertion> = Vec::new();
        let mut i: usize = 0;
        while i < self.assertions.len()
            invariant
                0 <= i <= self.assertions@.len(),
                out@.len() == with_pattern(self.assertions@.take(i as int), pattern@).len(),
                forall|j: int| 0 <= j < out@.len() ==> *out@[j] == #[trigger] with_pattern(self.assertions@.take(i as int), pattern@)[j],
            decreases self.assertions@.len() - i,
        {
            assert(self.assertions@.take(i + 1).drop_last() =~= self.assertions@.take(i as int));
            if str_eq(self.assertions[i].pattern.as_str(), pattern) {
                out.push(&self.assertions[i]);
            }
            i = i + 1;
        }
        assert(self.assertions@.take(self.assertions@.len() as int) =~= self.assertions@);
        out
    }

    /// The callbacks subscribed to `pattern`, in the order of subscription.
    pub fn subscribers(&self, pattern: &str) -> (r: Vec<u64>)
        ensures
            r@ == callbacks_for(self.subscription_seq(), pattern@),
    {
        let mut out: Vec<u64> = Vec::new();
        let mut i: usize = 0;
        while i < self.subscriptions.len()
            invariant
                0 <= i <= self.subscriptions@.len(),
                out@ == callbacks_for(self.subscriptions@.take(i as int), pattern@),
            decreases self.subscriptions@.len() - i,
        {
            assert(self.subscriptions@.take(i + 1).drop_last() =~= self.subscriptions@.take(i as int));
            if self.pattern_matches(self.subscriptions[i].pattern.as_str(), pattern) {
                out.push(self.subscriptions[i].callback);
            }
            i = i + 1;
        }
        assert(self.subscriptions@.take(self.subscriptions@.len() as int) =~= self.subscriptions@);
        out
    }

    /// A subscription pattern matches an assertion pattern when they are
    /// the same text.
    fn pattern_matches(&self, subscription_pattern: &str, assertion_pattern: &str) -> (r: bool)
        ensures
            r == (subscription_pattern@ == assertion_pattern@),
    {
        str_eq(subscription_pattern, assertion_pattern)
    }

    /// All assertions, in the order they were published.
    pub fn assertions(&self) -> (r: &Vec<Assertion>)
        ensures
            r@ == self.assertion_seq(),
    {
        &self.assertions
    }

    /// All subscriptions, in the order they were made.
    pub fn subscriptions(&self) -> (r: &Vec<Subscription>)
        ensures
            r@ == self.subscription_seq(),
    {
        &self.subscriptions
    }

    /// The number of assertions.
    pub fn assertion_count(&self) -> (r: usize)
        ensures
            r == self.assertion_seq().len(),
    {
        self.assertions.len()
    }

    /// The number of subscriptions.
    pub fn subscription_count(&self) -> (r: usize)
        ensures
            r == self.subscription_seq().len(),
    {
        self.subscriptions.len()
    }

    /// Remove all assertions and subscriptions; the counters go on.
    pub fn clear(&mut self)
        requires
            old(self).wf(),
        ensures
            final(self).wf(),
            final(self).assertion_seq().len() == 0,
            final(self).subscription_seq().len() == 0,
            final(self).next_assertion() == old(self).next_assertion(),
            final(self).next_subscription() == old(self).next_subscription(),
    {
        self.assertions = Vec::new();
        self.subscriptions = Vec::new();
    }
}

impl Default for DataspaceClient {
    fn default() -> (r: Self)
        ensures
            r.wf(),
            r.assertion_seq().len() == 0,
            r.subscription_seq().len() == 0,
            r.next_assertion() == 1,
            r.next_subscription() == 1,
    {
        DataspaceClient::new()
    }
}

/// Removing the one assertion with identifier `id` from assertions whose
/// identifiers increase leaves one assertion fewer, none with `id`, and
/// every other identifier where it was: a second retraction of `id` finds
/// nothing.
pub proof fn lemma_remove_by_id(s: Seq<Assertion>, i: int, id: u64)
    requires
        forall|a: int, b: int| 0 <= a < b < s.len() ==> #[trigger] s[a].id < #[trigger] s[b].id,
        0 <= i < s.len(),
        s[i].id == id,
    ensures
        s.remove(i).len() == s.len() - 1,
        !has_assertion(s.remove(i), id),
        forall|x: u64| #[trigger] has_assertion(s.remove(i), x) == (has_assertion(s, x) && x != id),
{
    let r = s.remove(i);
    assert forall|x: u64| #[trigger] has_assertion(r, x) == (has_assertion(s, x) && x != id) by {
        if has_assertion(r, x) {
            let k = choose|k: int| 0 <= k < r.len() && #[trigger] r[k].id == x;
            let k0 = if k < i { k } else { k + 1 };
            assert(r[k] == s[k0]);
            assert(k0 != i);
            if k0 < i { assert(s[k0].id < s[i].id); } else { assert(s[i].id < s[k0].id); }
        }
        if has_assertion(s, x) && x != id {
            let k = choose|k: int| 0 <= k < s.len() && #[trigger] s[k].id == x;
            assert(k != i);
            let k1 = if k < i { k } else { k - 1 };
            assert(r[k1] == s[k]);
        }
    }
}

/// Retracting what was just published gives back the assertions as they
/// were: the new assertion's identifier is above every earlier one, so the
/// retraction removes exactly it.
pub proof fn lemma_retract_after_publish(before: Seq<Assertion>, a: Assertion, i: int)
    requires
        forall|j: int| 0 <= j < before.len() ==> #[trigger] before[j].id < a.id,
        0 <= i < before.len() + 1,
        before.push(a)[i].id == a.id,
    ensures
        before.push(a).remove(i) == before,
{
    if i < before.len() {
        assert(before.push(a)[i] == before[i]);
    }
    assert(before.push(a).remove(before.len() as int) =~= before);
}

} // verus!
