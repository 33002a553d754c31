//! The host side of the functions a live cell may call: signals, UI
//! widgets, diagnostics, fetch and the dataspace, each gated by the
//! capabilities the cell was granted. A call whose capability is not
//! granted fails with `CapabilityDenied` and changes nothing.

use vstd::prelude::*;
use crate::runtime::abi::{grants, Capabilities, Capability, HttpRequest, HttpResponse, RuntimeError, Severity, Span};
use crate::runtime::dataspace::{Assertion, DataspaceClient, Subscription};
use crate::runtime::diagnostics::{Diagnostic, DiagnosticCollector};
use crate::runtime::signals::{with_member, SignalStore, SignalView};
use crate::runtime::ui::{WidgetModel, WidgetStore};
use crate::util::copy::push_bytes;
use crate::util::ieee::{clamped, valid_bounds};
use crate::util::text::to_owned_string;

verus! {

/// The state behind the host functions of a live cell.
pub struct RuntimeHost {
    pub signals: SignalStore,
    pub widgets: WidgetStore,
    pub diagnostics: DiagnosticCollector,
    pub dataspace_client: Option<DataspaceClient>,
    pub capabilities: Capabilities,
}

/// `e` is the error for a dataspace client that was never set up.
pub open spec fn is_missing_client(e: RuntimeError) -> bool {
    e matches RuntimeError::DataspaceError(m) && m@ == "Dataspace client not initialized"@
}

/// The answer to every permitted fetch: 501, plain text, saying that
/// fetching is not implemented.
pub open spec fn fetch_stub(r: HttpResponse) -> bool {
    &&& r.status == 501
    &&& r.headers@.len() == 1
    &&& r.headers@[0].0@ == "Content-Type"@
    &&& r.headers@[0].1@ == "text/plain"@
    &&& r.body@ == vstd::utf8::encode_utf8("HTTP fetch not yet implemented"@)
}

fn copy_bytes(v: &[u8]) -> (r: Vec<u8>)
    ensures
        r@ == v@,
{
    let mut out: Vec<u8> = Vec::new();
    push_bytes(&mut out, v);
    assert(out@ =~= v@);
    out
}

fn missing_client() -> (r: RuntimeError)
    ensures
        is_missing_client(r),
{
    RuntimeError::DataspaceError(to_owned_string("Dataspace client not initialized"))
}

impl RuntimeHost {
    /// The stores are well formed.
    pub open spec fn wf(&self) -> bool {
        &&& self.signals.wf()
        &&& self.widgets.wf()
        &&& (self.dataspace_client matches Some(c) ==> c.wf())
    }

    /// A host with `capabilities`, empty stores, and a fresh dataspace
    /// client exactly when the dataspace capability is granted.
    pub fn new(capabilities: Capabilities) -> (r: Self)
        ensures
            r.wf(),
            r.capabilities == capabilities,
            r.signals.table() == Map::<u64, SignalView>::empty(),
            r.signals.pending().len() == 0,
            r.signals.next() == 1,
            r.widgets.table() == Map::<u64, WidgetModel>::empty(),
            r.widgets.output().len() == 0,
            r.widgets.next() == 1,
            r.diagnostics.diagnostic_seq().len() == 0,
            r.diagnostics.decoration_seq().len() == 0,
            (r.dataspace_client is Some) == capabilities.dataspace,
            r.dataspace_client matches Some(c) ==> c.assertion_seq().len() == 0 && c.subscription_seq().len() == 0
                && c.next_assertion() == 1 && c.next_subscription() == 1,
    {
        let dataspace_client = if capabilities.dataspace { Some(DataspaceClient::new()) } else { None };
        RuntimeHost {
            signals: SignalStore::new(),
            widgets: WidgetStore::new(),
            diagnostics: DiagnosticCollector::new(),
            dataspace_client,
            capabilities,
        }
    }

    /// A host over an existing dataspace client, used only when the
    /// dataspace capability is granted.
    pub fn with_dataspace(capabilities: Capabilities, dataspace: DataspaceClient) -> (r: Self)
        requires
            dataspace.wf(),
        ensures
            r.wf(),
            r.capabilities == capabilities,
            r.signals.table() == Map::<u64, SignalView>::empty(),
            r.signals.pending().len() == 0,
            r.signals.next() == 1,
            r.widgets.table() == Map::<u64, WidgetModel>::empty(),
            r.widgets.output().len() == 0,
            r.widgets.next() == 1,
            r.diagnostics.diagnostic_seq().len() == 0,
            r.diagnostics.decoration_seq().len() == 0,
            r.dataspace_client == if capabilities.dataspace { Some(dataspace) } else { None::<DataspaceClient> },
    {
        let dataspace_client = if capabilities.dataspace { Some(dataspace) } else { None };
        RuntimeHost {
            signals: SignalStore::new(),
            widgets: WidgetStore::new(),
            diagnostics: DiagnosticCollector::new(),
            dataspace_client,
            capabilities,
        }
    }

    /// A host with the UI and diagnostics capabilities only.
    pub fn with_default_capabilities() -> (r: Self)
        ensures
            r.wf(),
            forall|cap: Capability| grants(r.capabilities, cap) <==> (cap == Capability::Ui || cap == Capability::Diagnostics),
            r.dataspace_client is None,
            r.signals.table() == Map::<u64, SignalView>::empty(),
            r.widgets.table() == Map::<u64, WidgetModel>::empty(),
            r.diagnostics.diagnostic_seq().len() == 0,
    {
        let none = Capabilities::new();
        proof {
            assert(!grants(none, Capability::Read));
            assert(!grants(none, Capability::Write));
            assert(!grants(none, Capability::Network));
            assert(!grants(none, Capability::Dataspace));
        }
        Self::new(none.with_ui().with_diagnostics())
    }

    /// Ok when `cap` is granted, else the denial.
    fn check_capability(&self, cap: Capability) -> (r: Result<(), RuntimeError>)
        ensures
            grants(self.capabilities, cap) <==> r is Ok,
            r matches Err(e) ==> e == RuntimeError::CapabilityDenied(cap),
    {
        if self.capabilities.has(cap) {
            Ok(())
        } else {
            Err(RuntimeError::CapabilityDenied(cap))
        }
    }

    // ===== Signal functions =====

    /// Create a signal holding `initial`.
    pub fn signal_create(&mut self, initial: &[u8]) -> (r: Result<u64, RuntimeError>)
        requires
            old(self).wf(),
            old(self).signals.next() < u64::MAX,
        ensures
            final(self).wf(),
            r == Ok::<u64, RuntimeError>(old(self).signals.next()),
            final(self).signals.table() == old(self).signals.table().insert(old(self).signals.next(), (initial@, Seq::empty())),
            final(self).signals.next() == old(self).signals.next() + 1,
            final(self).signals.pending() == old(self).signals.pending(),
            final(self).widgets == old(self).widgets,
            final(self).diagnostics == old(self).diagnostics,
            final(self).dataspace_client == old(self).dataspace_client,
            final(self).capabilities == old(self).capabilities,
    {
        Ok(self.signals.create_raw(copy_bytes(initial)))
    }

    /// The bytes of signal `id`.
    pub fn signal_get(&self, id: u64) -> (r: Result<Vec<u8>, RuntimeError>)
        ensures
            match r {
                Ok(v) => self.signals.table().contains_key(id) && v@ == self.signals.table()[id].0,
                Err(e) => !self.signals.table().contains_key(id) && e == RuntimeError::SignalNotFound(id),
            },
    {
        self.signals.get_raw(id)
    }

    /// Set signal `id` to `value`, marking it pending.
    pub fn signal_set(&mut self, id: u64, value: &[u8]) -> (r: Result<(), RuntimeError>)
        requires
            old(self).wf(),
        ensures
            final(self).wf(),
            final(self).widgets == old(self).widgets,
            final(self).diagnostics == old(self).diagnostics,
            final(self).dataspace_client == old(self).dataspace_client,
            final(self).capabilities == old(self).capabilities,
            final(self).signals.next() == old(self).signals.next(),
            match r {
                Ok(()) => old(self).signals.table().contains_key(id)
                    && final(self).signals.table() == old(self).signals.table().insert(id, (value@, old(self).signals.table()[id].1)),
                Err(e) => !old(self).signals.table().contains_key(id) && e == RuntimeError::SignalNotFound(id)
                    && final(self).signals.table() == old(self).signals.table()
                    && final(self).signals.pending() == old(self).signals.pending(),
            },
    {
        let ghost before = self.signals.table();
        let r = self.signals.set_raw(id, copy_bytes(value));
        proof {
            if r is Ok {
                assert(self.signals.table() =~= before.insert(id, (value@, before[id].1)));
            }
        }
        r
    }

    /// Subscribe `callback_id` to signal `id`.
    pub fn signal_subscribe(&mut self, id: u64, callback_id: u64) -> (r: Result<(), RuntimeError>)
        requires
            old(self).wf(),
        ensures
            final(self).wf(),
            final(self).widgets == old(self).widgets,
            final(self).diagnostics == old(self).diagnostics,
            final(self).dataspace_client == old(self).dataspace_client,
            final(self).capabilities == old(self).capabilities,
            final(self).signals.next() == old(self).signals.next(),
            final(self).signals.pending() == old(self).signals.pending(),
            r is Ok <==> old(self).signals.table().contains_key(id),
            r matches Err(e) ==> e == RuntimeError::SignalNotFound(id) && final(self).signals.table() == old(self).signals.table(),
            r is Ok ==> final(self).signals.table() == old(self).signals.table().insert(id,
                (old(self).signals.table()[id].0, with_member(old(self).signals.table()[id].1, callback_id))),
    {
        self.signals.subscribe(id, callback_id)
    }

    // ===== UI functions =====

    /// Create a slider (bounds and initial value as bits of doubles, the
    /// value clamped between the bounds), when the UI capability is granted.
    pub fn ui_slider(&mut self, min: u64, max: u64, initial: u64) -> (r: Result<u64, RuntimeError>)
        requires
            old(self).wf(),
            old(self).widgets.next() < u64::MAX,
            grants(old(self).capabilities, Capability::Ui) ==> valid_bounds(min, max),
        ensures
            final(self).wf(),
            !grants(old(self).capabilities, Capability::Ui) ==> r == Err::<u64, RuntimeError>(RuntimeError::CapabilityDenied(Capability::Ui))
                && *final(self) == *old(self),
            grants(old(self).capabilities, Capability::Ui) ==> r == Ok::<u64, RuntimeError>(old(self).widgets.next())
                && final(self).widgets.table() == old(self).widgets.table().insert(old(self).widgets.next(),
                    WidgetModel::Slider { id: old(self).widgets.next(), min, max, value: clamped(initial, min, max) })
                && final(self).widgets.next() == old(self).widgets.next() + 1
                && final(self).widgets.output() == old(self).widgets.output()
                && final(self).signals == old(self).signals
                && final(self).diagnostics == old(self).diagnostics
                && final(self).dataspace_client == old(self).dataspace_client
                && final(self).capabilities == old(self).capabilities,
    {
        if let Err(e) = self.check_capability(Capability::Ui) {
            return Err(e);
        }
        Ok(self.widgets.create_slider(min, max, initial))
    }

    /// Create a text input widget, when the UI capability is granted.
    pub fn ui_text_input(&mut self, placeholder: &str, initial: &str) -> (r: Result<u64, RuntimeError>)
        requires
            old(self).wf(),
            old(self).widgets.next() < u64::MAX,
        ensures
            final(self).wf(),
            !grants(old(self).capabilities, Capability::Ui) ==> r == Err::<u64, RuntimeError>(RuntimeError::CapabilityDenied(Capability::Ui))
                && *final(self) == *old(self),
            grants(old(self).capabilities, Capability::Ui) ==> r == Ok::<u64, RuntimeError>(old(self).widgets.next())
                && final(self).widgets.table() == old(self).widgets.table().insert(old(self).widgets.next(),
                    WidgetModel::TextInput { id: old(self).widgets.next(), placeholder: placeholder@, value: initial@ })
                && final(self).widgets.next() == old(self).widgets.next() + 1
                && final(self).widgets.output() == old(self).widgets.output()
                && final(self).signals == old(self).signals
                && final(self).diagnostics == old(self).diagnostics
                && final(self).dataspace_client == old(self).dataspace_client
                && final(self).capabilities == old(self).capabilities,
    {
        if let Err(e) = self.check_capability(Capability::Ui) {
            return Err(e);
        }
        Ok(self.widgets.create_text_input(to_owned_string(placeholder), to_owned_string(initial)))
    }

    /// Create a button, when the UI capability is granted.
    pub fn ui_button(&mut self, label: &str) -> (r: Result<u64, RuntimeError>)
        requires
            old(self).wf(),
            old(self).widgets.next() < u64::MAX,
        ensures
            final(self).wf(),
            !grants(old(self).capabilities, Capability::Ui) ==> r == Err::<u64, RuntimeError>(RuntimeError::CapabilityDenied(Capability::Ui))
                && *final(self) == *old(self),
            grants(old(self).capabilities, Capability::Ui) ==> r == Ok::<u64, RuntimeError>(old(self).widgets.next())
                && final(self).widgets.table() == old(self).widgets.table().insert(old(self).widgets.next(),
                    WidgetModel::Button { id: old(self).widgets.next(), label: label@, clicked: false })
                && final(self).widgets.next() == old(self).widgets.next() + 1
                && final(self).widgets.output() == old(self).widgets.output()
                && final(self).signals == old(self).signals
                && final(self).diagnostics == old(self).diagnostics
                && final(self).dataspace_client == old(self).dataspace_client
                && final(self).capabilities == old(self).capabilities,
    {
        if let Err(e) = self.check_capability(Capability::Ui) {
            return Err(e);
        }
        Ok(self.widgets.create_button(to_owned_string(label)))
    }

    /// Show a value in the output area, when the UI capability is granted.
    pub fn ui_show(&mut self, value: &[u8]) -> (r: Result<(), RuntimeError>)
        requires
            old(self).wf(),
        ensures
            final(self).wf(),
            !grants(old(self).capabilities, Capability::Ui) ==> r == Err::<(), RuntimeError>(RuntimeError::CapabilityDenied(Capability::Ui))
                && *final(self) == *old(self),
            grants(old(self).capabilities, Capability::Ui) ==> r is Ok
                && final(self).widgets.output() == old(self).widgets.output().push(value@)
                && final(self).widgets.table() == old(self).widgets.table()
                && final(self).widgets.next() == old(self).widgets.next()
                && final(self).signals == old(self).signals
                && final(self).diagnostics == old(self).diagnostics
                && final(self).dataspace_client == old(self).dataspace_client
                && final(self).capabilities == old(self).capabilities,
    {
        if let Err(e) = self.check_capability(Capability::Ui) {
            return Err(e);
        }
        self.widgets.show(copy_bytes(value));
        Ok(())
    }

    // ===== Diagnostic functions =====

    /// Emit a diagnostic, when the diagnostics capability is granted.
    pub fn emit_diagnostic(&mut self, severity: Severity, span: Span, msg: &str) -> (r: Result<(), RuntimeError>)
        requires
            old(self).wf(),
        ensures
            final(self).wf(),
            !grants(old(self).capabilities, Capability::Diagnostics)
                ==> r == Err::<(), RuntimeError>(RuntimeError::CapabilityDenied(Capability::Diagnostics)) && *final(self) == *old(self),
            grants(old(self).capabilities, Capability::Diagnostics) ==> r is Ok
                && final(self).diagnostics.diagnostic_seq().len() == old(self).diagnostics.diagnostic_seq().len() + 1
                && final(self).diagnostics.diagnostic_seq().drop_last() == old(self).diagnostics.diagnostic_seq()
                && final(self).diagnostics.diagnostic_seq().last().severity == severity
                && final(self).diagnostics.diagnostic_seq().last().span == span
                && final(self).diagnostics.diagnostic_seq().last().message@ == msg@
                && final(self).diagnostics.diagnostic_seq().last().source is None
                && final(self).diagnostics.decoration_seq() == old(self).diagnostics.decoration_seq()
                && final(self).signals == old(self).signals
                && final(self).widgets == old(self).widgets
                && final(self).dataspace_client == old(self).dataspace_client
                && final(self).capabilities == old(self).capabilities,
    {
        if let Err(e) = self.check_capability(Capability::Diagnostics) {
            return Err(e);
        }
        self.diagnostics.emit(severity, span, to_owned_string(msg));
        Ok(())
    }

    /// Add a decoration to the document, when the diagnostics capability is
    /// granted.
    pub fn add_decoration(&mut self, span: Span, class: &str) -> (r: Result<(), RuntimeError>)
        requires
            old(self).wf(),
        ensures
            final(self).wf(),
            !grants(old(self).capabilities, Capability::Diagnostics)
                ==> r == Err::<(), RuntimeError>(RuntimeError::CapabilityDenied(Capability::Diagnostics)) && *final(self) == *old(self),
            grants(old(self).capabilities, Capability::Diagnostics) ==> r is Ok
                && final(self).diagnostics.decoration_seq().len() == old(self).diagnostics.decoration_seq().len() + 1
                && final(self).diagnostics.decoration_seq().drop_last() == old(self).diagnostics.decoration_seq()
                && final(self).diagnostics.decoration_seq().last().span == span
                && final(self).diagnostics.decoration_seq().last().class@ == class@
                && final(self).diagnostics.decoration_seq().last().attributes.size() == 0
                && final(self).diagnostics.diagnostic_seq() == old(self).diagnostics.diagnostic_seq()
                && final(self).signals == old(self).signals
                && final(self).widgets == old(self).widgets
                && final(self).dataspace_client == old(self).dataspace_client
                && final(self).capabilities == old(self).capabilities,
    {
        if let Err(e) = self.check_capability(Capability::Diagnostics) {
            return Err(e);
        }
        self.diagnostics.decorate(span, to_owned_string(class));
        Ok(())
    }

    // ===== Fetch =====

    /// Fetch over HTTP, when the network capability is granted: every
    /// permitted request is answered 501, not implemented.
    pub fn fetch(&self, _request: HttpRequest) -> (r: Result<HttpResponse, RuntimeError>)
        ensures
            !grants(self.capabilities, Capability::Network) ==> r == Err::<HttpResponse, RuntimeError>(RuntimeError::CapabilityDenied(Capability::Network)),
            grants(self.capabilities, Capability::Network) ==> (r matches Ok(resp) && fetch_stub(resp)),
    {
        if let Err(e) = self.check_capability(Capability::Network) {
            return Err(e);
        }
        let mut headers: Vec<(String, String)> = Vec::new();
        headers.push((to_owned_string("Content-Type"), to_owned_string("text/plain")));
        let body = copy_bytes("HTTP fetch not yet implemented".as_bytes());
        Ok(HttpResponse { status: 501, headers, body })
    }

    // ===== Dataspace functions =====

    /// Publish an assertion, when the dataspace capability is granted and
    /// the host has a dataspace client.
    pub fn dataspace_publish(&mut self, pattern: &str, value: &[u8]) -> (r: Result<u64, RuntimeError>)
        requires
            old(self).wf(),
            old(self).dataspace_client matches Some(c) ==> c.next_assertion() < u64::MAX,
        ensures
            final(self).wf(),
            final(self).signals == old(self).signals,
            final(self).widgets == old(self).widgets,
            final(self).diagnostics == old(self).diagnostics,
            final(self).capabilities == old(self).capabilities,
            !grants(old(self).capabilities, Capability::Dataspace)
                ==> r == Err::<u64, RuntimeError>(RuntimeError::CapabilityDenied(Capability::Dataspace)) && *final(self) == *old(self),
            grants(old(self).capabilities, Capability::Dataspace) && old(self).dataspace_client is None
                ==> (r matches Err(e) && is_missing_client(e)) && *final(self) == *old(self),
            grants(old(self).capabilities, Capability::Dataspace) && old(self).dataspace_client is Some
                ==> (old(self).dataspace_client matches Some(c0) && final(self).dataspace_client matches Some(c1)
                    && r == Ok::<u64, RuntimeError>(c0.next_assertion())
                    && c1.assertion_seq() == c0.assertion_seq().push(Assertion { id: c0.next_assertion(), pattern: c1.assertion_seq().last().pattern, value: c1.assertion_seq().last().value })
                    && c1.assertion_seq().last().pattern@ == pattern@
                    && c1.assertion_seq().last().value@ == value@
                    && c1.next_assertion() == c0.next_assertion() + 1
                    && c1.subscription_seq() == c0.subscription_seq()
                    && c1.next_subscription() == c0.next_subscription()),
    {
        if let Err(e) = self.check_capability(Capability::Dataspace) {
            return Err(e);
        }
        match &mut self.dataspace_client {
            Some(client) => Ok(client.publish(to_owned_string(pattern), copy_bytes(value))),
            None => Err(missing_client()),
        }
    }

    /// Retract an assertion, when the dataspace capability is granted and
    /// the host has a dataspace client.
    pub fn dataspace_retract(&mut self, assertion_id: u64) -> (r: Result<(), RuntimeError>)
        requires
            old(self).wf(),
        ensures
            final(self).wf(),
            final(self).signals == old(self).signals,
            final(self).widgets == old(self).widgets,
            final(self).diagnostics == old(self).diagnostics,
            final(self).capabilities == old(self).capabilities,
            !grants(old(self).capabilities, Capability::Dataspace)
                ==> r == Err::<(), RuntimeError>(RuntimeError::CapabilityDenied(Capability::Dataspace)) && *final(self) == *old(self),
            grants(old(self).capabilities, Capability::Dataspace) && old(self).dataspace_client is None
                ==> (r matches Err(e) && is_missing_client(e)) && *final(self) == *old(self),
            grants(old(self).capabilities, Capability::Dataspace) && old(self).dataspace_client is Some
                ==> (old(self).dataspace_client matches Some(c0) && final(self).dataspace_client matches Some(c1)
                    && c1.subscription_seq() == c0.subscription_seq()
                    && (r is Ok <==> exists|i: int| 0 <= i < c0.assertion_seq().len() && c0.assertion_seq()[i].id == assertion_id)
                    && (r is Ok ==> exists|i: int| 0 <= i < c0.assertion_seq().len() && c0.assertion_seq()[i].id == assertion_id
                        && c1.assertion_seq() == c0.assertion_seq().remove(i))
                    && (r is Err ==> c1.assertion_seq() == c0.assertion_seq())),
    {
        if let Err(e) = self.check_capability(Capability::Dataspace) {
            return Err(e);
        }
        match &mut self.dataspace_client {
            Some(client) => client.retract(assertion_id),
            None => Err(missing_client()),
        }
    }

    /// Subscribe to a pattern, when the dataspace capability is granted and
    /// the host has a dataspace client.
    pub fn dataspace_subscribe(&mut self, pattern: &str, callback_id: u64) -> (r: Result<u64, RuntimeError>)
        requires
            old(self).wf(),
            old(self).dataspace_client matches Some(c) ==> c.next_subscription() < u64::MAX,
        ensures
            final(self).wf(),
            final(self).signals == old(self).signals,
            final(self).widgets == old(self).widgets,
            final(self).diagnostics == old(self).diagnostics,
            final(self).capabilities == old(self).capabilities,
            !grants(old(self).capabilities, Capability::Dataspace)
                ==> r == Err::<u64, RuntimeError>(RuntimeError::CapabilityDenied(Capability::Dataspace)) && *final(self) == *old(self),
            grants(old(self).capabilities, Capability::Dataspace) && old(self).dataspace_client is None
                ==> (r matches Err(e) && is_missing_client(e)) && *final(self) == *old(self),
            grants(old(self).capabilities, Capability::Dataspace) && old(self).dataspace_client is Some
                ==> (old(self).dataspace_client matches Some(c0) && final(self).dataspace_client matches Some(c1)
                    && r == Ok::<u64, RuntimeError>(c0.next_subscription())
                    && c1.subscription_seq().len() == c0.subscription_seq().len() + 1
                    && c1.subscription_seq().drop_last() == c0.subscription_seq()
                    && c1.subscription_seq().last().id == c0.next_subscription()
                    && c1.subscription_seq().last().pattern@ == pattern@
                    && c1.subscription_seq().last().callback == callback_id
                    && c1.next_subscription() == c0.next_subscription() + 1
                    && c1.assertion_seq() == c0.assertion_seq()
                    && c1.next_assertion() == c0.next_assertion()),
    {
        if let Err(e) = self.check_capability(Capability::Dataspace) {
            return Err(e);
        }
        match &mut self.dataspace_client {
            Some(client) => Ok(client.subscribe(to_owned_string(pattern), callback_id)),
            None => Err(missing_client()),
        }
    }

    /// Cancel a subscription, when the dataspace capability is granted and
    /// the host has a dataspace client.
    pub fn dataspace_unsubscribe(&mut self, subscription_id: u64) -> (r: Result<(), RuntimeError>)
        requires
            old(self).wf(),
        ensures
            final(self).wf(),
            final(self).signals == old(self).signals,
            final(self).widgets == old(self).widgets,
            final(self).diagnostics == old(self).diagnostics,
            final(self).capabilities == old(self).capabilities,
            !grants(old(self).capabilities, Capability::Dataspace)
                ==> r == Err::<(), RuntimeError>(RuntimeError::CapabilityDenied(Capability::Dataspace)) && *final(self) == *old(self),
            grants(old(self).capabilities, Capability::Dataspace) && old(self).dataspace_client is None
                ==> (r matches Err(e) && is_missing_client(e)) && *final(self) == *old(self),
            grants(old(self).capabilities, Capability::Dataspace) && old(self).dataspace_client is Some
                ==> (old(self).dataspace_client matches Some(c0) && final(self).dataspace_client matches Some(c1)
                    && c1.assertion_seq() == c0.assertion_seq()
                    && (r is Ok <==> exists|i: int| 0 <= i < c0.subscription_seq().len() && c0.subscription_seq()[i].id == subscription_id)
                    && (r is Ok ==> exists|i: int| 0 <= i < c0.subscription_seq().len() && c0.subscription_seq()[i].id == subscription_id
                        && c1.subscription_seq() == c0.subscription_seq().remove(i))
                    && (r is Err ==> c1.subscription_seq() == c0.subscription_seq())),
    {
        if let Err(e) = self.check_capability(Capability::Dataspace) {
            return Err(e);
        }
        match &mut self.dataspace_client {
            Some(client) => client.unsubscribe(subscription_id),
            None => Err(missing_client()),
        }
    }

    // ===== Utility functions =====

    /// The pending signal updates: for each changed signal, its identifier,
    /// value and subscribers (see `SignalStore::process_pending`).
    pub fn process_signals(&mut self) -> (r: Vec<(u64, Vec<u8>, Vec<u64>)>)
        requires
            old(self).wf(),
        ensures
            final(self).wf(),
            r@.len() == old(self).signals.pending().len(),
            forall|i: int| #![trigger r@[i]] 0 <= i < r@.len() ==> r@[i].0 == old(self).signals.pending()[i]
                && r@[i].1@ == old(self).signals.table()[r@[i].0].0
                && r@[i].2@ == old(self).signals.table()[r@[i].0].1,
            final(self).signals.pending().len() == 0,
            final(self).signals.table() == old(self).signals.table(),
            final(self).widgets == old(self).widgets,
            final(self).diagnostics == old(self).diagnostics,
            final(self).dataspace_client == old(self).dataspace_client,
            final(self).capabilities == old(self).capabilities,
    {
        self.signals.process_pending()
    }

    /// The values shown so far, in order; the output is then empty.
    pub fn take_output(&mut self) -> (r: Vec<Vec<u8>>)
        requires
            old(self).wf(),
        ensures
            final(self).wf(),
            Seq::new(r@.len(), |i: int| r@[i]@) == old(self).widgets.output(),
            final(self).widgets.output().len() == 0,
            final(self).widgets.table() == old(self).widgets.table(),
            final(self).signals == old(self).signals,
            final(self).diagnostics == old(self).diagnostics,
            final(self).dataspace_client == old(self).dataspace_client,
            final(self).capabilities == old(self).capabilities,
    {
        self.widgets.take_output()
    }

    /// Clear all runtime state; identifier counters go on.
    pub fn clear(&mut self)
        requires
            old(self).wf(),
        ensures
            final(self).wf(),
            final(self).signals.table() == Map::<u64, SignalView>::empty(),
            final(self).signals.pending().len() == 0,
            final(self).widgets.table() == Map::<u64, WidgetModel>::empty(),
            final(self).widgets.output().len() == 0,
            final(self).diagnostics.diagnostic_seq().len() == 0,
            final(self).diagnostics.decoration_seq().len() == 0,
            (final(self).dataspace_client is Some) == (old(self).dataspace_client is Some),
            final(self).dataspace_client matches Some(c) ==> c.assertion_seq().len() == 0 && c.subscription_seq().len() == 0,
            final(self).capabilities == old(self).capabilities,
    {
        self.signals.clear();
        self.widgets.clear();
        self.diagnostics.clear();
        if let Some(client) = &mut self.dataspace_client {
            client.clear();
        }
    }
}

} // verus!
