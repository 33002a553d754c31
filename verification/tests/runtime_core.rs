use monowiki::ids::{BlockId, DocId};
use monowiki::runtime::abi::{Capabilities, Capability, RuntimeError, Severity, Span};
use monowiki::runtime::dataspace::{AssertionId, DataspaceClient};
use monowiki::runtime::diagnostics::{Decoration, Diagnostic, DiagnosticCollector};
use monowiki::runtime::html::{escape_attr, escape_html};
use monowiki::runtime::kernel::{EchoKernel, MrlKernel, SourceKernel, SourceKernelEntity};
use monowiki::runtime::sammy_config::names;
use monowiki::runtime::schemas::{EvalRequest, EvalResultKind};
use monowiki::runtime::signals::SignalStore;

#[test]
fn test_publish_and_query() {
    let mut client = DataspaceClient::new();

    let id1 = client.publish("user.login".to_string(), vec![1, 2, 3]);
    let id2 = client.publish("user.login".to_string(), vec![4, 5, 6]);
    let _id3 = client.publish("user.logout".to_string(), vec![7, 8, 9]);

    let results = client.query("user.login");
    assert_eq!(results.len(), 2);

    let ids: Vec<AssertionId> = results.iter().map(|a| a.id).collect();
    assert!(ids.contains(&id1));
    assert!(ids.contains(&id2));
}

#[test]
fn test_retract() {
    let mut client = DataspaceClient::new();

    let id = client.publish("test.pattern".to_string(), vec![1, 2, 3]);

    let results = client.query("test.pattern");
    assert_eq!(results.len(), 1);

    client.retract(id).unwrap();

    let results = client.query("test.pattern");
    assert_eq!(results.len(), 0);
}

#[test]
fn retract_of_unknown_assertion_is_an_error() {
    let mut client = DataspaceClient::new();
    let id = client.publish("p".to_string(), vec![1]);
    client.retract(id).unwrap();
    match client.retract(id) {
        Err(RuntimeError::DataspaceError(m)) => assert_eq!(m, format!("Assertion {} not found", id)),
        other => panic!("unexpected {:?}", other),
    }
    assert!(client.unsubscribe(77).is_err());
}

#[test]
fn test_subscribe() {
    let mut client = DataspaceClient::new();

    let sub_id = client.subscribe("user.login".to_string(), 100);

    let subscribers = client.subscribers("user.login");
    assert_eq!(subscribers, vec![100]);

    client.unsubscribe(sub_id).unwrap();

    let subscribers = client.subscribers("user.login");
    assert_eq!(subscribers.len(), 0);
}

#[test]
fn test_multiple_subscriptions() {
    let mut client = DataspaceClient::new();

    client.subscribe("test.pattern".to_string(), 1);
    client.subscribe("test.pattern".to_string(), 2);
    client.subscribe("test.pattern".to_string(), 3);

    let subscribers = client.subscribers("test.pattern");
    assert_eq!(subscribers.len(), 3);
    assert!(subscribers.contains(&1));
    assert!(subscribers.contains(&2));
    assert!(subscribers.contains(&3));
}

#[test]
fn test_assertion_count() {
    let mut client = DataspaceClient::new();

    assert_eq!(client.assertion_count(), 0);

    let id1 = client.publish("test1".to_string(), vec![1]);
    let id2 = client.publish("test2".to_string(), vec![2]);

    assert_eq!(client.assertion_count(), 2);

    client.retract(id1).unwrap();
    assert_eq!(client.assertion_count(), 1);

    client.retract(id2).unwrap();
    assert_eq!(client.assertion_count(), 0);
}

#[test]
fn test_clear() {
    let mut client = DataspaceClient::new();

    client.publish("test".to_string(), vec![1, 2, 3]);
    client.subscribe("test".to_string(), 100);

    assert_eq!(client.assertion_count(), 1);
    assert_eq!(client.subscription_count(), 1);

    client.clear();

    assert_eq!(client.assertion_count(), 0);
    assert_eq!(client.subscription_count(), 0);
}

#[test]
fn test_diagnostic_creation() {
    let span = Span::new(1, 0, 1, 10);
    let diag = Diagnostic::error(span, "Test error".to_string());

    assert_eq!(diag.severity, Severity::Error);
    assert_eq!(diag.message, "Test error");
    assert_eq!(diag.span, span);
}

#[test]
fn test_diagnostic_with_source() {
    let span = Span::new(1, 0, 1, 10);
    let diag = Diagnostic::error(span, "Test error".to_string()).with_source("test-cell".to_string());

    assert_eq!(diag.source, Some("test-cell".to_string()));
}

#[test]
fn test_decoration_creation() {
    let span = Span::new(1, 0, 1, 10);
    let decoration = Decoration::new(span, "highlight".to_string());

    assert_eq!(decoration.class, "highlight");
    assert_eq!(decoration.span, span);
    assert!(decoration.attributes.is_empty());
}

#[test]
fn test_decoration_with_attributes() {
    let span = Span::new(1, 0, 1, 10);
    let decoration =
        Decoration::new(span, "highlight".to_string()).with_attribute("color".to_string(), "red".to_string());

    assert_eq!(decoration.attributes.get("color"), Some(&"red".to_string()));
}

#[test]
fn test_collector_emit() {
    let mut collector = DiagnosticCollector::new();
    let span = Span::new(1, 0, 1, 10);

    collector.error(span, "Error 1".to_string());
    collector.warning(span, "Warning 1".to_string());

    assert_eq!(collector.diagnostic_count(), 2);
    assert!(collector.has_errors());
}

#[test]
fn collector_without_errors() {
    let mut collector = DiagnosticCollector::new();
    let span = Span::new(2, 1, 2, 4);
    collector.warning(span, "w".to_string());
    collector.hint(span, "h".to_string());
    assert!(!collector.has_errors());
    assert!(collector.has_diagnostics());
    assert_eq!(collector.diagnostics_by_severity(Severity::Hint).len(), 1);
    assert_eq!(collector.diagnostics()[1].message, "h");
}

#[test]
fn test_collector_by_severity() {
    let mut collector = DiagnosticCollector::new();
    let span = Span::new(1, 0, 1, 10);

    collector.error(span, "Error 1".to_string());
    collector.error(span, "Error 2".to_string());
    collector.warning(span, "Warning 1".to_string());

    let errors = collector.errors();
    assert_eq!(errors.len(), 2);

    let warnings = collector.warnings();
    assert_eq!(warnings.len(), 1);
}

#[test]
fn test_collector_decorations() {
    let mut collector = DiagnosticCollector::new();
    let span = Span::new(1, 0, 1, 10);

    collector.decorate(span, "highlight".to_string());
    collector.decorate(span, "underline".to_string());

    assert_eq!(collector.decoration_count(), 2);
    assert!(collector.has_decorations());
}

#[test]
fn test_collector_take() {
    let mut collector = DiagnosticCollector::new();
    let span = Span::new(1, 0, 1, 10);

    collector.error(span, "Error 1".to_string());
    collector.decorate(span, "highlight".to_string());

    let diagnostics = collector.take_diagnostics();
    assert_eq!(diagnostics.len(), 1);
    assert_eq!(collector.diagnostic_count(), 0);

    let decorations = collector.take_decorations();
    assert_eq!(decorations.len(), 1);
    assert_eq!(collector.decoration_count(), 0);
}

#[test]
fn test_collector_clear() {
    let mut collector = DiagnosticCollector::new();
    let span = Span::new(1, 0, 1, 10);

    collector.error(span, "Error 1".to_string());
    collector.decorate(span, "highlight".to_string());

    collector.clear();

    assert_eq!(collector.diagnostic_count(), 0);
    assert_eq!(collector.decoration_count(), 0);
}

#[test]
fn test_escape_html() {
    assert_eq!(escape_html("<script>alert('xss')</script>"), "&lt;script&gt;alert('xss')&lt;/script&gt;");
    assert_eq!(escape_html("Hello & World"), "Hello &amp; World");
}

#[test]
fn test_escape_attr() {
    assert_eq!(escape_attr("test\"value"), "test&quot;value");
    assert_eq!(escape_attr("it's"), "it&#x27;s");
}

#[test]
fn escape_attr_handles_every_special_character() {
    assert_eq!(escape_attr("<a & 'b'>\""), "&lt;a &amp; &#x27;b&#x27;&gt;&quot;");
    assert_eq!(escape_html("\"quoted\""), "\"quoted\"");
    assert_eq!(escape_html(""), "");
}

#[test]
fn test_mrl_kernel_creation() {
    let kernel = MrlKernel::new();
    assert_eq!(kernel.kernel_id(), "mrl");

    let custom = MrlKernel::with_id("custom-mrl");
    assert_eq!(custom.kernel_id(), "custom-mrl");
}

#[test]
fn echo_kernel_answers_its_own_requests() {
    let kernel = EchoKernel::new("echo");
    let req = EvalRequest::source("echo".to_string(), "c".to_string(), "d".to_string(), "héllo".to_string(), 3);
    let res = kernel.handle_request(&req).unwrap();
    assert_eq!(res.seq, 3);
    assert_eq!(res.result, EvalResultKind::Success("héllo".as_bytes().to_vec()));
    let other = EvalRequest::wasm("js".to_string(), "c".to_string(), "d".to_string(), vec![1], 4);
    assert!(kernel.handle_request(&other).is_none());
}

struct UpperKernel;

impl SourceKernel for UpperKernel {
    fn evaluate(&self, source: &str) -> Result<Vec<u8>, String> {
        if source.is_empty() {
            Err("empty".to_string())
        } else {
            Ok(source.to_uppercase().into_bytes())
        }
    }

    fn kernel_id(&self) -> &str {
        "echo"
    }

    fn language(&self) -> &str {
        "text"
    }
}

#[test]
fn source_kernel_entity_refuses_payloads() {
    let entity = SourceKernelEntity::new(UpperKernel);
    let ok = EvalRequest::source("echo".to_string(), "c".to_string(), "d".to_string(), "ab".to_string(), 2);
    assert_eq!(entity.handle_request(&ok).unwrap().result, EvalResultKind::Success(b"AB".to_vec()));
    let bad = EvalRequest::source("echo".to_string(), "c".to_string(), "d".to_string(), String::new(), 2);
    assert_eq!(entity.handle_request(&bad).unwrap().result, EvalResultKind::Error("empty".to_string()));
    let req = EvalRequest::wasm("echo".to_string(), "c".to_string(), "d".to_string(), vec![0, 1], 9);
    let res = entity.handle_request(&req).unwrap();
    assert_eq!(
        res.result,
        EvalResultKind::Error("Source kernel 'echo' cannot execute WASM or MRL directly".to_string())
    );
    let elsewhere = EvalRequest::wasm("other".to_string(), "c".to_string(), "d".to_string(), vec![], 1);
    assert!(entity.handle_request(&elsewhere).is_none());
}

#[test]
fn test_dataspace_naming() {
    assert_eq!(names::doc_content("abc"), "doc-content/abc");
    assert_eq!(names::doc_view("abc"), "doc-view/abc");
    assert!(names::is_doc_content("doc-content/foo"));
    assert!(!names::is_doc_content("doc-view/foo"));
    assert_eq!(names::extract_doc_id("doc-content/foo"), Some("foo"));
    assert_eq!(names::extract_doc_id("doc-view/bar"), Some("bar"));
    assert_eq!(names::extract_doc_id("system"), None);
}

#[test]
fn dataspace_names_round_trip() {
    let name = names::doc_view("x/y");
    assert!(names::is_doc_view(&name));
    assert_eq!(names::extract_doc_id(&name), Some("x/y"));
    assert_eq!(names::SYSTEM, "system");
}

#[test]
fn test_signal_raw_operations() {
    let mut store = SignalStore::new();

    let data = vec![1, 2, 3, 4];
    let id = store.create_raw(data.clone());

    let retrieved = store.get_raw(id).unwrap();
    assert_eq!(retrieved, data);

    let new_data = vec![5, 6, 7, 8];
    store.set_raw(id, new_data.clone()).unwrap();

    let retrieved = store.get_raw(id).unwrap();
    assert_eq!(retrieved, new_data);
}

#[test]
fn test_signal_not_found() {
    let store = SignalStore::new();

    let result = store.get::<i32>(999);
    assert!(matches!(result, Err(RuntimeError::SignalNotFound(999))));
}

#[test]
fn test_signal_create_and_get() {
    let mut store = SignalStore::new();

    let id = store.create(42i32).unwrap();
    assert_eq!(store.get::<i32>(id).unwrap(), 42);
}

#[test]
fn test_signal_set_and_reactivity() {
    let mut store = SignalStore::new();

    let id = store.create(42i32).unwrap();
    store.subscribe(id, 100).unwrap();

    store.set(id, 100i32).unwrap();

    let updates = store.process_pending();
    assert_eq!(updates.len(), 1);
    assert_eq!(updates[0].0, id);
    assert_eq!(updates[0].2, vec![100]);
}

#[test]
fn test_signal_multiple_subscribers() {
    let mut store = SignalStore::new();

    let id = store.create("hello".to_string()).unwrap();
    store.subscribe(id, 1).unwrap();
    store.subscribe(id, 2).unwrap();
    store.subscribe(id, 3).unwrap();

    store.set(id, "world".to_string()).unwrap();

    let updates = store.process_pending();
    assert_eq!(updates.len(), 1);
    assert_eq!(updates[0].2, vec![1, 2, 3]);
}

#[test]
fn test_signal_unsubscribe() {
    let mut store = SignalStore::new();

    let id = store.create(42i32).unwrap();
    store.subscribe(id, 1).unwrap();
    store.subscribe(id, 2).unwrap();

    store.unsubscribe(id, 1).unwrap();

    let subs = store.subscribers(id).unwrap();
    assert_eq!(subs, vec![2]);
}

#[test]
fn signal_json_value_is_stored_as_json_bytes() {
    let mut store = SignalStore::new();
    let id = store.create(vec![1u8, 2]).unwrap();
    assert_eq!(store.get_raw(id).unwrap(), b"[1,2]".to_vec());
    assert!(store.set_raw(id + 1, vec![]).is_err());
    assert!(!store.has_pending());
    store.set_raw(id, b"7".to_vec()).unwrap();
    assert!(store.has_pending());
    assert_eq!(store.len(), 1);
}

#[test]
fn capabilities_grant_only_what_was_asked() {
    let caps = Capabilities::new().with_read().with_ui();
    assert!(caps.has(Capability::Read));
    assert!(caps.has(Capability::Ui));
    assert!(!caps.has(Capability::Network));
    assert!(!Capabilities::new().has(Capability::Dataspace));
}

#[test]
fn runtime_error_messages() {
    assert_eq!(RuntimeError::SignalNotFound(5).message(), "Signal not found: 5");
    assert_eq!(
        RuntimeError::CapabilityDenied(Capability::Network).message(),
        "Capability denied: Network"
    );
    assert_eq!(
        RuntimeError::MemoryLimitExceeded { current: 10, limit: 4 }.message(),
        "Memory limit exceeded: 10 > 4"
    );
}

#[test]
fn ids_round_trip() {
    let d = DocId::new("doc".to_string());
    assert_eq!(d.as_str(), "doc");
    let b = BlockId::new(17);
    assert_eq!(b.as_u64(), 17);
    let n: u64 = b.into();
    assert_eq!(BlockId::from(n), b);
}
