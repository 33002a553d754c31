use monowiki::runtime::abi::{Capabilities, Capability, HttpRequest, RuntimeError, Severity, Span};
use monowiki::runtime::host::RuntimeHost;
use monowiki::runtime::ui::{Widget, WidgetStore};
use monowiki::util::ieee::{bounds_ok, clamp};

fn bits(x: f64) -> u64 {
    x.to_bits()
}

#[test]
fn test_create_slider() {
    let mut store = WidgetStore::new();
    let id = store.create_slider(bits(0.0), bits(100.0), bits(50.0));

    let widget = store.get(id).unwrap();
    match widget {
        Widget::Slider { min, max, value, .. } => {
            assert_eq!(f64::from_bits(*min), 0.0);
            assert_eq!(f64::from_bits(*max), 100.0);
            assert_eq!(f64::from_bits(*value), 50.0);
        }
        _ => panic!("Expected slider widget"),
    }
}

#[test]
fn test_update_slider() {
    let mut store = WidgetStore::new();
    let id = store.create_slider(bits(0.0), bits(100.0), bits(50.0));

    store.update_slider(id, bits(75.0)).unwrap();

    let widget = store.get(id).unwrap();
    match widget {
        Widget::Slider { value, .. } => {
            assert_eq!(f64::from_bits(*value), 75.0);
        }
        _ => panic!("Expected slider widget"),
    }
}

#[test]
fn test_slider_clamping() {
    let mut store = WidgetStore::new();
    let id = store.create_slider(bits(0.0), bits(100.0), bits(50.0));

    store.update_slider(id, bits(150.0)).unwrap();

    let widget = store.get(id).unwrap();
    match widget {
        Widget::Slider { value, .. } => {
            assert_eq!(f64::from_bits(*value), 100.0);
        }
        _ => panic!("Expected slider widget"),
    }
}

#[test]
fn test_create_text_input() {
    let mut store = WidgetStore::new();
    let id = store.create_text_input("Enter text".to_string(), "Hello".to_string());

    let widget = store.get(id).unwrap();
    match widget {
        Widget::TextInput { placeholder, value, .. } => {
            assert_eq!(placeholder, "Enter text");
            assert_eq!(value, "Hello");
        }
        _ => panic!("Expected text input widget"),
    }
}

#[test]
fn test_create_button() {
    let mut store = WidgetStore::new();
    let id = store.create_button("Click me".to_string());

    let widget = store.get(id).unwrap();
    match widget {
        Widget::Button { label, clicked, .. } => {
            assert_eq!(label, "Click me");
            assert!(!clicked);
        }
        _ => panic!("Expected button widget"),
    }
}

#[test]
fn test_button_click() {
    let mut store = WidgetStore::new();
    let id = store.create_button("Click me".to_string());

    store.click_button(id).unwrap();

    let widget = store.get(id).unwrap();
    match widget {
        Widget::Button { clicked, .. } => {
            assert!(clicked);
        }
        _ => panic!("Expected button widget"),
    }

    store.reset_button(id).unwrap();

    let widget = store.get(id).unwrap();
    match widget {
        Widget::Button { clicked, .. } => {
            assert!(!clicked);
        }
        _ => panic!("Expected button widget"),
    }
}

#[test]
fn test_show_output() {
    let mut store = WidgetStore::new();

    store.show(vec![1, 2, 3]);
    store.show(vec![4, 5, 6]);

    let output = store.take_output();
    assert_eq!(output.len(), 2);
    assert_eq!(output[0], vec![1, 2, 3]);
    assert_eq!(output[1], vec![4, 5, 6]);

    let output2 = store.take_output();
    assert_eq!(output2.len(), 0);
}

#[test]
fn slider_clamps_below_and_keeps_nan() {
    let mut store = WidgetStore::new();
    let id = store.create_slider(bits(-1.5), bits(2.5), bits(-10.0));
    match store.get(id).unwrap() {
        Widget::Slider { value, .. } => assert_eq!(f64::from_bits(*value), -1.5),
        _ => panic!("Expected slider widget"),
    }
    store.update_slider(id, bits(f64::NAN)).unwrap();
    match store.get(id).unwrap() {
        Widget::Slider { value, .. } => assert!(f64::from_bits(*value).is_nan()),
        _ => panic!("Expected slider widget"),
    }
}

#[test]
fn clamp_on_bits_agrees_with_f64_clamp() {
    let samples = [
        -f64::INFINITY, -1e300, -2.5, -1.0, -0.0, 0.0, 1e-310, 0.5, 1.0, 3.75, 1e300, f64::INFINITY,
    ];
    for &lo in samples.iter() {
        for &hi in samples.iter() {
            assert_eq!(bounds_ok(bits(lo), bits(hi)), lo <= hi);
            if lo <= hi {
                for &v in samples.iter() {
                    let got = f64::from_bits(clamp(bits(v), bits(lo), bits(hi)));
                    assert_eq!(got, v.clamp(lo, hi));
                }
            }
        }
    }
    assert!(!bounds_ok(bits(f64::NAN), bits(1.0)));
    assert!(!bounds_ok(bits(0.0), bits(f64::NAN)));
}

#[test]
fn update_of_wrong_kind_or_missing_widget() {
    let mut store = WidgetStore::new();
    let b = store.create_button("b".to_string());
    match store.update_slider(b, bits(1.0)) {
        Err(RuntimeError::WasmError(m)) => assert_eq!(m, format!("Widget {} is not a slider", b)),
        _ => panic!("expected a kind error"),
    }
    match store.update_text_input(b, "x".to_string()) {
        Err(RuntimeError::WasmError(m)) => assert_eq!(m, format!("Widget {} is not a text input", b)),
        _ => panic!("expected a kind error"),
    }
    let t = store.create_text_input(String::new(), String::new());
    match store.click_button(t) {
        Err(RuntimeError::WasmError(m)) => assert_eq!(m, format!("Widget {} is not a button", t)),
        _ => panic!("expected a kind error"),
    }
    assert!(matches!(store.get(99), Err(RuntimeError::WidgetNotFound(99))));
    assert!(matches!(store.click_button(99), Err(RuntimeError::WidgetNotFound(99))));
    assert_eq!(store.len(), 2);
    assert_eq!(store.get(b).unwrap().kind(), "button");
    assert_eq!(store.get(t).unwrap().id(), t);
    store.clear();
    assert!(store.is_empty());
}

#[test]
fn test_signal_operations() {
    let mut host = RuntimeHost::with_default_capabilities();

    let id = host.signal_create(b"hello").unwrap();
    let value = host.signal_get(id).unwrap();
    assert_eq!(value, b"hello");

    host.signal_set(id, b"world").unwrap();
    let value = host.signal_get(id).unwrap();
    assert_eq!(value, b"world");
}

#[test]
fn test_ui_capability_check() {
    let mut host = RuntimeHost::new(Capabilities::new());

    let result = host.ui_slider(bits(0.0), bits(100.0), bits(50.0));
    assert!(matches!(result, Err(RuntimeError::CapabilityDenied(Capability::Ui))));
}

#[test]
fn test_ui_slider_with_capability() {
    let mut host = RuntimeHost::new(Capabilities::new().with_ui());

    let id = host.ui_slider(bits(0.0), bits(100.0), bits(50.0)).unwrap();
    assert!(id > 0);
}

#[test]
fn test_diagnostics_with_capability() {
    let mut host = RuntimeHost::new(Capabilities::new().with_diagnostics());

    let span = Span::new(1, 0, 1, 10);
    host.emit_diagnostic(Severity::Error, span, "Test error").unwrap();

    assert_eq!(host.diagnostics.diagnostic_count(), 1);
}

#[test]
fn test_dataspace_without_capability() {
    let mut host = RuntimeHost::new(Capabilities::new());

    let result = host.dataspace_publish("test.pattern", b"value");
    assert!(matches!(result, Err(RuntimeError::CapabilityDenied(Capability::Dataspace))));
}

#[test]
fn test_dataspace_with_capability() {
    let mut host = RuntimeHost::new(Capabilities::new().with_dataspace());

    let id = host.dataspace_publish("test.pattern", b"value").unwrap();
    assert!(id > 0);

    host.dataspace_retract(id).unwrap();
}

#[test]
fn test_fetch_capability() {
    let host = RuntimeHost::new(Capabilities::new());

    let request = HttpRequest {
        method: "GET".to_string(),
        url: "https://example.com".to_string(),
        headers: vec![],
        body: None,
    };

    let result = host.fetch(request);
    assert!(matches!(result, Err(RuntimeError::CapabilityDenied(Capability::Network))));
}

#[test]
fn fetch_with_network_answers_not_implemented() {
    let host = RuntimeHost::new(Capabilities::new().with_network());
    let request = HttpRequest { method: "GET".to_string(), url: "u".to_string(), headers: vec![], body: None };
    let resp = host.fetch(request).unwrap();
    assert_eq!(resp.status, 501);
    assert_eq!(resp.headers, vec![("Content-Type".to_string(), "text/plain".to_string())]);
    assert_eq!(resp.body, b"HTTP fetch not yet implemented".to_vec());
}

#[test]
fn denied_calls_change_nothing_and_granted_ones_work() {
    let mut host = RuntimeHost::new(Capabilities::new());
    assert!(matches!(host.ui_show(b"x"), Err(RuntimeError::CapabilityDenied(Capability::Ui))));
    assert!(matches!(host.ui_button("b"), Err(RuntimeError::CapabilityDenied(Capability::Ui))));
    assert!(matches!(
        host.emit_diagnostic(Severity::Warning, Span::new(0, 0, 0, 1), "w"),
        Err(RuntimeError::CapabilityDenied(Capability::Diagnostics))
    ));
    assert!(matches!(
        host.add_decoration(Span::new(0, 0, 0, 1), "c"),
        Err(RuntimeError::CapabilityDenied(Capability::Diagnostics))
    ));
    assert!(host.take_output().is_empty());
    assert_eq!(host.diagnostics.diagnostic_count(), 0);

    let mut host = RuntimeHost::with_default_capabilities();
    host.ui_show(b"shown").unwrap();
    let t = host.ui_text_input("p", "v").unwrap();
    let b = host.ui_button("go").unwrap();
    assert_eq!(b, t + 1);
    assert_eq!(host.take_output(), vec![b"shown".to_vec()]);
    assert!(matches!(
        host.dataspace_subscribe("p", 1),
        Err(RuntimeError::CapabilityDenied(Capability::Dataspace))
    ));
}

#[test]
fn dataspace_subscription_and_signal_processing() {
    let mut host = RuntimeHost::new(Capabilities::new().with_dataspace());
    let sub = host.dataspace_subscribe("a.*", 7).unwrap();
    host.dataspace_unsubscribe(sub).unwrap();
    assert!(host.dataspace_retract(12345).is_err());

    let id = host.signal_create(b"1").unwrap();
    host.signal_subscribe(id, 3).unwrap();
    host.signal_subscribe(id, 3).unwrap();
    host.signal_set(id, b"2").unwrap();
    let pending = host.process_signals();
    assert_eq!(pending, vec![(id, b"2".to_vec(), vec![3])]);
    assert!(host.process_signals().is_empty());
    assert!(matches!(host.signal_get(999), Err(RuntimeError::SignalNotFound(999))));
    host.clear();
    assert!(host.signal_get(id).is_err());
}
