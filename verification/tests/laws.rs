use monowiki::render::templates::{DirectoryNode, FileNode};
use monowiki::mrl::checker::TypeChecker;
use monowiki::mrl::content::{Attributes, Block, Content, Inline};
use monowiki::mrl::rules::{RuleSet, Selector, SelectorBase, SetRule, SetValue};
use monowiki::util::strmap::StrMap;
use monowiki::mrl::error::{MrlError, Span};
use monowiki::mrl::hygiene::SpaceRegistry;
use monowiki::mrl::shrubbery::{Scope, ScopeSet};
use monowiki::mrl::types::{ContentKind, MrlType};
use monowiki::runtime::abi::RuntimeError;
use monowiki::runtime::dataspace::DataspaceClient;
use monowiki::runtime::emitter::{encode_i32, encode_i64, encode_u32};

#[test]
fn law_subtype_reflexive_transitive_dyn_top() {
    let block = MrlType::Block;
    let content = MrlType::Content;
    assert!(block.is_subtype_of(&block));
    assert!(block.is_subtype_of(&content));
    assert!(content.is_subtype_of(&MrlType::Dyn));
    assert!(block.is_subtype_of(&MrlType::Dyn));
    assert!(!MrlType::Dyn.is_subtype_of(&content));
    assert!(!content.is_subtype_of(&block));
    let code_block = MrlType::Code(ContentKind::Block);
    let code_content = MrlType::Code(ContentKind::Content);
    assert!(code_block.is_subtype_of(&code_content));
    assert!(!code_content.is_subtype_of(&code_block));
}

#[test]
fn law_unify_is_symmetric() {
    let c = TypeChecker::new();
    let s = Span::new(0, 1);
    assert_eq!(c.unify_types(&MrlType::Block, &MrlType::Content, s).unwrap(), MrlType::Content);
    assert_eq!(c.unify_types(&MrlType::Content, &MrlType::Block, s).unwrap(), MrlType::Content);
    assert!(matches!(c.unify_types(&MrlType::Int, &MrlType::String, s), Err(MrlError::TypeError { .. })));
    assert!(matches!(c.unify_types(&MrlType::String, &MrlType::Int, s), Err(MrlError::TypeError { .. })));
}

#[test]
fn law_named_space_is_fresh() {
    let mut r = SpaceRegistry::new();
    let a = r.get_or_create("custom");
    let b = r.get_or_create("other");
    for id in [r.expr.id(), r.bind.id(), r.ty.id(), r.defn.id(), b.id()] {
        assert_ne!(a.id(), id);
    }
    assert_eq!(r.get_or_create("custom").id(), a.id());
}

#[test]
fn law_scope_flip_toggles_and_counts() {
    let mut s = ScopeSet::new();
    s.add(Scope::new(1));
    s.add(Scope::new(2));
    let n = s.len();
    s.flip(Scope::new(3));
    assert_eq!(s.len(), n + 1);
    assert!(s.contains(&Scope::new(3)));
    s.flip(Scope::new(3));
    assert_eq!(s.len(), n);
    assert!(!s.contains(&Scope::new(3)));
    s.flip(Scope::new(1));
    assert_eq!(s.len(), n - 1);
}

#[test]
fn law_retract_twice_fails() {
    let mut c = DataspaceClient::new();
    let id = c.publish("p".to_string(), vec![1]);
    assert!(c.retract(id).is_ok());
    assert!(matches!(c.retract(id), Err(RuntimeError::DataspaceError(_))));
}

#[test]
fn law_leb128_lengths() {
    let v = encode_u32(u32::MAX);
    assert_eq!(v.len(), 5);
    assert_ne!(*v.last().unwrap(), 0);
    assert_eq!(encode_u32(0), vec![0]);
    assert_eq!(encode_u32(128), vec![0x80, 0x01]);
    let w = encode_i32(i32::MIN);
    assert_eq!(w.len(), 5);
    assert!(w[..4].iter().all(|b| b & 0x80 != 0));
    assert_eq!(w[4] & 0x80, 0);
    assert_eq!(encode_i32(-1), vec![0x7f]);
}

#[test]
fn law_set_rule_keeps_text() {
    let mut rs = RuleSet::new();
    let mut props = StrMap::new();
    props.insert("class".to_string(), SetValue::String("note".to_string()));
    rs.add_set_rule(SetRule { selector: Selector::new(SelectorBase::Paragraph), properties: props, span: Span::new(0, 0) });
    let mut c = Content::paragraph(Inline::text("hi"));
    let before = c.to_text();
    rs.apply_set_rules(&mut c);
    assert_eq!(c.to_text(), before);
    match &c {
        Content::Block(Block::Paragraph { attrs, .. }) => assert_eq!(attrs.classes, vec!["note".to_string()]),
        other => panic!("unexpected {:?}", other),
    }
}

#[test]
fn law_empty_scope_binding_resolves_under_any_use() {
    let mut env = monowiki::mrl::hygiene::HygieneEnv::new();
    let sym = monowiki::mrl::shrubbery::Symbol::new(7);
    env.add_binding(monowiki::mrl::hygiene::Binding::new(sym, ScopeSet::new(), Span::new(0, 1)));
    let mut use_scopes = ScopeSet::new();
    use_scopes.add(Scope::new(5));
    assert!(env.resolve(sym, &use_scopes).is_some());
    assert!(env.resolve(sym, &ScopeSet::new()).is_some());
    let mut own = ScopeSet::new();
    own.add(Scope::new(5));
    env.add_binding(monowiki::mrl::hygiene::Binding::new(sym, own, Span::new(2, 3)));
    assert_eq!(env.resolve(sym, &use_scopes).unwrap().scopes.len(), 1);
    assert_eq!(env.resolve(sym, &ScopeSet::new()).unwrap().scopes.len(), 0);
}

#[test]
fn law_set_rule_reaches_span_in_paragraph() {
    let mut props = StrMap::new();
    props.insert("class".to_string(), SetValue::String("hl".to_string()));
    let mut rules = RuleSet::new();
    rules.add_set_rule(SetRule { selector: Selector::new(SelectorBase::Span), properties: props, span: Span::default() });
    let mut c = Content::Block(Block::Paragraph {
        body: Box::new(Inline::Span { body: Box::new(Inline::Text("x".to_string())), attrs: Attributes::new() }),
        attrs: Attributes::new(),
    });
    rules.apply_set_rules(&mut c);
    match c {
        Content::Block(Block::Paragraph { body, attrs }) => {
            assert_eq!(attrs, Attributes::new());
            match *body {
                Inline::Span { attrs, .. } => assert_eq!(attrs.classes, vec!["hl".to_string()]),
                other => panic!("unexpected {:?}", other),
            }
        },
        other => panic!("unexpected {:?}", other),
    }
}

#[test]
fn law_leb128_lengths_and_decoding() {
    assert_eq!(encode_u32(0), vec![0]);
    assert_eq!(encode_u32(624485), vec![0xE5, 0x8E, 0x26]);
    let m = encode_u32(u32::MAX);
    assert_eq!(m.len(), 5);
    assert!(m[..4].iter().all(|b| b & 0x80 != 0));
    assert!(m[4] & 0x80 == 0 && m[4] != 0);
    assert_eq!(encode_i32(-1), vec![0x7F]);
    assert_eq!(encode_i32(-123456), vec![0xC0, 0xBB, 0x78]);
    assert_eq!(encode_i32(i32::MIN).len(), 5);
    assert_eq!(encode_i32(i32::MAX).len(), 5);
    assert_eq!(encode_i64(i64::MIN).len(), 10);
    let v = encode_i32(-123456);
    let mut x: i64 = 0;
    for (i, b) in v.iter().enumerate() {
        x |= ((b & 0x7F) as i64) << (7 * i);
    }
    if v[v.len() - 1] & 0x40 != 0 {
        x -= 1i64 << (7 * v.len());
    }
    assert_eq!(x, -123456);
}

#[test]
fn law_space_registry_counts_on() {
    let mut r = SpaceRegistry::new();
    let a = r.get_or_create("custom");
    let b = r.get_or_create("other");
    let a2 = r.get_or_create("custom");
    assert_eq!(a.id(), 4);
    assert_eq!(b.id(), 5);
    assert_eq!(a, a2);
}

#[test]
fn check_value_compares_types() {
    let c = TypeChecker::new();
    let s = Span::new(0, 2);
    let v = monowiki::mrl::expander::ExpandValue::Int(1);
    assert!(c.check_value(&v, &MrlType::Int, s).is_ok());
    assert!(c.check_value(&v, &MrlType::Dyn, s).is_ok());
    match c.check_value(&v, &MrlType::String, s) {
        Err(MrlError::TypeError { span, message }) => {
            assert_eq!(span, s);
            assert_eq!(message, "Type mismatch: expected String, got Int");
        },
        other => panic!("unexpected {:?}", other),
    }
}

#[test]
fn show_rules_replace_matching_content() {
    let mut e = monowiki::mrl::expander::Expander::new();
    let heading = Content::Block(Block::Heading { level: 1, body: Box::new(Inline::Text("t".to_string())), attrs: Attributes::new() });
    let same = e.apply_show_rules(Content::Inline(Inline::Text("t".to_string()))).unwrap();
    assert_eq!(same, Content::Inline(Inline::Text("t".to_string())));
    e.rules_mut().add_show_rule(monowiki::mrl::rules::ShowRule {
        selector: Selector::new(SelectorBase::Heading),
        transform: Box::new(monowiki::mrl::shrubbery::Shrubbery::Prose("replaced".to_string(), Span::new(0, 8))),
        span: Span::new(0, 8),
    });
    assert_eq!(e.rules().show_rules.len(), 1);
    let out = e.apply_show_rules(heading).unwrap();
    assert_eq!(out, Content::Inline(Inline::Text("replaced".to_string())));
}

#[test]
fn directory_keeps_files_of_unknown_kind() {
    let d = DirectoryNode {
        name: "d".to_string(),
        files: vec![
            FileNode { name: "s".to_string(), url: "/s".to_string(), title: "S".to_string(), note_type: "doc".to_string(), kind: Some("struct".to_string()) },
            FileNode { name: "m".to_string(), url: "/m".to_string(), title: "M".to_string(), note_type: "doc".to_string(), kind: Some("macro".to_string()) },
        ],
        subdirs: vec![],
    };
    let html = d.render_to_html();
    assert!(html.contains("<a href=\"/m\" class=\"file-link\">M</a>"));
    assert!(html.contains("<h4 class=\"kind-heading\">Structs</h4>"));
    let groups = html.find("kind-group").unwrap();
    let macro_pos = html.find("/m").unwrap();
    assert!(macro_pos > groups);
}
