use monowiki::mrl::content::{Attributes, Block, Content, Inline};
use monowiki::mrl::types::{ContentKind, MrlType, TypeScheme};

#[test]
fn test_inline_concat() {
    let i1 = Inline::text("Hello ");
    let i2 = Inline::text("world");
    let result = i1.concat(i2);
    assert_eq!(result, Inline::text("Hello world"));
}

#[test]
fn test_content_constructors() {
    let para = Content::paragraph(Inline::text("Test"));
    assert!(para.is_block());

    let heading = Content::heading(1, Inline::text("Title"));
    assert!(heading.is_block());

    let text = Content::text("inline");
    assert!(text.is_inline());
}

#[test]
fn test_attributes() {
    let attrs = Attributes::new()
        .with_id("test".to_string())
        .with_class("highlight".to_string())
        .with_attr("key".to_string(), "value".to_string());

    assert_eq!(attrs.id, Some("test".to_string()));
    assert_eq!(attrs.classes, vec!["highlight".to_string()]);
    assert_eq!(attrs.other.get("key"), Some(&"value".to_string()));
}

#[test]
fn attributes_later_value_replaces_earlier() {
    let attrs = Attributes::new()
        .with_attr("key".to_string(), "one".to_string())
        .with_attr("key".to_string(), "two".to_string());
    assert_eq!(attrs.other.len(), 1);
    assert_eq!(attrs.other.get("key"), Some(&"two".to_string()));
}

#[test]
fn inline_concat_of_sequences_flattens() {
    let a = Inline::Sequence(vec![Inline::text("a"), Inline::emphasis(Inline::text("b"))]);
    let b = Inline::Sequence(vec![Inline::text("c")]);
    let joined = a.concat(b);
    assert_eq!(
        joined,
        Inline::Sequence(vec![
            Inline::text("a"),
            Inline::emphasis(Inline::text("b")),
            Inline::text("c"),
        ])
    );
}

#[test]
fn inline_concat_mixed_builds_sequence() {
    let a = Inline::strong(Inline::text("x"));
    let b = Inline::text("y");
    assert_eq!(
        a.concat(b),
        Inline::Sequence(vec![Inline::strong(Inline::text("x")), Inline::text("y")])
    );
}

#[test]
fn content_concat_blocks_and_inlines() {
    let p = Content::paragraph(Inline::text("p"));
    let q = Content::thematic_break();
    let joined = p.concat(q);
    assert_eq!(
        joined,
        Content::Sequence(vec![Content::paragraph(Inline::text("p")), Content::thematic_break()])
    );
    let t = Content::text("a").concat(Content::text("b"));
    assert_eq!(t, Content::Sequence(vec![Content::text("a"), Content::text("b")]));
}

#[test]
fn block_attrs_are_reachable() {
    let b = Block::Paragraph { body: Box::new(Inline::text("x")), attrs: Attributes::new().with_id("p1".to_string()) };
    assert_eq!(b.attrs().id, Some("p1".to_string()));
}

#[test]
fn test_content_creation() {
    let text = Content::text("Hello");
    assert!(text.is_inline());

    let para = Content::paragraph(Inline::text("World"));
    assert!(para.is_block());
}

#[test]
fn test_content_combination() {
    let i1 = Inline::text("Hello ");
    let i2 = Inline::text("world");
    let combined = i1.concat(i2);

    assert_eq!(combined, Inline::text("Hello world"));
}

#[test]
fn integration_test_type_subtyping() {
    assert!(MrlType::Block.is_subtype_of(&MrlType::Content));
    assert!(MrlType::Inline.is_subtype_of(&MrlType::Content));
    assert!(!MrlType::Content.is_subtype_of(&MrlType::Block));
}

#[test]
fn test_content_nesting_validation() {
    let inline = MrlType::Inline;
    let block = MrlType::Block;

    assert!(!inline.can_contain(&block));
    assert!(block.can_contain(&inline));
}

#[test]
fn type_tests_test_content_kind_subtyping() {
    assert!(ContentKind::Block.is_subkind_of(&ContentKind::Content));
    assert!(ContentKind::Inline.is_subkind_of(&ContentKind::Content));
    assert!(ContentKind::Block.is_subkind_of(&ContentKind::Block));
    assert!(!ContentKind::Content.is_subkind_of(&ContentKind::Block));
}

#[test]
fn test_primitive_subtyping() {
    assert!(MrlType::Int.is_subtype_of(&MrlType::Int));
    assert!(!MrlType::Int.is_subtype_of(&MrlType::String));
}

#[test]
fn test_content_subtyping() {
    assert!(MrlType::Block.is_subtype_of(&MrlType::Content));
    assert!(MrlType::Inline.is_subtype_of(&MrlType::Content));
    assert!(!MrlType::Content.is_subtype_of(&MrlType::Block));
    assert!(!MrlType::Content.is_subtype_of(&MrlType::Inline));
}

#[test]
fn test_array_covariance() {
    let int_array = MrlType::Array(Box::new(MrlType::Int));
    let dyn_array = MrlType::Array(Box::new(MrlType::Dyn));

    assert!(int_array.is_subtype_of(&dyn_array));
    assert!(!dyn_array.is_subtype_of(&int_array));
}

#[test]
fn type_tests_test_function_subtyping() {
    let f1 = MrlType::Function { params: vec![MrlType::Int], ret: Box::new(MrlType::Block) };
    let f2 = MrlType::Function { params: vec![MrlType::Int], ret: Box::new(MrlType::Content) };

    assert!(f1.is_subtype_of(&f2));
}

#[test]
fn type_tests_test_code_type_subtyping() {
    let code_block = MrlType::Code(ContentKind::Block);
    let code_content = MrlType::Code(ContentKind::Content);

    assert!(code_block.is_subtype_of(&code_content));
    assert!(!code_content.is_subtype_of(&code_block));
}

#[test]
fn test_signal_covariance() {
    let int_signal = MrlType::Signal(Box::new(MrlType::Int));
    let dyn_signal = MrlType::Signal(Box::new(MrlType::Dyn));

    assert!(int_signal.is_subtype_of(&dyn_signal));
}

#[test]
fn test_dyn_is_top() {
    assert!(MrlType::Int.is_subtype_of(&MrlType::Dyn));
    assert!(MrlType::String.is_subtype_of(&MrlType::Dyn));
    assert!(MrlType::Block.is_subtype_of(&MrlType::Dyn));
    assert!(MrlType::Content.is_subtype_of(&MrlType::Dyn));
}

#[test]
fn test_content_nesting_inline_cannot_contain_block() {
    assert!(!MrlType::Inline.can_contain(&MrlType::Block));
    assert!(!MrlType::Inline.can_contain(&MrlType::Content));
}

#[test]
fn test_content_nesting_block_can_contain_inline() {
    assert!(MrlType::Block.can_contain(&MrlType::Inline));
    assert!(MrlType::Block.can_contain(&MrlType::Content));
}

#[test]
fn test_content_nesting_content_can_contain_all() {
    assert!(MrlType::Content.can_contain(&MrlType::Block));
    assert!(MrlType::Content.can_contain(&MrlType::Inline));
    assert!(MrlType::Content.can_contain(&MrlType::Content));
}

#[test]
fn test_content_kind_detection() {
    assert_eq!(MrlType::Block.as_content_kind(), Some(ContentKind::Block));
    assert_eq!(MrlType::Inline.as_content_kind(), Some(ContentKind::Inline));
    assert_eq!(MrlType::Content.as_content_kind(), Some(ContentKind::Content));
    assert_eq!(MrlType::Int.as_content_kind(), None);
}

#[test]
fn test_is_content() {
    assert!(MrlType::Block.is_content());
    assert!(MrlType::Inline.is_content());
    assert!(MrlType::Content.is_content());
    assert!(!MrlType::Int.is_content());
    assert!(!MrlType::String.is_content());
}

#[test]
fn test_type_display() {
    assert_eq!(MrlType::Int.to_string(), "Int");
    assert_eq!(MrlType::String.to_string(), "String");
    assert_eq!(MrlType::Array(Box::new(MrlType::Int)).to_string(), "Array<Int>");
    assert_eq!(MrlType::Code(ContentKind::Block).to_string(), "Code<Block>");

    let func = MrlType::Function { params: vec![MrlType::String, MrlType::Int], ret: Box::new(MrlType::Content) };
    assert_eq!(func.to_string(), "(String, Int) -> Content");
}

#[test]
fn test_type_scheme() {
    let scheme = TypeScheme::mono(MrlType::Int);
    assert_eq!(scheme.vars.len(), 0);
    assert_eq!(scheme.ty, MrlType::Int);

    let poly_scheme = TypeScheme::poly(vec![0, 1], MrlType::Var(0));
    assert_eq!(poly_scheme.vars.len(), 2);
}

#[test]
fn types_test_content_kind_subtyping() {
    let block = ContentKind::Block;
    let inline = ContentKind::Inline;
    let content = ContentKind::Content;

    assert!(block.is_subkind_of(&content));
    assert!(inline.is_subkind_of(&content));
    assert!(!content.is_subkind_of(&block));
    assert!(!content.is_subkind_of(&inline));
    assert!(block.is_subkind_of(&block));
}

#[test]
fn types_test_type_subtyping() {
    assert!(MrlType::Block.is_subtype_of(&MrlType::Content));
    assert!(MrlType::Inline.is_subtype_of(&MrlType::Content));
    assert!(!MrlType::Content.is_subtype_of(&MrlType::Block));

    let int_array = MrlType::Array(Box::new(MrlType::Int));
    let dyn_array = MrlType::Array(Box::new(MrlType::Dyn));
    assert!(int_array.is_subtype_of(&dyn_array));
}

#[test]
fn test_content_nesting() {
    let inline = MrlType::Inline;
    let block = MrlType::Block;
    let content = MrlType::Content;

    assert!(!inline.can_contain(&block));
    assert!(!inline.can_contain(&content));

    assert!(block.can_contain(&inline));
    assert!(block.can_contain(&content));

    assert!(content.can_contain(&block));
    assert!(content.can_contain(&inline));
    assert!(content.can_contain(&content));
}

#[test]
fn types_test_code_type_subtyping() {
    let code_block = MrlType::Code(ContentKind::Block);
    let code_content = MrlType::Code(ContentKind::Content);

    assert!(code_block.is_subtype_of(&code_content));
    assert!(!code_content.is_subtype_of(&code_block));
}

#[test]
fn types_test_function_subtyping() {
    let f1 = MrlType::Function { params: vec![MrlType::Int], ret: Box::new(MrlType::Block) };
    let f2 = MrlType::Function { params: vec![MrlType::Int], ret: Box::new(MrlType::Content) };

    assert!(f1.is_subtype_of(&f2));
}

#[test]
fn test_display() {
    let ty = MrlType::Function {
        params: vec![MrlType::String, MrlType::Int],
        ret: Box::new(MrlType::Code(ContentKind::Block)),
    };
    assert_eq!(ty.to_string(), "(String, Int) -> Code<Block>");
}

#[test]
fn records_tuples_and_maps_are_subtypes_only_when_equal() {
    let r1 = MrlType::Record(vec![("a".to_string(), MrlType::Block)]);
    let r2 = MrlType::Record(vec![("a".to_string(), MrlType::Content)]);
    let r3 = MrlType::Record(vec![("a".to_string(), MrlType::Block)]);
    assert!(!r1.is_subtype_of(&r2));
    assert!(r1.is_subtype_of(&r3));
    assert!(r1.is_subtype_of(&MrlType::Dyn));

    let t1 = MrlType::Tuple(vec![MrlType::Int, MrlType::Block]);
    let t2 = MrlType::Tuple(vec![MrlType::Int, MrlType::Content]);
    assert!(!t1.is_subtype_of(&t2));

    let m1 = MrlType::Mapping(Box::new(MrlType::String), Box::new(MrlType::Inline));
    let m2 = MrlType::Mapping(Box::new(MrlType::String), Box::new(MrlType::Inline));
    assert!(m1.is_subtype_of(&m2));
    assert!(!MrlType::Selector(ContentKind::Block).is_subtype_of(&MrlType::Selector(ContentKind::Content)));
}

#[test]
fn function_params_are_contravariant() {
    let f1 = MrlType::Function { params: vec![MrlType::Content], ret: Box::new(MrlType::Int) };
    let f2 = MrlType::Function { params: vec![MrlType::Block], ret: Box::new(MrlType::Int) };
    assert!(f1.is_subtype_of(&f2));
    assert!(!f2.is_subtype_of(&f1));
}

#[test]
fn display_of_composite_types() {
    assert_eq!(MrlType::NoneType.to_string(), "None");
    assert_eq!(
        MrlType::Mapping(Box::new(MrlType::String), Box::new(MrlType::Int)).to_string(),
        "Map<String, Int>"
    );
    assert_eq!(MrlType::Tuple(vec![MrlType::Int, MrlType::Bool]).to_string(), "(Int, Bool)");
    assert_eq!(MrlType::Var(7).to_string(), "?7");
    assert_eq!(MrlType::Signal(Box::new(MrlType::Int)).to_string(), "Signal<Int>");
    assert_eq!(MrlType::Selector(ContentKind::Inline).to_string(), "Selector<Inline>");
    assert_eq!(ContentKind::Content.to_string(), "Content");
}
