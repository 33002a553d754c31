use monowiki::mrl::document::{parse_document, DocumentElement, DocumentParser};
use monowiki::mrl::error::{MrlError, Span};

#[test]
fn test_parse_pure_prose() {
    let source = "This is plain text with no code.";
    let elements = parse_document(source).unwrap();
    assert_eq!(elements.len(), 1);
    assert!(matches!(&elements[0], DocumentElement::Prose(text, _) if text.contains("plain text")));
}

#[test]
fn test_parse_escaped_exclamation() {
    let source = "Use !! to get a literal exclamation!";
    let elements = parse_document(source).unwrap();
    assert_eq!(elements.len(), 1);
    if let DocumentElement::Prose(text, _) = &elements[0] {
        assert!(text.contains("!"));
        assert!(!text.contains("!!"));
    } else {
        panic!("Expected prose element");
    }
}

#[test]
fn test_parse_inline_code() {
    let source = "Today is !today()";
    let elements = parse_document(source).unwrap();
    assert_eq!(elements.len(), 2);
    assert!(matches!(&elements[0], DocumentElement::Prose(_, _)));
    assert!(matches!(&elements[1], DocumentElement::Code(_)));
}

#[test]
fn test_parse_mixed_content() {
    let source = r#"# Title

This is a paragraph with !inline_code.

!def greet(name: String):
  text("Hello")

More prose here."#;

    let elements = parse_document(source).unwrap();
    // Should have prose, code (inline), prose, code (def block), prose
    assert!(elements.len() >= 3);
}

#[test]
fn test_markdown_image_not_code() {
    let source = "Here's an image: ![alt text](url)";
    let elements = parse_document(source).unwrap();
    // Should be pure prose since ![...] is Markdown image syntax
    assert_eq!(elements.len(), 1);
    assert!(matches!(&elements[0], DocumentElement::Prose(_, _)));
}

#[test]
fn document_prose_span_counts_bytes() {
    // "é" takes two bytes, so the prose before the code ends at byte 9.
    let elements = parse_document("café is !x").unwrap();
    assert_eq!(elements.len(), 2);
    match &elements[0] {
        DocumentElement::Prose(text, span) => {
            assert_eq!(text.as_str(), "café is ");
            assert_eq!(*span, Span::new(0, 9));
        }
        _ => panic!("expected prose"),
    }
    assert!(matches!(&elements[1], DocumentElement::Code(_)));
}

#[test]
fn document_escaped_bang_becomes_one() {
    let elements = parse_document("a!!b").unwrap();
    assert_eq!(elements.len(), 1);
    match &elements[0] {
        DocumentElement::Prose(text, span) => {
            assert_eq!(text.as_str(), "a!b");
            assert_eq!(*span, Span::new(0, 4));
        }
        _ => panic!("expected prose"),
    }
}

#[test]
fn document_trailing_bang_is_prose() {
    let elements = parse_document("wow!").unwrap();
    assert_eq!(elements.len(), 1);
    assert!(matches!(&elements[0], DocumentElement::Prose(t, _) if t.as_str() == "wow!"));
}

#[test]
fn document_inline_code_stops_at_whitespace_outside_brackets() {
    let elements = parse_document("x !f(a b) rest").unwrap();
    assert_eq!(elements.len(), 3);
    assert!(matches!(&elements[1], DocumentElement::Code(_)));
    match &elements[2] {
        DocumentElement::Prose(text, span) => {
            assert_eq!(text.as_str(), "rest");
            assert_eq!(*span, Span::new(10, 14));
        }
        _ => panic!("expected prose"),
    }
}

#[test]
fn document_block_code_takes_its_indented_lines() {
    let elements = parse_document("!f(a)
  g(b)
after").unwrap();
    assert_eq!(elements.len(), 2);
    assert!(matches!(&elements[0], DocumentElement::Code(_)));
    match &elements[1] {
        DocumentElement::Prose(text, span) => {
            assert_eq!(text.as_str(), "after");
            assert_eq!(*span, Span::new(13, 18));
        }
        _ => panic!("expected prose"),
    }
}

#[test]
fn document_code_that_does_not_lex_is_an_error() {
    let r = parse_document("see !a#b");
    assert!(matches!(r, Err(MrlError::LexerError { .. })));
}

#[test]
fn document_classes_decide_code_start() {
    // With every character classed as not alphabetic, `!x` stays prose.
    let source = "a !x y";
    let n = source.chars().count();
    let ws = vec![false, true, false, false, true, false];
    let mut parser = DocumentParser::with_classes(source, vec![false; n], ws.clone());
    let elements = parser.parse().unwrap();
    assert_eq!(elements.len(), 1);
    assert!(matches!(&elements[0], DocumentElement::Prose(t, _) if t.as_str() == "a !x y"));

    // Classed as alphabetic, it is code, which stops at the whitespace.
    let mut alpha = vec![false; n];
    alpha[3] = true;
    let mut parser = DocumentParser::with_classes(source, alpha, ws);
    let elements = parser.parse().unwrap();
    assert_eq!(elements.len(), 3);
    assert!(matches!(&elements[1], DocumentElement::Code(_)));
    assert!(matches!(&elements[2], DocumentElement::Prose(t, _) if t.as_str() == "y"));
}

#[test]
fn document_bang_bracket_without_image_is_code() {
    let elements = parse_document("see ![1] here").unwrap();
    assert_eq!(elements.len(), 3);
    assert!(matches!(&elements[1], DocumentElement::Code(_)));
}
