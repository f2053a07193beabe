//! Parsing of the markup grammar into its syntax tree.

use gpui_markup::{Child, Delim, Element, ErrorKind, Markup, Tok};
use proc_macro2::{Delimiter, Spacing, TokenStream, TokenTree};

fn convert(ts: TokenStream, next: &mut usize) -> Vec<Tok> {
    let mut out = Vec::new();
    for tt in ts {
        let span = *next;
        *next += 1;
        out.push(match tt {
            TokenTree::Ident(i) => Tok::Ident { text: i.to_string(), span },
            TokenTree::Punct(p) => Tok::Punct {
                ch: p.as_char(),
                joint: p.spacing() == Spacing::Joint,
                span,
            },
            TokenTree::Literal(l) => Tok::Lit { text: l.to_string(), span },
            TokenTree::Group(g) => {
                let delim = match g.delimiter() {
                    Delimiter::Parenthesis => Delim::Paren,
                    Delimiter::Bracket => Delim::Bracket,
                    Delimiter::Brace => Delim::Brace,
                    Delimiter::None => Delim::Invisible,
                };
                Tok::Group { delim, inner: convert(g.stream(), next), span }
            }
        });
    }
    out
}

fn toks(src: &str) -> Vec<Tok> {
    convert(src.parse().unwrap(), &mut 0)
}

fn show(toks: &[Tok]) -> String {
    let mut s = String::new();
    for t in toks {
        match t {
            Tok::Ident { text, .. } | Tok::Lit { text, .. } => {
                s.push_str(text);
                s.push(' ');
            }
            Tok::Punct { ch, joint, .. } => {
                s.push(*ch);
                if !*joint {
                    s.push(' ');
                }
            }
            Tok::Group { delim, inner, .. } => {
                let (o, c) = match delim {
                    Delim::Paren => ("(", ")"),
                    Delim::Bracket => ("[", "]"),
                    Delim::Brace => ("{", "}"),
                    Delim::Invisible => ("", ""),
                };
                s.push_str(o);
                s.push_str(&show(inner));
                s.push_str(c);
                s.push(' ');
            }
        }
    }
    s
}

fn parse(src: &str) -> Markup {
    Markup::parse(&toks(src), 0).unwrap()
}

fn parse_err(src: &str) -> ErrorKind {
    Markup::parse(&toks(src), 0).unwrap_err().kind
}

#[test]
fn test_parse_simple_div() {
    let markup = parse("div {}");
    assert!(matches!(markup.element, Element::Native(_)));
}

#[test]
fn test_parse_div_with_attributes() {
    let markup = parse("div { [flex, w: px(200.0)] }");
    if let Element::Native(el) = markup.element {
        assert_eq!(el.attributes.len(), 2);
    } else {
        panic!("Expected Native element");
    }
}

#[test]
fn test_parse_div_with_children() {
    let markup = parse(
        r#"div {
            "Hello",
        }"#,
    );
    if let Element::Native(el) = markup.element {
        assert_eq!(el.children.len(), 1);
    } else {
        panic!("Expected Native element");
    }
}

#[test]
fn test_parse_div_full() {
    let markup = parse(
        r#"div { [flex, flex_col]
            "Content",
            div { [bold] "Nested" },
        }"#,
    );
    if let Element::Native(el) = markup.element {
        assert_eq!(el.attributes.len(), 2);
        assert_eq!(el.children.len(), 2);
    } else {
        panic!("Expected Native element");
    }
}

#[test]
fn test_parse_expression_element() {
    let markup = parse("Container::new(title) {}");
    assert!(matches!(markup.element, Element::Expression(_)));
}

#[test]
fn test_parse_expression_element_with_attrs() {
    let markup = parse(r#"Button::new("Click") { [style: Primary] }"#);
    if let Element::Expression(el) = markup.element {
        assert_eq!(el.attributes.len(), 1);
    } else {
        panic!("Expected Expression element");
    }
}

#[test]
fn test_parse_spread_children() {
    let markup = parse(
        "div {
            ..items,
        }",
    );
    if let Element::Native(el) = markup.element {
        assert_eq!(el.children.len(), 1);
        assert!(matches!(el.children[0], Child::Spread(_)));
    } else {
        panic!("Expected Native element");
    }
}

#[test]
fn test_parse_method_chain() {
    let markup = parse(
        "div {
            .when(cond, |d| d.flex()),
        }",
    );
    if let Element::Native(el) = markup.element {
        assert_eq!(el.children.len(), 1);
        assert!(matches!(el.children[0], Child::MethodChain(_)));
    } else {
        panic!("Expected Native element");
    }
}

#[test]
fn test_parse_deferred() {
    let markup = parse(
        r#"deferred {
            div { "Content" },
        }"#,
    );
    assert!(matches!(markup.element, Element::Deferred(_)));
}

#[test]
fn test_parse_method_with_generics() {
    let markup = parse(
        "div {
            .map::<Div, _>(|d| d),
        }",
    );
    if let Element::Native(el) = markup.element {
        assert!(matches!(el.children[0], Child::MethodChain(_)));
    } else {
        panic!("Expected Native element");
    }
}

#[test]
fn test_parse_paren_child_without_attrs() {
    let markup = parse(
        "div {
            (some_expr),
        }",
    );
    if let Element::Native(el) = markup.element {
        assert!(matches!(el.children[0], Child::Expression(_)));
    } else {
        panic!("Expected Native element");
    }
}

#[test]
fn test_parse_paren_child_with_attrs() {
    let markup = parse(
        "div {
            Button::new() { [flex] },
        }",
    );
    if let Element::Native(el) = markup.element {
        assert!(matches!(el.children[0], Child::Element(Element::Expression(_))));
    } else {
        panic!("Expected Native element");
    }
}

#[test]
fn test_parse_component() {
    let markup = parse("Header {}");
    assert!(matches!(markup.element, Element::Component(_)));
}

#[test]
fn test_parse_component_with_attrs() {
    let markup = parse("Header { [flex, style: Primary] }");
    if let Element::Component(el) = markup.element {
        assert_eq!(el.attributes.len(), 2);
    } else {
        panic!("Expected Component element");
    }
}

#[test]
fn test_parse_component_with_children() {
    let markup = parse(
        r#"Container {
            "Content",
            div { "Nested" },
        }"#,
    );
    if let Element::Component(el) = markup.element {
        assert_eq!(el.children.len(), 2);
    } else {
        panic!("Expected Component element");
    }
}

#[test]
fn test_parse_component_child() {
    let markup = parse(
        "div {
            Header { [flex] },
        }",
    );
    if let Element::Native(el) = markup.element {
        assert!(matches!(el.children[0], Child::Element(Element::Component(_))));
    } else {
        panic!("Expected Native element");
    }
}

#[test]
fn deferred_with_no_child_is_rejected() {
    assert_eq!(parse_err("deferred {}"), ErrorKind::DeferredArity);
}

#[test]
fn deferred_with_two_children_is_rejected() {
    assert_eq!(parse_err(r#"deferred { "1", "2", }"#), ErrorKind::DeferredArity);
}

#[test]
fn deferred_surplus_child_is_located_at_that_child() {
    // `deferred` 0, the body 1, `a` 2, `,` 3, `b` 4.
    let err = Markup::parse(&toks("deferred { a, b }"), 0).unwrap_err();
    assert_eq!(err.kind, ErrorKind::DeferredArity);
    assert_eq!(err.span, 4);
    let err = Markup::parse(&toks(r#"deferred { "1", "2", }"#), 0).unwrap_err();
    assert_eq!(err.span, 4);
    let err = Markup::parse(&toks("deferred { a b }"), 0).unwrap_err();
    assert_eq!(err.kind, ErrorKind::DeferredArity);
    assert_eq!(err.span, 3);
}

#[test]
fn deferred_with_one_child_and_a_comma_is_accepted() {
    assert!(matches!(parse("deferred { a, }").element, Element::Deferred(_)));
}

#[test]
fn missing_attribute_value_is_located_after_the_colon() {
    // `div` 0, the body 1, the brackets 2, `w` 3, `:` 4, `,` 5.
    let err = Markup::parse(&toks("div { [w:, flex] }"), 0).unwrap_err();
    assert_eq!(err.kind, ErrorKind::MalformedAttribute);
    assert_eq!(err.span, 5);
    // At the end of the list, the list itself.
    let err = Markup::parse(&toks("div { [w:] }"), 0).unwrap_err();
    assert_eq!(err.kind, ErrorKind::MalformedAttribute);
    assert_eq!(err.span, 2);
}

#[test]
fn deferred_with_a_spread_is_rejected() {
    assert_eq!(parse_err("deferred { ..items }"), ErrorKind::DeferredChild);
}

#[test]
fn deferred_error_points_at_the_tag() {
    let err = Markup::parse(&toks("deferred {}"), 0).unwrap_err();
    assert_eq!(err.span, 0);
}

#[test]
fn lowercase_tag_with_body_is_unknown() {
    assert_eq!(parse_err("foo {}"), ErrorKind::UnknownElement);
}

#[test]
fn literal_root_is_unknown() {
    assert_eq!(parse_err(r#""text""#), ErrorKind::UnknownElement);
}

#[test]
fn empty_input_is_unknown() {
    assert_eq!(parse_err(""), ErrorKind::UnknownElement);
}

#[test]
fn attribute_without_value_is_malformed() {
    assert_eq!(parse_err("div { [w:] }"), ErrorKind::MalformedAttribute);
}

#[test]
fn attribute_that_is_not_a_name_is_malformed() {
    assert_eq!(parse_err(r#"div { ["x"] }"#), ErrorKind::MalformedAttribute);
}

#[test]
fn expression_root_without_body_is_missing_body() {
    assert_eq!(parse_err("div().flex()"), ErrorKind::MissingBody);
}

#[test]
fn native_name_alone_is_missing_body() {
    assert_eq!(parse_err("div"), ErrorKind::MissingBody);
}

#[test]
fn double_comma_is_an_empty_child() {
    assert_eq!(parse_err(r#"div { "a",, "b" }"#), ErrorKind::EmptyChild);
}

#[test]
fn lone_dot_is_an_empty_child() {
    assert_eq!(parse_err(r#"div { ., "b" }"#), ErrorKind::EmptyChild);
}

#[test]
fn spread_without_expression_is_rejected() {
    assert_eq!(parse_err("div { .. }"), ErrorKind::ExpectedExpression);
}

#[test]
fn missing_comma_between_children_is_unexpected() {
    let err = Markup::parse(&toks(r#"div { "a" "b" }"#), 0).unwrap_err();
    assert_eq!(err.kind, ErrorKind::UnexpectedToken);
    // `div` is 0, the body 1, "a" 2 and "b" 3.
    assert_eq!(err.span, 3);
}

#[test]
fn tokens_after_the_root_are_unexpected() {
    assert_eq!(parse_err("div {} div {}"), ErrorKind::UnexpectedToken);
}

#[test]
fn paren_root_needs_no_body() {
    let markup = parse("(a + b)");
    if let Element::Expression(el) = markup.element {
        assert_eq!(el.expr.len(), 1);
        assert!(el.attributes.is_empty());
        assert!(el.children.is_empty());
    } else {
        panic!("Expected Expression element");
    }
}

#[test]
fn method_chain_keeps_generic_arguments() {
    let markup = parse("div { .map::<Div, _>(|d| d), \"x\" }");
    if let Element::Native(el) = markup.element {
        assert_eq!(el.children.len(), 2);
        if let Child::MethodChain(t) = &el.children[0] {
            // map : : < Div , _ > ( .. )
            assert_eq!(t.len(), 9);
        } else {
            panic!("Expected method chain");
        }
    } else {
        panic!("Expected Native element");
    }
}

#[test]
fn lowercase_child_with_body_is_an_expression_element() {
    let markup = parse("div { make() { [flex] } }");
    if let Element::Native(el) = markup.element {
        assert!(matches!(el.children[0], Child::Element(Element::Expression(_))));
    } else {
        panic!("Expected Native element");
    }
}

#[test]
fn component_names_may_start_with_any_uppercase_letter() {
    assert!(matches!(parse("Ärger {}").element, Element::Component(_)));
    assert!(matches!(parse("Ωmega {}").element, Element::Component(_)));
    assert_eq!(parse_err("über {}"), ErrorKind::UnknownElement);
}

#[test]
fn svg_and_anchored_are_native() {
    assert!(matches!(parse("svg {}").element, Element::Native(_)));
    assert!(matches!(parse("anchored {}").element, Element::Native(_)));
}
