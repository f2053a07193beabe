//! Dynamic content: host expressions as children and attribute values.

use gpui_markup::{ui, Delim, Tok};
use proc_macro2::{Delimiter, Spacing, TokenStream, TokenTree};

fn convert(ts: TokenStream, next: &mut usize) -> Vec<Tok> {
    let mut out = Vec::new();
    for tt in ts {
        let span = *next;
        *next += 1;
        out.push(match tt {
            TokenTree::Ident(i) => Tok::Ident { text: i.to_string(), span },
            TokenTree::Punct(p) => Tok::Punct {
                ch: p.as_char(),
                joint: p.spacing() == Spacing::Joint,
                span,
            },
            TokenTree::Literal(l) => Tok::Lit { text: l.to_string(), span },
            TokenTree::Group(g) => {
                let delim = match g.delimiter() {
                    Delimiter::Parenthesis => Delim::Paren,
                    Delimiter::Bracket => Delim::Bracket,
                    Delimiter::Brace => Delim::Brace,
                    Delimiter::None => Delim::Invisible,
                };
                Tok::Group { delim, inner: convert(g.stream(), next), span }
            }
        });
    }
    out
}

fn toks(src: &str) -> Vec<Tok> {
    convert(src.parse().unwrap(), &mut 0)
}

fn show(toks: &[Tok]) -> String {
    let mut s = String::new();
    for t in toks {
        match t {
            Tok::Ident { text, .. } | Tok::Lit { text, .. } => {
                s.push_str(text);
                s.push(' ');
            }
            Tok::Punct { ch, joint, .. } => {
                s.push(*ch);
                if !*joint {
                    s.push(' ');
                }
            }
            Tok::Group { delim, inner, .. } => {
                let (o, c) = match delim {
                    Delim::Paren => ("(", ")"),
                    Delim::Bracket => ("[", "]"),
                    Delim::Brace => ("{", "}"),
                    Delim::Invisible => ("", ""),
                };
                s.push_str(o);
                s.push_str(&show(inner));
                s.push_str(c);
                s.push(' ');
            }
        }
    }
    s
}

fn compile(src: &str) -> String {
    show(&ui(&toks(src)).unwrap())
}

/// The tokens of `src`, in which `[[Type | head]]` stands for the head of an
/// element that receives children, inside the block that first checks that
/// `Type` accepts children.
fn source(src: &str) -> String {
    let mut text = String::new();
    let mut rest = src;
    while let Some(start) = rest.find("[[") {
        let end = start + rest[start..].find("]]").unwrap();
        let (ty, head) = rest[start + 2..end].split_once(" | ").unwrap();
        text.push_str(&rest[..start]);
        text.push_str(&format!(
            "{{ fn __assert_parent_element<T: gpui::ParentElement>() {{}} \
             __assert_parent_element::<{ty}>(); {head} }}"
        ));
        rest = &rest[end + 2..];
    }
    text.push_str(rest);
    show(&toks(&text))
}

#[test]
fn test_dynamic_text() {
    let out = compile(
        r#"div {
            format!("Hello, {}!", name),
        }"#,
    );
    assert_eq!(out, source(r#"[[gpui::Div | div()]].child(format!("Hello, {}!", name))"#));
}

#[test]
fn test_dynamic_attribute_value() {
    assert_eq!(
        compile("div @[w: px(width), h: px(height)] {}"),
        source("div().w(px(width)).h(px(height))")
    );
}

#[test]
fn test_conditional_style_with_when() {
    let out = compile(
        "div @[
            bg: gpui::black(),
            when: (is_active, |s| s.border_color(gpui::blue())),
        ] {}",
    );
    assert_eq!(
        out,
        source("div().bg(gpui::black()).when(is_active, |s| s.border_color(gpui::blue()))")
    );
}

#[test]
fn test_hover_with_closure() {
    let out = compile(
        "div @[
            bg: gpui::white(),
            hover: |s: StyleRefinement| s.bg(gpui::black()),
        ] {}",
    );
    assert_eq!(
        out,
        source("div().bg(gpui::white()).hover(|s: StyleRefinement| s.bg(gpui::black()))")
    );
}

#[test]
fn test_complex_expression() {
    assert_eq!(
        compile("div @[w: px(values[index] * 2.0)] {}"),
        source("div().w(px(values[index] * 2.0))")
    );
}

#[test]
fn test_method_chain_in_child() {
    let out = compile(
        r#"div {
            text.to_uppercase().replace(' ', "_"),
        }"#,
    );
    assert_eq!(out, source(r#"[[gpui::Div | div()]].child(text.to_uppercase().replace(' ', "_"))"#));
}

#[test]
fn test_conditional_child() {
    let out = compile(
        r#"div {
            if show_extra { "Extra content" } else { "" },
        }"#,
    );
    assert_eq!(out, source(r#"[[gpui::Div | div()]].child(if show_extra { "Extra content" } else { "" })"#));
}

#[test]
fn test_match_expression_in_child() {
    let out = compile(
        r#"div {
            match status {
                0 => "Pending",
                1 => "Active",
                _ => "Unknown",
            },
        }"#,
    );
    let expected = r#"[[gpui::Div | div()]].child(match status {
        0 => "Pending",
        1 => "Active",
        _ => "Unknown",
    })"#;
    assert_eq!(out, source(expected));
}

#[test]
fn test_block_expression_in_child() {
    let out = compile(
        r#"div {
            {
                let x = 1 + 2;
                format!("Result: {x}")
            },
        }"#,
    );
    assert_eq!(out, source(r#"[[gpui::Div | div()]].child({ let x = 1 + 2; format!("Result: {x}") })"#));
}

#[test]
fn test_closure_call_in_child() {
    let out = compile(
        "div {
            make_text(),
        }",
    );
    assert_eq!(out, source("[[gpui::Div | div()]].child(make_text())"));
}

#[test]
fn test_option_unwrap_in_child() {
    let out = compile(
        r#"div {
            maybe_name.map(|n| format!("Hello, {n}")).unwrap_or_default(),
        }"#,
    );
    assert_eq!(
        out,
        source(r#"[[gpui::Div | div()]].child(maybe_name.map(|n| format!("Hello, {n}")).unwrap_or_default())"#)
    );
}

#[test]
fn test_conditional_attribute_value() {
    assert_eq!(
        compile("div @[w: px(if level > 1 { 200.0 } else { 100.0 })] {}"),
        source("div().w(px(if level > 1 { 200.0 } else { 100.0 }))")
    );
}

#[test]
fn test_struct_field_in_attribute() {
    assert_eq!(
        compile("div @[w: px(config.width), h: px(config.height)] {}"),
        source("div().w(px(config.width)).h(px(config.height))")
    );
}

#[test]
fn test_multiple_children_mixed_types() {
    let out = compile(
        "div {
            data.0,
            data.1,
        }",
    );
    assert_eq!(out, source("[[gpui::Div | div()]].child(data.0).child(data.1)"));
}

#[test]
fn test_array_index_in_child() {
    let out = compile(
        "div {
            items[0],
            items[1],
        }",
    );
    assert_eq!(out, source("[[gpui::Div | div()]].child(items[0]).child(items[1])"));
}

#[test]
fn test_deeply_nested_structure() {
    let out = compile(
        r#"div @[flex] {
            div @[flex_col] {
                div {
                    "Level 1",
                    div {
                        "Level 2",
                        div {
                            "Level 3",
                        },
                    },
                },
            },
        }"#,
    );
    let expected = r#"[[gpui::Div | div().flex()]].child([[gpui::Div | div().flex_col()]].child(
        [[gpui::Div | div()]].child("Level 1").child(
            [[gpui::Div | div()]].child("Level 2").child([[gpui::Div | div()]].child("Level 3"))
        )
    ))"#;
    assert_eq!(out, source(expected));
}

#[test]
fn test_nested_ui_macro() {
    let out = compile(
        r#"div {
            ui! { div { "Nested macro" } },
        }"#,
    );
    assert_eq!(out, source(r#"[[gpui::Div | div()]].child(ui! { div { "Nested macro" } })"#));
}

#[test]
fn test_nested_ui_macro_with_variable() {
    let inner = compile(r#"div @[flex] { "Inner" }"#);
    assert_eq!(inner, source(r#"[[gpui::Div | div().flex()]].child("Inner")"#));
    let out = compile(
        "div {
            inner,
        }",
    );
    assert_eq!(out, source("[[gpui::Div | div()]].child(inner)"));
}

#[test]
fn test_nested_ui_macro_in_spread() {
    assert_eq!(compile(r#"div { "A" }"#), source(r#"[[gpui::Div | div()]].child("A")"#));
    let out = compile(
        "div {
            ..items,
        }",
    );
    assert_eq!(out, source("[[gpui::Div | div()]].children(items)"));
}

#[test]
fn test_deeply_nested_ui_macros() {
    let out = compile(
        r#"div {
            ui! {
                div {
                    ui! {
                        div { "Deep" }
                    },
                }
            },
        }"#,
    );
    assert_eq!(
        out,
        source(r#"[[gpui::Div | div()]].child(ui! { div { ui! { div { "Deep" } }, } })"#)
    );
}

#[test]
fn prefix_and_inner_attributes_are_joined_in_order() {
    assert_eq!(
        compile(r#"div @[flex] { [flex_col] "x" }"#),
        source(r#"[[gpui::Div | div().flex().flex_col()]].child("x")"#)
    );
}

#[test]
fn expression_element_with_prefix_attributes() {
    assert_eq!(
        compile(r#"Button::new("Click") @[style: Primary] {}"#),
        source(r#"Button::new("Click").style(Primary)"#)
    );
}

#[test]
fn deferred_takes_no_prefix_attributes() {
    let err = ui(&toks("deferred @[flex] { a }")).unwrap_err();
    assert_eq!(err.kind, gpui_markup::ErrorKind::MalformedAttribute);
}
