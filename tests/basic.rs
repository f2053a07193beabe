//! Basic syntax: paired tags, attributes and children.

use gpui_markup::{ui, Delim, Tok};
use proc_macro2::{Delimiter, Spacing, TokenStream, TokenTree};

fn convert(ts: TokenStream, next: &mut usize) -> Vec<Tok> {
    let mut out = Vec::new();
    for tt in ts {
        let span = *next;
        *next += 1;
        out.push(match tt {
            TokenTree::Ident(i) => Tok::Ident { text: i.to_string(), span },
            TokenTree::Punct(p) => Tok::Punct {
                ch: p.as_char(),
                joint: p.spacing() == Spacing::Joint,
                span,
            },
            TokenTree::Literal(l) => Tok::Lit { text: l.to_string(), span },
            TokenTree::Group(g) => {
                let delim = match g.delimiter() {
                    Delimiter::Parenthesis => Delim::Paren,
                    Delimiter::Bracket => Delim::Bracket,
                    Delimiter::Brace => Delim::Brace,
                    Delimiter::None => Delim::Invisible,
                };
                Tok::Group { delim, inner: convert(g.stream(), next), span }
            }
        });
    }
    out
}

fn toks(src: &str) -> Vec<Tok> {
    convert(src.parse().unwrap(), &mut 0)
}

fn show(toks: &[Tok]) -> String {
    let mut s = String::new();
    for t in toks {
        match t {
            Tok::Ident { text, .. } | Tok::Lit { text, .. } => {
                s.push_str(text);
                s.push(' ');
            }
            Tok::Punct { ch, joint, .. } => {
                s.push(*ch);
                if !*joint {
                    s.push(' ');
                }
            }
            Tok::Group { delim, inner, .. } => {
                let (o, c) = match delim {
                    Delim::Paren => ("(", ")"),
                    Delim::Bracket => ("[", "]"),
                    Delim::Brace => ("{", "}"),
                    Delim::Invisible => ("", ""),
                };
                s.push_str(o);
                s.push_str(&show(inner));
                s.push_str(c);
                s.push(' ');
            }
        }
    }
    s
}

fn compile(src: &str) -> String {
    show(&ui(&toks(src)).unwrap())
}

/// The tokens of `src`, in which `[[Type | head]]` stands for the head of an
/// element that receives children, inside the block that first checks that
/// `Type` accepts children, and `<<name>>` (or `<<Name::new>>`) for the
/// constructor call of an element closed by `</name>`, after its opening name.
fn source(src: &str) -> String {
    let mut text = String::new();
    let mut rest = src;
    while let Some(start) = rest.find("[[") {
        let end = start + rest[start..].find("]]").unwrap();
        let (ty, head) = rest[start + 2..end].split_once(" | ").unwrap();
        text.push_str(&rest[..start]);
        text.push_str(&format!(
            "{{ fn __assert_parent_element<T: gpui::ParentElement>() {{}} \
             __assert_parent_element::<{ty}>(); {head} }}"
        ));
        rest = &rest[end + 2..];
    }
    text.push_str(rest);
    let mut out = String::new();
    let mut rest = text.as_str();
    while let Some(start) = rest.find("<<") {
        let end = start + rest[start..].find(">>").unwrap();
        let ctor = &rest[start + 2..end];
        let name = ctor.strip_suffix("::new").unwrap_or(ctor);
        out.push_str(&rest[..start]);
        out.push_str(&format!("{{ #[allow(path_statements)] {name}; {ctor}() }}"));
        rest = &rest[end + 2..];
    }
    out.push_str(rest);
    show(&toks(&out))
}

#[test]
fn test_empty_div() {
    assert_eq!(compile("<div/>"), source("div()"));
}

#[test]
fn test_div_with_flag_attributes() {
    assert_eq!(
        compile("<div flex flex_col items_center/>"),
        source("div().flex().flex_col().items_center()")
    );
}

#[test]
fn test_div_with_value_attributes() {
    assert_eq!(
        compile("<div w={px(200.0)} h={px(100.0)}/>"),
        source("div().w(px(200.0)).h(px(100.0))")
    );
}

#[test]
fn basic_test_div_with_mixed_attributes() {
    assert_eq!(
        compile("<div flex w={px(200.0)} border_1/>"),
        source("div().flex().w(px(200.0)).border_1()")
    );
}

#[test]
fn test_div_with_single_text_child() {
    let out = compile(
        r#"<div>
            {"Hello World"}
        </div>"#,
    );
    assert_eq!(out, source(r#"[[gpui::Div | <<div>>]].child("Hello World")"#));
}

#[test]
fn test_div_with_single_element_child() {
    let out = compile(
        "<div>
            <div flex/>
        </div>",
    );
    assert_eq!(out, source("[[gpui::Div | <<div>>]].child(div().flex())"));
}

#[test]
fn basic_test_div_with_multiple_children() {
    let out = compile(
        r#"<div>
            {"First"}
            {"Second"}
            {"Third"}
        </div>"#,
    );
    assert_eq!(out, source(r#"[[gpui::Div | <<div>>]].child("First").child("Second").child("Third")"#));
}

#[test]
fn test_nested_divs() {
    let out = compile(
        r#"<div flex>
            <div flex_col>
                <div items_center>
                    {"Deeply nested"}
                </div>
            </div>
        </div>"#,
    );
    let expected = r#"[[gpui::Div | <<div>>.flex()]]
        .child([[gpui::Div | <<div>>.flex_col()]]
            .child([[gpui::Div | <<div>>.items_center()]].child("Deeply nested")))"#;
    assert_eq!(out, source(expected));
}

#[test]
fn test_hover_attribute() {
    assert_eq!(
        compile("<div hover={|s| s.bg(gpui::black())}/>"),
        source("div().hover(|s| s.bg(gpui::black()))")
    );
}

#[test]
fn test_when_attribute() {
    assert_eq!(
        compile("<div when={active, |s| s.border_color(gpui::blue())}/>"),
        source("div().when(active, |s| s.border_color(gpui::blue()))")
    );
}

#[test]
fn test_complex_styling() {
    let out = compile(
        "<div
            flex
            flex_col
            w={px(200.0)}
            border_1
            rounded_md
            cursor_pointer
        />",
    );
    assert_eq!(
        out,
        source("div().flex().flex_col().w(px(200.0)).border_1().rounded_md().cursor_pointer()")
    );
}

#[test]
fn test_text_styling() {
    let out = compile(
        r#"<div
            text_size={px(16.0)}
            font_weight={FontWeight::BOLD}
        >
            {"Styled text"}
        </div>"#,
    );
    assert_eq!(
        out,
        source(r#"[[gpui::Div | <<div>>.text_size(px(16.0)).font_weight(FontWeight::BOLD)]].child("Styled text")"#)
    );
}

#[test]
fn test_expression_as_child() {
    let out = compile(
        "<div>
            {text}
        </div>",
    );
    assert_eq!(out, source("[[gpui::Div | <<div>>]].child(text)"));
}

#[test]
fn test_method_call_as_child() {
    let out = compile(
        r#"<div>
            {format!("Hello, {}!", name)}
        </div>"#,
    );
    assert_eq!(out, source(r#"[[gpui::Div | <<div>>]].child(format!("Hello, {}!", name))"#));
}

#[test]
fn basic_test_deferred() {
    let out = compile(
        "<deferred>
            {element}
        </deferred>",
    );
    assert_eq!(out, source("deferred((element).into_any_element())"));
}

#[test]
fn matching_close_tag_is_accepted() {
    assert_eq!(compile(r#"<Header>{"x"}</Header>"#), source(r#"[[Header | <<Header::new>>]].child("x")"#));
}

#[test]
fn mismatched_close_tag_points_at_the_closing_name() {
    let err = ui(&toks(r#"<div>{"x"}</span>"#)).unwrap_err();
    // The opening name `div` is at 1.
    assert_eq!(err.kind, gpui_markup::ErrorKind::MismatchedClose { open: 1 });
    // `<` 0, `div` 1, `>` 2, the braces 3 and "x" 4, `<` 5, `/` 6, `span` 7.
    assert_eq!(err.span, 7);
}

#[test]
fn unclosed_tag_is_rejected() {
    let err = ui(&toks(r#"<div>{"x"}"#)).unwrap_err();
    assert_eq!(err.kind, gpui_markup::ErrorKind::UnclosedTag);
}

#[test]
fn self_closed_deferred_is_rejected() {
    let err = ui(&toks("<deferred/>")).unwrap_err();
    assert_eq!(err.kind, gpui_markup::ErrorKind::DeferredArity);
}

#[test]
fn deferred_tag_with_two_children_is_rejected() {
    let err = ui(&toks("<deferred>{a}{b}</deferred>")).unwrap_err();
    assert_eq!(err.kind, gpui_markup::ErrorKind::DeferredArity);
    // `<` 0, `deferred` 1, `>` 2, `{a}` 3 and `a` 4, `{b}` 5: the surplus child.
    assert_eq!(err.span, 5);
}

#[test]
fn mismatched_close_of_an_attributed_tag_points_at_the_closing_name() {
    let err = ui(&toks(r#"<Header flex w={x}>{"a"}</Footer>"#)).unwrap_err();
    // `<` 0, `Header` 1, `flex` 2, `w` 3, `=` 4, `{x}` 5 and `x` 6, `>` 7,
    // `{"a"}` 8 and "a" 9, `<` 10, `/` 11, `Footer` 12.
    assert_eq!(err.kind, gpui_markup::ErrorKind::MismatchedClose { open: 1 });
    assert_eq!(err.span, 12);
}

#[test]
fn empty_braces_are_an_empty_child() {
    let err = ui(&toks("<div>{}</div>")).unwrap_err();
    assert_eq!(err.kind, gpui_markup::ErrorKind::EmptyChild);
}

#[test]
fn unknown_tag_is_rejected() {
    let err = ui(&toks("<span/>")).unwrap_err();
    assert_eq!(err.kind, gpui_markup::ErrorKind::UnknownElement);
    assert_eq!(err.span, 1);
}

#[test]
fn equals_without_braces_is_malformed() {
    let err = ui(&toks("<div w=px/>")).unwrap_err();
    assert_eq!(err.kind, gpui_markup::ErrorKind::MalformedAttribute);
}

#[test]
fn tag_child_inside_a_brace_body() {
    assert_eq!(
        compile(r#"div { <div flex/>, "x" }"#),
        source(r#"[[gpui::Div | div()]].child(div().flex()).child("x")"#)
    );
}
