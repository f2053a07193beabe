//! The grammar of the markup language, as spec functions over tokens, and
//! the parser proved to compute exactly what they state.
//!
//! Two surface forms share one syntax tree:
//! - bodies: `div @[flex, w: px(200.0)] { [flex_col] "Content", child }`, where
//!   attributes stand in `@[..]` before the body, in `[..]` at its start, or
//!   both; `Header { .. }` is a component, `deferred { child }` a deferred
//!   element, `Button::new("Hi") { .. }` and `(a + b)` expression elements;
//!   children are `..items` (spread), `.method::<T, U>(x)` (method chain),
//!   nested elements, or expressions, separated by commas
//! - tags: `<div flex w={px(200.0)}>{"Content"} <Header/></div>`, with
//!   `<{expr}> .. </{}>` for an expression tag; children are `{expr}`,
//!   `{..items}`, `{.method()}` or nested tags, and a closing tag must repeat
//!   the opening name
use vstd::prelude::*;
use vstd::string::StrSliceExecFns;
use crate::ast::{
    Attribute, AttributeV, Child, ChildV, ComponentElement, DeferredElement, Element, ElementV,
    ExprElement, Ident, Markup, NativeElement, attrs_view, children_view, close_view, exprs_view,
    lemma_attrs_view_push, lemma_children_view_push, lemma_exprs_view_push,
};
use crate::codegen::{lemma_wf_children_index, lemma_wf_children_push, wf_child, wf_children, wf_element};
use crate::expr::{expr_end, find_expr_end};
use crate::token::{Delim, Tok, TokV, copy_range, toks_view};

verus! {

broadcast use vstd::std_specs::vec::group_vec_axioms, vstd::seq::group_seq_axioms;

/// What went wrong.
#[derive(Clone, Copy, Debug, PartialEq, Eq, Structural)]
pub enum ErrorKind {
    /// A tag that is neither native, deferred, uppercase, nor an expression.
    UnknownElement,
    /// A deferred element with no child or with more than one.
    DeferredArity,
    /// A deferred element whose child is a spread or a method chain.
    DeferredChild,
    /// An attribute that is not an identifier, or a `:` with no value.
    MalformedAttribute,
    /// An element that needs a `{ .. }` body and has none.
    MissingBody,
    /// An empty child slot.
    EmptyChild,
    /// An expression was expected.
    ExpectedExpression,
    /// A token where a comma or the end was expected.
    UnexpectedToken,
    /// A closing tag whose name differs from the opening tag's; `open` is
    /// the span of the opening name.
    MismatchedClose { open: usize },
    /// An opening tag that is never closed.
    UnclosedTag,
}

/// The first error of a parse, at the position of the offending token.
#[derive(Clone, Copy, Debug, PartialEq, Eq, Structural)]
pub struct SyntaxError {
    pub span: usize,
    pub kind: ErrorKind,
}

/// The description of each kind of error.
pub open spec fn message_of(kind: ErrorKind) -> Seq<char> {
    match kind {
        ErrorKind::UnknownElement =>
            "expected element: native element (div, svg, anchored), deferred, component, or expression"@,
        ErrorKind::DeferredArity => "deferred must have exactly one child: `deferred { child }`"@,
        ErrorKind::DeferredChild => "deferred only accepts an element or an expression as its child"@,
        ErrorKind::MalformedAttribute => "expected attribute: `name` or `name: value`"@,
        ErrorKind::MissingBody => "element requires braces: `name { }`"@,
        ErrorKind::EmptyChild => "empty child"@,
        ErrorKind::ExpectedExpression => "expected expression"@,
        ErrorKind::UnexpectedToken => "unexpected token: expected `,` or the end"@,
        ErrorKind::MismatchedClose { .. } => "mismatched closing tag"@,
        ErrorKind::UnclosedTag => "unclosed tag: expected `</name>`"@,
    }
}

impl SyntaxError {
    /// A description of the error.
    pub fn message(&self) -> (r: &'static str)
        ensures
            r@ == message_of(self.kind),
    {
        match self.kind {
            ErrorKind::UnknownElement =>
                "expected element: native element (div, svg, anchored), deferred, component, or expression",
            ErrorKind::DeferredArity => "deferred must have exactly one child: `deferred { child }`",
            ErrorKind::DeferredChild => "deferred only accepts an element or an expression as its child",
            ErrorKind::MalformedAttribute => "expected attribute: `name` or `name: value`",
            ErrorKind::MissingBody => "element requires braces: `name { }`",
            ErrorKind::EmptyChild => "empty child",
            ErrorKind::ExpectedExpression => "expected expression",
            ErrorKind::UnexpectedToken => "unexpected token: expected `,` or the end",
            ErrorKind::MismatchedClose { .. } => "mismatched closing tag",
            ErrorKind::UnclosedTag => "unclosed tag: expected `</name>`",
        }
    }
}

pub open spec fn err<T>(span: usize, kind: ErrorKind) -> Result<T, SyntaxError> {
    Err(SyntaxError { span, kind })
}

pub open spec fn is_punct(t: Tok, c: char) -> bool {
    match t {
        Tok::Punct { ch, .. } => ch == c,
        _ => false,
    }
}

pub open spec fn is_joint(t: Tok) -> bool {
    match t {
        Tok::Punct { joint, .. } => joint,
        _ => false,
    }
}

pub open spec fn is_group(t: Tok, d: Delim) -> bool {
    match t {
        Tok::Group { delim, .. } => delim == d,
        _ => false,
    }
}

pub open spec fn is_ident(t: Tok) -> bool {
    t is Ident
}

pub open spec fn ident_text(t: Tok) -> Seq<char> {
    match t {
        Tok::Ident { text, .. } => text@,
        _ => Seq::empty(),
    }
}

pub open spec fn group_inner(t: Tok) -> Seq<Tok> {
    match t {
        Tok::Group { inner, .. } => inner@,
        _ => Seq::empty(),
    }
}

pub open spec fn is_native_name(n: Seq<char>) -> bool {
    n == "div"@ || n == "svg"@ || n == "anchored"@
}

pub open spec fn is_deferred_name(n: Seq<char>) -> bool {
    n == "deferred"@
}

/// Whether a character has the Unicode `Uppercase` property.
pub uninterp spec fn uppercase(c: char) -> bool;

/// Relies on char::is_uppercase: whether `c` has the Unicode `Uppercase`
/// property, which depends on `c` alone.
#[verifier::external_body]
fn is_uppercase_char(c: char) -> (r: bool)
    ensures
        r == uppercase(c),
{
    c.is_uppercase()
}

/// A name that starts with an uppercase letter.
pub open spec fn is_component_name(n: Seq<char>) -> bool {
    n.len() > 0 && uppercase(n[0])
}

/// An identifier that names an element when a body follows it.
pub open spec fn is_tag_name(n: Seq<char>) -> bool {
    is_deferred_name(n) || is_native_name(n) || is_component_name(n)
}

/// The span of the token at `pos`, or `es` (the end of the enclosing group).
pub open spec fn span_at(s: Seq<Tok>, pos: int, es: usize) -> usize {
    if 0 <= pos < s.len() {
        s[pos].span_of()
    } else {
        es
    }
}

/// A body at `p`: `{ .. }`, or `@[attrs] { .. }`.
pub open spec fn has_body_at(s: Seq<Tok>, p: int) -> bool {
    (0 <= p < s.len() && is_group(s[p], Delim::Brace)) || (0 <= p && p + 2 < s.len() && is_punct(
        s[p],
        '@',
    ) && is_group(s[p + 1], Delim::Bracket) && is_group(s[p + 2], Delim::Brace))
}

/// An identifier at `pos` directly followed by a body.
pub open spec fn tag_with_body(s: Seq<Tok>, pos: int) -> bool {
    0 <= pos && pos + 1 < s.len() && is_ident(s[pos]) && has_body_at(s, pos + 1)
}

/// The expression that starts at `pos`.
pub open spec fn expr_spec(s: Seq<Tok>, pos: int, es: usize) -> Result<(Seq<TokV>, int), SyntaxError> {
    let k = expr_end(s, pos);
    if k <= pos {
        err(span_at(s, pos, es), ErrorKind::ExpectedExpression)
    } else {
        Ok((toks_view(s.subrange(pos, k)), k))
    }
}

/// `::` at `p`: a joint `:` followed by another.
pub open spec fn is_path_sep(a: Seq<Tok>, p: int) -> bool {
    0 <= p && p + 1 < a.len() && is_punct(a[p], ':') && is_joint(a[p]) && is_punct(a[p + 1], ':')
}

/// The attribute that starts at `pos`: `name` or `name: value`. `es` is the
/// span of the enclosing list, reported when it ends after a `:`.
pub open spec fn attr_spec(a: Seq<Tok>, pos: int, es: usize) -> Result<(AttributeV, int), SyntaxError> {
    if !(0 <= pos < a.len()) || !is_ident(a[pos]) {
        err(span_at(a, pos, es), ErrorKind::MalformedAttribute)
    } else if pos + 1 < a.len() && is_punct(a[pos + 1], ':') && !is_path_sep(a, pos + 1) {
        let k = expr_end(a, pos + 2);
        if k <= pos + 2 {
            err(span_at(a, pos + 2, es), ErrorKind::MalformedAttribute)
        } else {
            Ok((AttributeV::KeyValue(ident_text(a[pos]), toks_view(a.subrange(pos + 2, k))), k))
        }
    } else {
        Ok((AttributeV::Flag(ident_text(a[pos])), pos + 1))
    }
}

/// The comma-separated attributes from `pos` to the end (a trailing comma is allowed).
pub open spec fn attrs_spec(a: Seq<Tok>, pos: int, es: usize) -> Result<Seq<AttributeV>, SyntaxError>
    decreases a.len() - pos,
{
    if pos >= a.len() {
        Ok(Seq::empty())
    } else {
        match attr_spec(a, pos, es) {
            Err(e) => Err(e),
            Ok((x, p)) => if p <= pos || p > a.len() {
                err(a[pos].span_of(), ErrorKind::UnexpectedToken)
            } else if p == a.len() {
                Ok(seq![x])
            } else if !is_punct(a[p], ',') {
                err(a[p].span_of(), ErrorKind::UnexpectedToken)
            } else {
                match attrs_spec(a, p + 1, es) {
                    Err(e) => Err(e),
                    Ok(rest) => Ok(seq![x] + rest),
                }
            },
        }
    }
}

/// Where the depth of `<` `>` nesting goes after token `t`.
pub open spec fn step_depth(d: int, t: Tok) -> int {
    if is_punct(t, '<') {
        d + 1
    } else if is_punct(t, '>') {
        if d > 0 {
            d - 1
        } else {
            0
        }
    } else {
        d
    }
}

/// The first comma at or after `j` outside angle brackets (the depth at `j`
/// being `d`), or the end.
pub open spec fn chain_end_from(s: Seq<Tok>, j: int, d: int) -> int
    decreases s.len() - j,
{
    if j >= s.len() {
        s.len() as int
    } else if is_punct(s[j], ',') && d == 0 {
        j
    } else {
        chain_end_from(s, j + 1, step_depth(d, s[j]))
    }
}

/// The end of a method chain whose tokens start at `j`.
pub open spec fn chain_end(s: Seq<Tok>, j: int) -> int {
    chain_end_from(s, j, 0)
}

/// The body at `p`, `{ .. }` or `@[attrs] { .. }`, with the attributes of
/// both places in order, and where it ends.
pub open spec fn full_body_spec(s: Seq<Tok>, p: int, es: usize) -> Result<
    (Seq<AttributeV>, Seq<ChildV>, int),
    SyntaxError,
>
    decreases s, s.len() - p, 0int,
{
    if 0 <= p < s.len() && is_group(s[p], Delim::Brace) {
        match s[p] {
            Tok::Group { inner, span, .. } => match body_spec(inner@, span) {
                Err(e) => Err(e),
                Ok((a, c)) => Ok((a, c, p + 1)),
            },
            _ => err(es, ErrorKind::MissingBody),
        }
    } else if has_body_at(s, p) {
        match attrs_spec(group_inner(s[p + 1]), 0, s[p + 1].span_of()) {
            Err(e) => Err(e),
            Ok(pre) => match s[p + 2] {
                Tok::Group { inner, span, .. } => match body_spec(inner@, span) {
                    Err(e) => Err(e),
                    Ok((a, c)) => Ok((pre + a, c, p + 3)),
                },
                _ => err(es, ErrorKind::MissingBody),
            },
        }
    } else {
        err(span_at(s, p, es), ErrorKind::MissingBody)
    }
}

/// The body `{ [attrs] children }` with contents `b`.
pub open spec fn body_spec(b: Seq<Tok>, es: usize) -> Result<(Seq<AttributeV>, Seq<ChildV>), SyntaxError>
    decreases b, b.len() + 1, 0int,
{
    if b.len() > 0 && is_group(b[0], Delim::Bracket) {
        match attrs_spec(group_inner(b[0]), 0, b[0].span_of()) {
            Err(e) => Err(e),
            Ok(attrs) => match children_spec(b, 1, es) {
                Err(e) => Err(e),
                Ok(cs) => Ok((attrs, cs)),
            },
        }
    } else {
        match children_spec(b, 0, es) {
            Err(e) => Err(e),
            Ok(cs) => Ok((Seq::empty(), cs)),
        }
    }
}

/// The comma-separated children from `pos` to the end (a trailing comma is allowed).
pub open spec fn children_spec(b: Seq<Tok>, pos: int, es: usize) -> Result<Seq<ChildV>, SyntaxError>
    decreases b, b.len() - pos, 3int,
{
    if pos < 0 || pos >= b.len() {
        Ok(Seq::empty())
    } else if is_punct(b[pos], ',') {
        err(b[pos].span_of(), ErrorKind::EmptyChild)
    } else {
        match child_spec(b, pos, es) {
            Err(e) => Err(e),
            Ok((c, p)) => if p <= pos || p > b.len() {
                err(b[pos].span_of(), ErrorKind::UnexpectedToken)
            } else if p == b.len() {
                Ok(seq![c])
            } else if !is_punct(b[p], ',') {
                err(b[p].span_of(), ErrorKind::UnexpectedToken)
            } else {
                match children_spec(b, p + 1, es) {
                    Err(e) => Err(e),
                    Ok(rest) => Ok(seq![c] + rest),
                }
            },
        }
    }
}

/// The child that starts at `pos`.
pub open spec fn child_spec(b: Seq<Tok>, pos: int, es: usize) -> Result<(ChildV, int), SyntaxError>
    decreases b, b.len() - pos, 2int,
{
    if pos < 0 || pos >= b.len() {
        err(es, ErrorKind::EmptyChild)
    } else if is_punct(b[pos], '.') && is_joint(b[pos]) && pos + 1 < b.len() && is_punct(
        b[pos + 1],
        '.',
    ) {
        match expr_spec(b, pos + 2, es) {
            Err(e) => Err(e),
            Ok((x, k)) => Ok((ChildV::Spread(x), k)),
        }
    } else if is_punct(b[pos], '.') {
        let e = chain_end(b, pos + 1);
        if e <= pos + 1 {
            err(b[pos].span_of(), ErrorKind::EmptyChild)
        } else {
            Ok((ChildV::MethodChain(toks_view(b.subrange(pos + 1, e))), e))
        }
    } else if is_punct(b[pos], '<') {
        match tag_element_spec(b, pos, es) {
            Err(e) => Err(e),
            Ok((el, k)) => Ok((ChildV::Element(el), k)),
        }
    } else if tag_with_body(b, pos) && is_tag_name(ident_text(b[pos])) {
        match element_spec(b, pos) {
            Err(e) => Err(e),
            Ok((el, k)) => Ok((ChildV::Element(el), k)),
        }
    } else {
        let k = expr_end(b, pos);
        if k <= pos {
            err(b[pos].span_of(), ErrorKind::ExpectedExpression)
        } else if has_body_at(b, k) {
            match full_body_spec(b, k, es) {
                Err(e) => Err(e),
                Ok((attrs, cs, end)) => Ok(
                    (
                        ChildV::Element(
                            ElementV::Expression(toks_view(b.subrange(pos, k)), attrs, cs),
                        ),
                        end,
                    ),
                ),
            }
        } else {
            Ok((ChildV::Expression(toks_view(b.subrange(pos, k))), k))
        }
    }
}

/// The position after an optional comma at `p`.
pub open spec fn after_comma(s: Seq<Tok>, p: int) -> int {
    if 0 <= p < s.len() && is_punct(s[p], ',') {
        p + 1
    } else {
        p
    }
}

/// The element named by the identifier at `pos`, whose body is at `pos + 1`.
pub open spec fn element_spec(s: Seq<Tok>, pos: int) -> Result<(ElementV, int), SyntaxError>
    decreases s, s.len() - pos, 1int,
{
    if !tag_with_body(s, pos) {
        err(span_at(s, pos, 0), ErrorKind::MissingBody)
    } else {
        let n = ident_text(s[pos]);
        let ns = s[pos].span_of();
        if is_deferred_name(n) {
            match s[pos + 1] {
                Tok::Group { inner, span, .. } => if inner@.len() == 0 {
                    err(ns, ErrorKind::DeferredArity)
                } else {
                    match child_spec(inner@, 0, span) {
                        Err(e) => Err(e),
                        Ok((c, p)) => {
                            let q = after_comma(inner@, p);
                            if p <= 0 || p > inner@.len() {
                                err(ns, ErrorKind::UnexpectedToken)
                            } else if q < inner@.len() {
                                err(inner@[q].span_of(), ErrorKind::DeferredArity)
                            } else if c is Spread || c is MethodChain {
                                err(ns, ErrorKind::DeferredChild)
                            } else {
                                Ok((ElementV::Deferred(n, Box::new(c)), pos + 2))
                            }
                        },
                    }
                },
                _ => err(ns, ErrorKind::MalformedAttribute),
            }
        } else {
            match full_body_spec(s, pos + 1, ns) {
                Err(e) => Err(e),
                Ok((attrs, cs, end)) => if is_native_name(n) {
                    Ok((ElementV::Native(n, None, attrs, cs), end))
                } else {
                    Ok((ElementV::Component(n, None, attrs, cs), end))
                },
            }
        }
    }
}

/// The expression element that starts at `pos`; its body is optional when
/// `need_body` is false.
pub open spec fn expr_element_spec(s: Seq<Tok>, pos: int, need_body: bool) -> Result<
    (ElementV, int),
    SyntaxError,
> {
    let k = expr_end(s, pos);
    if !(0 <= pos < s.len()) || k <= pos {
        err(span_at(s, pos, 0), ErrorKind::ExpectedExpression)
    } else if has_body_at(s, k) {
        match full_body_spec(s, k, s[pos].span_of()) {
            Err(e) => Err(e),
            Ok((attrs, cs, end)) => Ok(
                (ElementV::Expression(toks_view(s.subrange(pos, k)), attrs, cs), end),
            ),
        }
    } else if need_body {
        err(s[pos].span_of(), ErrorKind::MissingBody)
    } else {
        Ok((ElementV::Expression(toks_view(s.subrange(pos, k)), Seq::empty(), Seq::empty()), k))
    }
}

/// The values of a tag attribute `name={a, b}`, separated by commas.
pub open spec fn values_spec(v: Seq<Tok>, q: int, ks: usize) -> Result<Seq<Seq<TokV>>, SyntaxError>
    decreases v.len() - q,
{
    if q < 0 || q >= v.len() {
        Ok(Seq::empty())
    } else {
        let k = expr_end(v, q);
        if k <= q {
            err(ks, ErrorKind::MalformedAttribute)
        } else if k >= v.len() {
            Ok(seq![toks_view(v.subrange(q, k))])
        } else if !is_punct(v[k], ',') {
            err(v[k].span_of(), ErrorKind::UnexpectedToken)
        } else {
            match values_spec(v, k + 1, ks) {
                Err(e) => Err(e),
                Ok(rest) => Ok(seq![toks_view(v.subrange(q, k))] + rest),
            }
        }
    }
}

/// The tag attribute at `p`: `flag`, or `name={value}`, or `name={a, b, ..}`.
pub open spec fn tag_attr_spec(s: Seq<Tok>, p: int) -> Result<(AttributeV, int), SyntaxError> {
    if !(0 <= p < s.len()) || !is_ident(s[p]) {
        err(span_at(s, p, 0), ErrorKind::MalformedAttribute)
    } else if p + 2 < s.len() && is_punct(s[p + 1], '=') && is_group(s[p + 2], Delim::Brace) {
        match values_spec(group_inner(s[p + 2]), 0, s[p].span_of()) {
            Err(e) => Err(e),
            Ok(vs) => if vs.len() == 0 {
                err(s[p].span_of(), ErrorKind::MalformedAttribute)
            } else if vs.len() == 1 {
                Ok((AttributeV::KeyValue(ident_text(s[p]), vs[0]), p + 3))
            } else {
                Ok((AttributeV::KeyMultiValue(ident_text(s[p]), vs), p + 3))
            },
        }
    } else if p + 1 < s.len() && is_punct(s[p + 1], '=') {
        err(s[p].span_of(), ErrorKind::MalformedAttribute)
    } else {
        Ok((AttributeV::Flag(ident_text(s[p])), p + 1))
    }
}

/// The attributes of a tag from `p` up to the first token that is not an
/// identifier, and where they end.
pub open spec fn tag_attrs_spec(s: Seq<Tok>, p: int) -> Result<(Seq<AttributeV>, int), SyntaxError>
    decreases s.len() - p,
{
    if p < 0 || p >= s.len() || !is_ident(s[p]) {
        Ok((Seq::empty(), p))
    } else {
        match tag_attr_spec(s, p) {
            Err(e) => Err(e),
            Ok((a, q)) => if q <= p {
                err(s[p].span_of(), ErrorKind::UnexpectedToken)
            } else {
                match tag_attrs_spec(s, q) {
                    Err(e) => Err(e),
                    Ok((rest, r)) => Ok((seq![a] + rest, r)),
                }
            },
        }
    }
}

/// A child in braces: `{expr}`, `{..expr}` or `{.method()}`.
pub open spec fn brace_child_spec(inner: Seq<Tok>, gs: usize) -> Result<ChildV, SyntaxError> {
    if inner.len() == 0 {
        err(gs, ErrorKind::EmptyChild)
    } else if is_punct(inner[0], '.') && is_joint(inner[0]) && 1 < inner.len() && is_punct(
        inner[1],
        '.',
    ) {
        if inner.len() == 2 {
            err(gs, ErrorKind::ExpectedExpression)
        } else {
            Ok(ChildV::Spread(toks_view(inner.subrange(2, inner.len() as int))))
        }
    } else if is_punct(inner[0], '.') {
        if inner.len() == 1 {
            err(gs, ErrorKind::EmptyChild)
        } else {
            Ok(ChildV::MethodChain(toks_view(inner.subrange(1, inner.len() as int))))
        }
    } else {
        Ok(ChildV::Expression(toks_view(inner)))
    }
}

/// `</` at `q`.
pub open spec fn is_close_start(s: Seq<Tok>, q: int) -> bool {
    0 <= q && q + 1 < s.len() && is_punct(s[q], '<') && is_punct(s[q + 1], '/')
}

/// Whether the name in a closing tag repeats the head of the opening tag:
/// the same identifier, or `{}` after an expression tag.
pub open spec fn close_matches(head: Tok, close: Tok) -> bool {
    if is_ident(head) {
        is_ident(close) && ident_text(close) == ident_text(head)
    } else {
        is_group(close, Delim::Brace)
    }
}

/// The name a closing tag gives: its identifier, or none after `</{}>`.
pub open spec fn close_name_of(t: Tok) -> Option<Seq<char>> {
    if is_ident(t) {
        Some(ident_text(t))
    } else {
        None
    }
}

/// The element a tag head names, with its attributes and children.
pub open spec fn tag_element_of(
    head: Tok,
    close: Option<Seq<char>>,
    attrs: Seq<AttributeV>,
    cs: Seq<ChildV>,
) -> ElementV {
    if is_ident(head) {
        if is_native_name(ident_text(head)) {
            ElementV::Native(ident_text(head), close, attrs, cs)
        } else {
            ElementV::Component(ident_text(head), close, attrs, cs)
        }
    } else {
        ElementV::Expression(toks_view(group_inner(head)), attrs, cs)
    }
}

/// The child of a tag body at `q`: a nested tag or a braced child.
pub open spec fn tag_child_spec(s: Seq<Tok>, q: int, os: usize) -> Result<(ChildV, int), SyntaxError>
    decreases s, s.len() - q, 2int,
{
    if q < 0 || q >= s.len() {
        err(os, ErrorKind::UnclosedTag)
    } else if is_punct(s[q], '<') {
        match tag_element_spec(s, q, os) {
            Err(e) => Err(e),
            Ok((el, k)) => Ok((ChildV::Element(el), k)),
        }
    } else if is_group(s[q], Delim::Brace) {
        match brace_child_spec(group_inner(s[q]), s[q].span_of()) {
            Err(e) => Err(e),
            Ok(c) => Ok((c, q + 1)),
        }
    } else {
        err(s[q].span_of(), ErrorKind::UnexpectedToken)
    }
}

/// The children of a tag body from `q` up to its closing `</`, and where
/// that closing tag starts. `os` is the span of the opening tag.
pub open spec fn tag_children_spec(s: Seq<Tok>, q: int, os: usize) -> Result<
    (Seq<ChildV>, int),
    SyntaxError,
>
    decreases s, s.len() - q, 3int,
{
    if q < 0 || q >= s.len() {
        err(os, ErrorKind::UnclosedTag)
    } else if is_close_start(s, q) {
        Ok((Seq::empty(), q))
    } else {
        match tag_child_spec(s, q, os) {
            Err(e) => Err(e),
            Ok((c, p)) => if p <= q || p > s.len() {
                err(s[q].span_of(), ErrorKind::UnexpectedToken)
            } else {
                match tag_children_spec(s, p, os) {
                    Err(e) => Err(e),
                    Ok((rest, r)) => Ok((seq![c] + rest, r)),
                }
            },
        }
    }
}

/// The tag element that starts with `<` at `pos`: `<name attrs/>`, or
/// `<name attrs> children </name>`, where the name is an identifier or an
/// expression in braces (closed by `</{}>`).
pub open spec fn tag_element_spec(s: Seq<Tok>, pos: int, es: usize) -> Result<
    (ElementV, int),
    SyntaxError,
>
    decreases s, s.len() - pos, 1int,
{
    if !(0 <= pos && pos + 1 < s.len()) || !is_punct(s[pos], '<') {
        err(span_at(s, pos, es), ErrorKind::UnknownElement)
    } else {
        let os = s[pos].span_of();
        let h = s[pos + 1];
        let hs = h.span_of();
        let deferred = is_ident(h) && is_deferred_name(ident_text(h));
        if !(is_ident(h) || is_group(h, Delim::Brace)) || (is_ident(h) && !is_tag_name(
            ident_text(h),
        )) {
            err(hs, ErrorKind::UnknownElement)
        } else if is_group(h, Delim::Brace) && group_inner(h).len() == 0 {
            err(hs, ErrorKind::ExpectedExpression)
        } else {
            match tag_attrs_spec(s, pos + 2) {
                Err(e) => Err(e),
                Ok((attrs, p)) => if p < pos + 2 || p > s.len() {
                    err(hs, ErrorKind::UnexpectedToken)
                } else if deferred && attrs.len() > 0 {
                    err(hs, ErrorKind::MalformedAttribute)
                } else if p + 1 < s.len() && is_punct(s[p], '/') && is_punct(s[p + 1], '>') {
                    if deferred {
                        err(hs, ErrorKind::DeferredArity)
                    } else {
                        Ok((tag_element_of(h, None, attrs, Seq::empty()), p + 2))
                    }
                } else if p < s.len() && is_punct(s[p], '>') {
                    match tag_children_spec(s, p + 1, os) {
                        Err(e) => Err(e),
                        Ok((cs, q)) => if q <= p || q + 2 >= s.len() || !close_matches(
                            h,
                            s[q + 2],
                        ) {
                            err(span_at(s, q + 2, os), ErrorKind::MismatchedClose { open: hs })
                        } else if q + 3 >= s.len() || !is_punct(s[q + 3], '>') {
                            err(span_at(s, q + 3, os), ErrorKind::UnclosedTag)
                        } else if deferred {
                            if cs.len() == 0 {
                                err(hs, ErrorKind::DeferredArity)
                            } else if cs.len() > 1 {
                                match tag_child_spec(s, p + 1, os) {
                                    Ok((_, k)) => err(span_at(s, k, os), ErrorKind::DeferredArity),
                                    Err(_) => err(hs, ErrorKind::DeferredArity),
                                }
                            } else if cs[0] is Spread || cs[0] is MethodChain {
                                err(hs, ErrorKind::DeferredChild)
                            } else {
                                Ok((ElementV::Deferred(ident_text(h), Box::new(cs[0])), q + 4))
                            }
                        } else {
                            Ok((tag_element_of(h, close_name_of(s[q + 2]), attrs, cs), q + 4))
                        },
                    }
                } else {
                    err(span_at(s, p, os), ErrorKind::UnexpectedToken)
                },
            }
        }
    }
}

/// The root element that starts the input, before the check that nothing follows it.
pub open spec fn root_spec(s: Seq<Tok>, es: usize) -> Result<(ElementV, int), SyntaxError> {
    if s.len() == 0 {
        err(es, ErrorKind::UnknownElement)
    } else if is_punct(s[0], '<') {
        tag_element_spec(s, 0, es)
    } else if tag_with_body(s, 0) {
        if is_tag_name(ident_text(s[0])) {
            element_spec(s, 0)
        } else {
            err(s[0].span_of(), ErrorKind::UnknownElement)
        }
    } else if is_ident(s[0]) {
        expr_element_spec(s, 0, true)
    } else if is_group(s[0], Delim::Paren) {
        expr_element_spec(s, 0, false)
    } else {
        err(s[0].span_of(), ErrorKind::UnknownElement)
    }
}

/// What parsing the whole input gives: one element and nothing after it.
/// `es` is the span reported for an input that ends too early.
#[verifier::opaque]
pub open spec fn markup_spec(s: Seq<Tok>, es: usize) -> Result<ElementV, SyntaxError> {
    match root_spec(s, es) {
        Err(e) => Err(e),
        Ok((el, p)) => if p < s.len() {
            err(span_at(s, p, es), ErrorKind::UnexpectedToken)
        } else {
            Ok(el)
        },
    }
}


pub open spec fn expr_res(
    r: Result<(Vec<Tok>, usize), SyntaxError>,
    sp: Result<(Seq<TokV>, int), SyntaxError>,
) -> bool {
    match r {
        Ok((x, p)) => sp == Ok::<(Seq<TokV>, int), SyntaxError>((toks_view(x@), p as int)),
        Err(e) => sp == Err::<(Seq<TokV>, int), SyntaxError>(e),
    }
}

pub open spec fn attr_res(
    r: Result<(Attribute, usize), SyntaxError>,
    sp: Result<(AttributeV, int), SyntaxError>,
) -> bool {
    match r {
        Ok((x, p)) => sp == Ok::<(AttributeV, int), SyntaxError>((x.view(), p as int)),
        Err(e) => sp == Err::<(AttributeV, int), SyntaxError>(e),
    }
}

pub open spec fn attrs_res(
    r: Result<Vec<Attribute>, SyntaxError>,
    sp: Result<Seq<AttributeV>, SyntaxError>,
) -> bool {
    match r {
        Ok(v) => sp == Ok::<Seq<AttributeV>, SyntaxError>(attrs_view(v@)),
        Err(e) => sp == Err::<Seq<AttributeV>, SyntaxError>(e),
    }
}

pub open spec fn children_res(
    r: Result<Vec<Child>, SyntaxError>,
    sp: Result<Seq<ChildV>, SyntaxError>,
) -> bool {
    match r {
        Ok(v) => sp == Ok::<Seq<ChildV>, SyntaxError>(children_view(v@)),
        Err(e) => sp == Err::<Seq<ChildV>, SyntaxError>(e),
    }
}

pub open spec fn body_res(
    r: Result<(Vec<Attribute>, Vec<Child>), SyntaxError>,
    sp: Result<(Seq<AttributeV>, Seq<ChildV>), SyntaxError>,
) -> bool {
    match r {
        Ok((a, c)) => sp == Ok::<(Seq<AttributeV>, Seq<ChildV>), SyntaxError>(
            (attrs_view(a@), children_view(c@)),
        ),
        Err(e) => sp == Err::<(Seq<AttributeV>, Seq<ChildV>), SyntaxError>(e),
    }
}

pub open spec fn child_res(
    r: Result<(Child, usize), SyntaxError>,
    sp: Result<(ChildV, int), SyntaxError>,
) -> bool {
    match r {
        Ok((x, p)) => sp == Ok::<(ChildV, int), SyntaxError>((x.view(), p as int)),
        Err(e) => sp == Err::<(ChildV, int), SyntaxError>(e),
    }
}

pub open spec fn element_res(
    r: Result<(Element, usize), SyntaxError>,
    sp: Result<(ElementV, int), SyntaxError>,
) -> bool {
    match r {
        Ok((x, p)) => sp == Ok::<(ElementV, int), SyntaxError>((x.view(), p as int)),
        Err(e) => sp == Err::<(ElementV, int), SyntaxError>(e),
    }
}

fn punct_is(t: &Tok, c: char) -> (r: bool)
    ensures
        r == is_punct(*t, c),
{
    match t {
        Tok::Punct { ch, .. } => *ch == c,
        _ => false,
    }
}

fn joint_is(t: &Tok) -> (r: bool)
    ensures
        r == is_joint(*t),
{
    match t {
        Tok::Punct { joint, .. } => *joint,
        _ => false,
    }
}

fn group_is(t: &Tok, d: Delim) -> (r: bool)
    ensures
        r == is_group(*t, d),
{
    match t {
        Tok::Group { delim, .. } => *delim == d,
        _ => false,
    }
}

fn ident_is(t: &Tok) -> (r: bool)
    ensures
        r == is_ident(*t),
{
    match t {
        Tok::Ident { .. } => true,
        _ => false,
    }
}

/// Whether `t` spells the word `w`.
pub(crate) fn text_is(t: &String, w: &str) -> (r: bool)
    ensures
        r == (t@ == w@),
{
    let s = t.as_str();
    let n = s.unicode_len();
    let m = w.unicode_len();
    if n != m {
        return false;
    }
    let mut i: usize = 0;
    while i < n
        invariant
            n == s@.len() == w@.len(),
            s@ == t@,
            i <= n,
            forall|j: int| 0 <= j < i ==> s@[j] == w@[j],
        decreases n - i,
    {
        if s.get_char(i) != w.get_char(i) {
            return false;
        }
        i = i + 1;
    }
    proof {
        assert(s@ =~= w@);
    }
    true
}

fn tag_name_is(t: &Tok) -> (r: bool)
    requires
        is_ident(*t),
    ensures
        r == is_tag_name(ident_text(*t)),
{
    match t {
        Tok::Ident { text, .. } => {
            if text_is(text, "deferred") || text_is(text, "div") || text_is(text, "svg") || text_is(
                text,
                "anchored",
            ) {
                return true;
            }
            let s = text.as_str();
            s.unicode_len() > 0 && is_uppercase_char(s.get_char(0))
        },
        _ => false,
    }
}

fn has_body(s: &Vec<Tok>, p: usize) -> (r: bool)
    ensures
        r == has_body_at(s@, p as int),
{
    let n = s.len();
    (p < n && group_is(&s[p], Delim::Brace)) || (n > 2 && p < n - 2 && punct_is(&s[p], '@')
        && group_is(&s[p + 1], Delim::Bracket) && group_is(&s[p + 2], Delim::Brace))
}

fn has_tag_with_body(s: &Vec<Tok>, pos: usize) -> (r: bool)
    ensures
        r == tag_with_body(s@, pos as int),
{
    pos < s.len() && pos < s.len() - 1 && ident_is(&s[pos]) && has_body(s, pos + 1)
}

fn ident_of(t: &Tok) -> (r: Ident)
    requires
        is_ident(*t),
    ensures
        r.text@ == ident_text(*t),
        r.span == t.span_of(),
{
    match t {
        Tok::Ident { text, span } => Ident { text: text.clone(), span: *span },
        _ => Ident { text: String::new(), span: 0 },
    }
}

fn span_of_at(s: &Vec<Tok>, pos: usize, es: usize) -> (r: usize)
    ensures
        r == span_at(s@, pos as int, es),
{
    if pos < s.len() {
        s[pos].span()
    } else {
        es
    }
}

fn parse_expr(s: &Vec<Tok>, pos: usize, es: usize) -> (r: Result<(Vec<Tok>, usize), SyntaxError>)
    requires
        pos <= s@.len(),
    ensures
        expr_res(r, expr_spec(s@, pos as int, es)),
        r matches Ok((_, k)) ==> pos < k <= s@.len(),
{
    let k = find_expr_end(s, pos);
    if k <= pos {
        Err(SyntaxError { span: span_of_at(s, pos, es), kind: ErrorKind::ExpectedExpression })
    } else {
        Ok((copy_range(s, pos, k), k))
    }
}

fn parse_attr(a: &Vec<Tok>, pos: usize, es: usize) -> (r: Result<(Attribute, usize), SyntaxError>)
    requires
        pos < a@.len(),
    ensures
        attr_res(r, attr_spec(a@, pos as int, es)),
{
    if !ident_is(&a[pos]) {
        return Err(SyntaxError { span: a[pos].span(), kind: ErrorKind::MalformedAttribute });
    }
    let key = ident_of(&a[pos]);
    let n = a.len();
    let path_sep = n > 2 && pos < n - 2 && punct_is(&a[pos + 1], ':') && joint_is(&a[pos + 1]) && punct_is(
        &a[pos + 2],
        ':',
    );
    if pos < n - 1 && punct_is(&a[pos + 1], ':') && !path_sep {
        let k = find_expr_end(a, pos + 2);
        if k <= pos + 2 {
            Err(SyntaxError { span: span_of_at(a, pos + 2, es), kind: ErrorKind::MalformedAttribute })
        } else {
            let value = copy_range(a, pos + 2, k);
            Ok((Attribute::KeyValue { key, value }, k))
        }
    } else {
        Ok((Attribute::Flag(key), pos + 1))
    }
}

pub open spec fn then_attrs(acc: Seq<AttributeV>, r: Result<Seq<AttributeV>, SyntaxError>) -> Result<
    Seq<AttributeV>,
    SyntaxError,
> {
    match r {
        Ok(rest) => Ok(acc + rest),
        Err(e) => Err(e),
    }
}

pub open spec fn then_children(acc: Seq<ChildV>, r: Result<Seq<ChildV>, SyntaxError>) -> Result<
    Seq<ChildV>,
    SyntaxError,
> {
    match r {
        Ok(rest) => Ok(acc + rest),
        Err(e) => Err(e),
    }
}

fn parse_attrs(a: &Vec<Tok>, es: usize) -> (r: Result<Vec<Attribute>, SyntaxError>)
    ensures
        attrs_res(r, attrs_spec(a@, 0, es)),
{
    let mut v: Vec<Attribute> = Vec::new();
    let mut pos: usize = 0;
    proof {
        assert(attrs_view(v@) =~= Seq::<AttributeV>::empty());
        assert(then_attrs(attrs_view(v@), attrs_spec(a@, 0, es)) =~= attrs_spec(a@, 0, es)) by {
            match attrs_spec(a@, 0, es) {
                Ok(rest) => {
                    assert(attrs_view(v@) + rest =~= rest);
                },
                Err(e) => {},
            }
        }
    }
    loop
        invariant
            pos <= a@.len(),
            attrs_spec(a@, 0, es) == then_attrs(attrs_view(v@), attrs_spec(a@, pos as int, es)),
        decreases a@.len() - pos,
    {
        if pos >= a.len() {
            proof {
                assert(attrs_view(v@) + Seq::<AttributeV>::empty() =~= attrs_view(v@));
            }
            return Ok(v);
        }
        match parse_attr(a, pos, es) {
            Err(e) => {
                return Err(e);
            },
            Ok((x, p)) => {
                if p <= pos || p > a.len() {
                    return Err(SyntaxError { span: a[pos].span(), kind: ErrorKind::UnexpectedToken });
                }
                let ghost acc = attrs_view(v@);
                proof {
                    lemma_attrs_view_push(v@, x);
                }
                if p == a.len() {
                    v.push(x);
                    proof {
                        assert(acc + seq![x.view()] =~= acc.push(x.view()));
                    }
                    return Ok(v);
                }
                if !punct_is(&a[p], ',') {
                    return Err(SyntaxError { span: a[p].span(), kind: ErrorKind::UnexpectedToken });
                }
                v.push(x);
                proof {
                    match attrs_spec(a@, p + 1, es) {
                        Ok(rest) => {
                            assert(acc + (seq![x.view()] + rest) =~= acc.push(x.view()) + rest);
                        },
                        Err(e) => {},
                    }
                }
                pos = p + 1;
            },
        }
    }
}

/// Where a method chain that starts at `j` ends: the first comma outside
/// angle brackets, so that `.map::<A, B>(f)` stays whole.
fn find_chain_end(s: &Vec<Tok>, j: usize) -> (r: usize)
    requires
        j <= s@.len(),
    ensures
        r == chain_end(s@, j as int),
        j <= r <= s@.len(),
{
    let mut i: usize = j;
    let mut d: usize = 0;
    while i < s.len()
        invariant
            j <= i <= s@.len(),
            d <= i - j,
            chain_end(s@, j as int) == chain_end_from(s@, i as int, d as int),
        decreases s@.len() - i,
    {
        if punct_is(&s[i], ',') && d == 0 {
            return i;
        }
        if punct_is(&s[i], '<') {
            d = d + 1;
        } else if punct_is(&s[i], '>') {
            if d > 0 {
                d = d - 1;
            }
        }
        i = i + 1;
    }
    s.len()
}

fn parse_full_body(s: &Vec<Tok>, p: usize, es: usize) -> (r: Result<
    (Vec<Attribute>, Vec<Child>, usize),
    SyntaxError,
>)
    ensures
        match r {
            Ok((a, c, e)) => full_body_spec(s@, p as int, es) == Ok::<
                (Seq<AttributeV>, Seq<ChildV>, int),
                SyntaxError,
            >((attrs_view(a@), children_view(c@), e as int)),
            Err(e) => full_body_spec(s@, p as int, es) == Err::<
                (Seq<AttributeV>, Seq<ChildV>, int),
                SyntaxError,
            >(e),
        },
        r matches Ok((_, c, _)) ==> wf_children(children_view(c@)),
    decreases s, s@.len() - p, 0int,
{
    let n = s.len();
    proof {
        assert(decreases_to!(s => s@));
    }
    if p < n && group_is(&s[p], Delim::Brace) {
        proof {
            assert(decreases_to!(s@ => s@[p as int]));
        }
        match &s[p] {
            Tok::Group { inner, span, .. } => match parse_body(inner, *span) {
                Err(e) => Err(e),
                Ok((a, c)) => Ok((a, c, p + 1)),
            },
            _ => Err(SyntaxError { span: es, kind: ErrorKind::MissingBody }),
        }
    } else if has_body(s, p) {
        let pre = match &s[p + 1] {
            Tok::Group { inner, span, .. } => parse_attrs(inner, *span),
            _ => Ok(Vec::new()),
        };
        match pre {
            Err(e) => Err(e),
            Ok(pre) => {
                proof {
                    assert(decreases_to!(s@ => s@[p + 2]));
                }
                match &s[p + 2] {
                    Tok::Group { inner, span, .. } => match parse_body(inner, *span) {
                        Err(e) => Err(e),
                        Ok((a, c)) => {
                            let mut all = pre;
                            let mut a = a;
                            let ghost pv = all@;
                            let ghost av = a@;
                            all.append(&mut a);
                            proof {
                                crate::ast::lemma_attrs_view_add(pv, av);
                            }
                            Ok((all, c, p + 3))
                        },
                    },
                    _ => Err(SyntaxError { span: es, kind: ErrorKind::MissingBody }),
                }
            },
        }
    } else {
        Err(SyntaxError { span: span_of_at(s, p, es), kind: ErrorKind::MissingBody })
    }
}

fn parse_body(b: &Vec<Tok>, es: usize) -> (r: Result<(Vec<Attribute>, Vec<Child>), SyntaxError>)
    ensures
        body_res(r, body_spec(b@, es)),
        r matches Ok((_, c)) ==> wf_children(children_view(c@)),
    decreases b, b@.len() + 1, 0int,
{
    if b.len() > 0 && group_is(&b[0], Delim::Bracket) {
        let attrs = match &b[0] {
            Tok::Group { inner, span, .. } => match parse_attrs(inner, *span) {
                Err(e) => {
                    return Err(e);
                },
                Ok(v) => v,
            },
            _ => Vec::new(),
        };
        match parse_children(b, 1, es) {
            Err(e) => Err(e),
            Ok(cs) => Ok((attrs, cs)),
        }
    } else {
        match parse_children(b, 0, es) {
            Err(e) => Err(e),
            Ok(cs) => {
                let attrs: Vec<Attribute> = Vec::new();
                proof {
                    assert(attrs_view(attrs@) =~= Seq::<AttributeV>::empty());
                }
                Ok((attrs, cs))
            },
        }
    }
}

fn parse_children(b: &Vec<Tok>, start: usize, es: usize) -> (r: Result<Vec<Child>, SyntaxError>)
    requires
        start <= b@.len(),
    ensures
        children_res(r, children_spec(b@, start as int, es)),
        r matches Ok(v) ==> wf_children(children_view(v@)),
    decreases b, b@.len() - start, 3int,
{
    let mut v: Vec<Child> = Vec::new();
    let mut pos: usize = start;
    proof {
        assert(children_view(v@) =~= Seq::<ChildV>::empty());
        assert(then_children(children_view(v@), children_spec(b@, start as int, es))
            =~= children_spec(b@, start as int, es)) by {
            match children_spec(b@, start as int, es) {
                Ok(rest) => {
                    assert(children_view(v@) + rest =~= rest);
                },
                Err(e) => {},
            }
        }
    }
    loop
        invariant
            start <= pos <= b@.len(),
            wf_children(children_view(v@)),
            children_spec(b@, start as int, es) == then_children(
                children_view(v@),
                children_spec(b@, pos as int, es),
            ),
        decreases b@.len() - pos,
    {
        if pos >= b.len() {
            proof {
                assert(children_view(v@) + Seq::<ChildV>::empty() =~= children_view(v@));
            }
            return Ok(v);
        }
        if punct_is(&b[pos], ',') {
            return Err(SyntaxError { span: b[pos].span(), kind: ErrorKind::EmptyChild });
        }
        match parse_child(b, pos, es) {
            Err(e) => {
                return Err(e);
            },
            Ok((x, p)) => {
                if p <= pos || p > b.len() {
                    return Err(SyntaxError { span: b[pos].span(), kind: ErrorKind::UnexpectedToken });
                }
                let ghost acc = children_view(v@);
                proof {
                    lemma_children_view_push(v@, x);
                    lemma_wf_children_push(children_view(v@), x.view());
                }
                if p == b.len() {
                    v.push(x);
                    proof {
                        assert(acc + seq![x.view()] =~= acc.push(x.view()));
                    }
                    return Ok(v);
                }
                if !punct_is(&b[p], ',') {
                    return Err(SyntaxError { span: b[p].span(), kind: ErrorKind::UnexpectedToken });
                }
                v.push(x);
                proof {
                    match children_spec(b@, p + 1, es) {
                        Ok(rest) => {
                            assert(acc + (seq![x.view()] + rest) =~= acc.push(x.view()) + rest);
                        },
                        Err(e) => {},
                    }
                }
                pos = p + 1;
            },
        }
    }
}

fn parse_child(b: &Vec<Tok>, pos: usize, es: usize) -> (r: Result<(Child, usize), SyntaxError>)
    requires
        pos < b@.len(),
    ensures
        child_res(r, child_spec(b@, pos as int, es)),
        r matches Ok((c, _)) ==> wf_child(c.view()),
    decreases b, b@.len() - pos, 2int,
{
    let n = b.len();
    if punct_is(&b[pos], '.') && joint_is(&b[pos]) && pos < n - 1 && punct_is(
        &b[pos + 1],
        '.',
    ) {
        match parse_expr(b, pos + 2, es) {
            Err(e) => Err(e),
            Ok((x, k)) => Ok((Child::Spread(x), k)),
        }
    } else if punct_is(&b[pos], '.') {
        let e = find_chain_end(b, pos + 1);
        if e <= pos + 1 {
            Err(SyntaxError { span: b[pos].span(), kind: ErrorKind::EmptyChild })
        } else {
            Ok((Child::MethodChain(copy_range(b, pos + 1, e)), e))
        }
    } else if punct_is(&b[pos], '<') {
        match parse_tag_element(b, pos, es) {
            Err(e) => Err(e),
            Ok((el, k)) => Ok((Child::Element(el), k)),
        }
    } else if has_tag_with_body(b, pos) && tag_name_is(&b[pos]) {
        match parse_element(b, pos) {
            Err(e) => Err(e),
            Ok((el, k)) => Ok((Child::Element(el), k)),
        }
    } else {
        let k = find_expr_end(b, pos);
        if k <= pos {
            Err(SyntaxError { span: b[pos].span(), kind: ErrorKind::ExpectedExpression })
        } else if has_body(b, k) {
            match parse_full_body(b, k, es) {
                Err(e) => Err(e),
                Ok((attributes, children, end)) => {
                    let expr = copy_range(b, pos, k);
                    Ok(
                        (
                            Child::Element(
                                Element::Expression(ExprElement { expr, attributes, children }),
                            ),
                            end,
                        ),
                    )
                },
            }
        } else {
            Ok((Child::Expression(copy_range(b, pos, k)), k))
        }
    }
}

fn parse_element(s: &Vec<Tok>, pos: usize) -> (r: Result<(Element, usize), SyntaxError>)
    ensures
        element_res(r, element_spec(s@, pos as int)),
        r matches Ok((e, _)) ==> wf_element(e.view()),
    decreases s, s@.len() - pos, 1int,
{
    let n = s.len();
    if !has_tag_with_body(s, pos) {
        return Err(SyntaxError { span: span_of_at(s, pos, 0), kind: ErrorKind::MissingBody });
    }
    let name = ident_of(&s[pos]);
    proof {
        assert(decreases_to!(s => s@));
        assert(decreases_to!(s@ => s@[pos + 1]));
    }
    if text_is(&name.text, "deferred") {
        match &s[pos + 1] {
            Tok::Group { inner, span, .. } => {
                let m = inner.len();
                if m == 0 {
                    return Err(SyntaxError { span: name.span, kind: ErrorKind::DeferredArity });
                }
                match parse_child(inner, 0, *span) {
                    Err(e) => Err(e),
                    Ok((child, p)) => {
                        if p == 0 || p > m {
                            return Err(
                                SyntaxError { span: name.span, kind: ErrorKind::UnexpectedToken },
                            );
                        }
                        let q = if p < m && punct_is(&inner[p], ',') {
                            p + 1
                        } else {
                            p
                        };
                        if q < m {
                            return Err(
                                SyntaxError { span: inner[q].span(), kind: ErrorKind::DeferredArity },
                            );
                        }
                        match child {
                            Child::Spread(_) | Child::MethodChain(_) => Err(
                                SyntaxError { span: name.span, kind: ErrorKind::DeferredChild },
                            ),
                            _ => Ok(
                                (
                                    Element::Deferred(
                                        DeferredElement { open_name: name, child: Box::new(child) },
                                    ),
                                    pos + 2,
                                ),
                            ),
                        }
                    },
                }
            },
            _ => Err(SyntaxError { span: name.span, kind: ErrorKind::MalformedAttribute }),
        }
    } else {
        match parse_full_body(s, pos + 1, name.span) {
            Err(e) => Err(e),
            Ok((attributes, children, end)) => {
                if text_is(&name.text, "div") || text_is(&name.text, "svg") || text_is(
                    &name.text,
                    "anchored",
                ) {
                    Ok(
                        (
                            Element::Native(
                                NativeElement { open_name: name, close_name: None, attributes, children },
                            ),
                            end,
                        ),
                    )
                } else {
                    Ok(
                        (
                            Element::Component(
                                ComponentElement {
                                    open_name: name,
                                    close_name: None,
                                    attributes,
                                    children,
                                },
                            ),
                            end,
                        ),
                    )
                }
            },
        }
    }
}

fn parse_expr_element(s: &Vec<Tok>, pos: usize, need_body: bool) -> (r: Result<
    (Element, usize),
    SyntaxError,
>)
    requires
        pos <= s@.len(),
    ensures
        element_res(r, expr_element_spec(s@, pos as int, need_body)),
        r matches Ok((e, _)) ==> wf_element(e.view()),
{
    let k = find_expr_end(s, pos);
    if pos >= s.len() || k <= pos {
        return Err(
            SyntaxError { span: span_of_at(s, pos, 0), kind: ErrorKind::ExpectedExpression },
        );
    }
    if has_body(s, k) {
        match parse_full_body(s, k, s[pos].span()) {
            Err(e) => Err(e),
            Ok((attributes, children, end)) => {
                let expr = copy_range(s, pos, k);
                Ok((Element::Expression(ExprElement { expr, attributes, children }), end))
            },
        }
    } else if need_body {
        Err(SyntaxError { span: s[pos].span(), kind: ErrorKind::MissingBody })
    } else {
        let expr = copy_range(s, pos, k);
        let attributes: Vec<Attribute> = Vec::new();
        let children: Vec<Child> = Vec::new();
        proof {
            assert(attrs_view(attributes@) =~= Seq::<AttributeV>::empty());
            assert(children_view(children@) =~= Seq::<ChildV>::empty());
        }
        Ok((Element::Expression(ExprElement { expr, attributes, children }), k))
    }
}

pub open spec fn values_res(
    r: Result<Vec<Vec<Tok>>, SyntaxError>,
    sp: Result<Seq<Seq<TokV>>, SyntaxError>,
) -> bool {
    match r {
        Ok(v) => sp == Ok::<Seq<Seq<TokV>>, SyntaxError>(exprs_view(v@)),
        Err(e) => sp == Err::<Seq<Seq<TokV>>, SyntaxError>(e),
    }
}

pub open spec fn then_values(acc: Seq<Seq<TokV>>, r: Result<Seq<Seq<TokV>>, SyntaxError>) -> Result<
    Seq<Seq<TokV>>,
    SyntaxError,
> {
    match r {
        Ok(rest) => Ok(acc + rest),
        Err(e) => Err(e),
    }
}

fn parse_values(v: &Vec<Tok>, ks: usize) -> (r: Result<Vec<Vec<Tok>>, SyntaxError>)
    ensures
        values_res(r, values_spec(v@, 0, ks)),
{
    let mut out: Vec<Vec<Tok>> = Vec::new();
    let mut q: usize = 0;
    proof {
        assert(exprs_view(out@) =~= Seq::<Seq<TokV>>::empty());
        assert(then_values(exprs_view(out@), values_spec(v@, 0, ks)) =~= values_spec(v@, 0, ks))
            by {
            match values_spec(v@, 0, ks) {
                Ok(rest) => {
                    assert(exprs_view(out@) + rest =~= rest);
                },
                Err(e) => {},
            }
        }
    }
    loop
        invariant
            q <= v@.len(),
            values_spec(v@, 0, ks) == then_values(exprs_view(out@), values_spec(v@, q as int, ks)),
        decreases v@.len() - q,
    {
        if q >= v.len() {
            proof {
                assert(exprs_view(out@) + Seq::<Seq<TokV>>::empty() =~= exprs_view(out@));
            }
            return Ok(out);
        }
        let k = find_expr_end(v, q);
        if k <= q {
            return Err(SyntaxError { span: ks, kind: ErrorKind::MalformedAttribute });
        }
        let x = copy_range(v, q, k);
        let ghost acc = exprs_view(out@);
        proof {
            lemma_exprs_view_push(out@, x);
        }
        if k >= v.len() {
            out.push(x);
            proof {
                assert(acc + seq![toks_view(x@)] =~= acc.push(toks_view(x@)));
            }
            return Ok(out);
        }
        if !punct_is(&v[k], ',') {
            return Err(SyntaxError { span: v[k].span(), kind: ErrorKind::UnexpectedToken });
        }
        out.push(x);
        proof {
            match values_spec(v@, k + 1, ks) {
                Ok(rest) => {
                    assert(acc + (seq![toks_view(x@)] + rest) =~= acc.push(toks_view(x@)) + rest);
                },
                Err(e) => {},
            }
        }
        q = k + 1;
    }
}

fn parse_tag_attr(s: &Vec<Tok>, p: usize) -> (r: Result<(Attribute, usize), SyntaxError>)
    requires
        p < s@.len(),
    ensures
        attr_res(r, tag_attr_spec(s@, p as int)),
{
    let n = s.len();
    if !ident_is(&s[p]) {
        return Err(SyntaxError { span: s[p].span(), kind: ErrorKind::MalformedAttribute });
    }
    let key = ident_of(&s[p]);
    if n > 2 && p < n - 2 && punct_is(&s[p + 1], '=') && group_is(&s[p + 2], Delim::Brace) {
        let values = match &s[p + 2] {
            Tok::Group { inner, .. } => parse_values(inner, key.span),
            _ => Ok(Vec::new()),
        };
        match values {
            Err(e) => Err(e),
            Ok(vs) => {
                proof {
                    crate::ast::lemma_exprs_view(vs@);
                }
                if vs.len() == 0 {
                    Err(SyntaxError { span: key.span, kind: ErrorKind::MalformedAttribute })
                } else if vs.len() == 1 {
                    let mut vs = vs;
                    let value = vs.pop().unwrap();
                    Ok((Attribute::KeyValue { key, value }, p + 3))
                } else {
                    Ok((Attribute::KeyMultiValue { key, values: vs }, p + 3))
                }
            },
        }
    } else if p < n - 1 && punct_is(&s[p + 1], '=') {
        Err(SyntaxError { span: key.span, kind: ErrorKind::MalformedAttribute })
    } else {
        Ok((Attribute::Flag(key), p + 1))
    }
}

pub open spec fn then_tag_attrs(
    acc: Seq<AttributeV>,
    r: Result<(Seq<AttributeV>, int), SyntaxError>,
) -> Result<(Seq<AttributeV>, int), SyntaxError> {
    match r {
        Ok((rest, e)) => Ok((acc + rest, e)),
        Err(e) => Err(e),
    }
}

fn parse_tag_attrs(s: &Vec<Tok>, start: usize) -> (r: Result<(Vec<Attribute>, usize), SyntaxError>)
    requires
        start <= s@.len(),
    ensures
        match r {
            Ok((v, e)) => tag_attrs_spec(s@, start as int) == Ok::<
                (Seq<AttributeV>, int),
                SyntaxError,
            >((attrs_view(v@), e as int)),
            Err(e) => tag_attrs_spec(s@, start as int) == Err::<(Seq<AttributeV>, int), SyntaxError>(
                e,
            ),
        },
{
    let mut v: Vec<Attribute> = Vec::new();
    let mut p: usize = start;
    proof {
        assert(attrs_view(v@) =~= Seq::<AttributeV>::empty());
        assert(then_tag_attrs(attrs_view(v@), tag_attrs_spec(s@, start as int)) =~= tag_attrs_spec(
            s@,
            start as int,
        )) by {
            match tag_attrs_spec(s@, start as int) {
                Ok((rest, e)) => {
                    assert(attrs_view(v@) + rest =~= rest);
                },
                Err(e) => {},
            }
        }
    }
    loop
        invariant
            start <= p <= s@.len(),
            tag_attrs_spec(s@, start as int) == then_tag_attrs(
                attrs_view(v@),
                tag_attrs_spec(s@, p as int),
            ),
        decreases s@.len() - p,
    {
        if p >= s.len() || !ident_is(&s[p]) {
            proof {
                assert(attrs_view(v@) + Seq::<AttributeV>::empty() =~= attrs_view(v@));
            }
            return Ok((v, p));
        }
        match parse_tag_attr(s, p) {
            Err(e) => {
                return Err(e);
            },
            Ok((x, q)) => {
                if q <= p {
                    return Err(SyntaxError { span: s[p].span(), kind: ErrorKind::UnexpectedToken });
                }
                let ghost acc = attrs_view(v@);
                proof {
                    lemma_attrs_view_push(v@, x);
                    match tag_attrs_spec(s@, q as int) {
                        Ok((rest, e)) => {
                            assert(acc + (seq![x.view()] + rest) =~= acc.push(x.view()) + rest);
                        },
                        Err(e) => {},
                    }
                }
                v.push(x);
                if q > s.len() {
                    return Err(SyntaxError { span: s[p].span(), kind: ErrorKind::UnexpectedToken });
                }
                p = q;
            },
        }
    }
}

fn brace_child(inner: &Vec<Tok>, gs: usize) -> (r: Result<Child, SyntaxError>)
    ensures
        match r {
            Ok(c) => brace_child_spec(inner@, gs) == Ok::<ChildV, SyntaxError>(c.view()),
            Err(e) => brace_child_spec(inner@, gs) == Err::<ChildV, SyntaxError>(e),
        },
{
    let n = inner.len();
    if n == 0 {
        Err(SyntaxError { span: gs, kind: ErrorKind::EmptyChild })
    } else if punct_is(&inner[0], '.') && joint_is(&inner[0]) && 1 < n && punct_is(&inner[1], '.') {
        if n == 2 {
            Err(SyntaxError { span: gs, kind: ErrorKind::ExpectedExpression })
        } else {
            Ok(Child::Spread(copy_range(inner, 2, n)))
        }
    } else if punct_is(&inner[0], '.') {
        if n == 1 {
            Err(SyntaxError { span: gs, kind: ErrorKind::EmptyChild })
        } else {
            Ok(Child::MethodChain(copy_range(inner, 1, n)))
        }
    } else {
        let x = copy_range(inner, 0, n);
        proof {
            assert(inner@.subrange(0, n as int) =~= inner@);
        }
        Ok(Child::Expression(x))
    }
}

fn parse_tag_child(s: &Vec<Tok>, q: usize, os: usize) -> (r: Result<(Child, usize), SyntaxError>)
    requires
        q < s@.len(),
    ensures
        child_res(r, tag_child_spec(s@, q as int, os)),
        r matches Ok((c, _)) ==> wf_child(c.view()),
    decreases s, s@.len() - q, 2int,
{
    let n = s.len();
    if punct_is(&s[q], '<') {
        match parse_tag_element(s, q, os) {
            Err(e) => Err(e),
            Ok((el, k)) => Ok((Child::Element(el), k)),
        }
    } else if group_is(&s[q], Delim::Brace) {
        match &s[q] {
            Tok::Group { inner, span, .. } => match brace_child(inner, *span) {
                Err(e) => Err(e),
                Ok(c) => Ok((c, q + 1)),
            },
            _ => Err(SyntaxError { span: os, kind: ErrorKind::UnexpectedToken }),
        }
    } else {
        Err(SyntaxError { span: s[q].span(), kind: ErrorKind::UnexpectedToken })
    }
}

pub open spec fn then_tag_children(
    acc: Seq<ChildV>,
    r: Result<(Seq<ChildV>, int), SyntaxError>,
) -> Result<(Seq<ChildV>, int), SyntaxError> {
    match r {
        Ok((rest, e)) => Ok((acc + rest, e)),
        Err(e) => Err(e),
    }
}

fn parse_tag_children(s: &Vec<Tok>, start: usize, os: usize) -> (r: Result<
    (Vec<Child>, usize),
    SyntaxError,
>)
    requires
        start <= s@.len(),
    ensures
        match r {
            Ok((v, e)) => tag_children_spec(s@, start as int, os) == Ok::<
                (Seq<ChildV>, int),
                SyntaxError,
            >((children_view(v@), e as int)),
            Err(e) => tag_children_spec(s@, start as int, os) == Err::<
                (Seq<ChildV>, int),
                SyntaxError,
            >(e),
        },
        r matches Ok((_, e)) ==> e + 1 < s@.len(),
        r matches Ok((v, _)) ==> wf_children(children_view(v@)),
    decreases s, s@.len() - start, 3int,
{
    let n = s.len();
    let mut v: Vec<Child> = Vec::new();
    let mut q: usize = start;
    proof {
        assert(children_view(v@) =~= Seq::<ChildV>::empty());
        assert(then_tag_children(children_view(v@), tag_children_spec(s@, start as int, os))
            =~= tag_children_spec(s@, start as int, os)) by {
            match tag_children_spec(s@, start as int, os) {
                Ok((rest, e)) => {
                    assert(children_view(v@) + rest =~= rest);
                },
                Err(e) => {},
            }
        }
    }
    loop
        invariant
            n == s@.len(),
            start <= q <= s@.len(),
            wf_children(children_view(v@)),
            tag_children_spec(s@, start as int, os) == then_tag_children(
                children_view(v@),
                tag_children_spec(s@, q as int, os),
            ),
        decreases s@.len() - q,
    {
        if q >= n {
            return Err(SyntaxError { span: os, kind: ErrorKind::UnclosedTag });
        }
        if q < n - 1 && punct_is(&s[q], '<') && punct_is(&s[q + 1], '/') {
            proof {
                assert(children_view(v@) + Seq::<ChildV>::empty() =~= children_view(v@));
            }
            return Ok((v, q));
        }
        match parse_tag_child(s, q, os) {
            Err(e) => {
                return Err(e);
            },
            Ok((x, p)) => {
                if p <= q || p > n {
                    return Err(SyntaxError { span: s[q].span(), kind: ErrorKind::UnexpectedToken });
                }
                let ghost acc = children_view(v@);
                proof {
                    lemma_children_view_push(v@, x);
                    lemma_wf_children_push(children_view(v@), x.view());
                    match tag_children_spec(s@, p as int, os) {
                        Ok((rest, e)) => {
                            assert(acc + (seq![x.view()] + rest) =~= acc.push(x.view()) + rest);
                        },
                        Err(e) => {},
                    }
                }
                v.push(x);
                q = p;
            },
        }
    }
}

fn close_matches_at(head: &Tok, close: &Tok) -> (r: bool)
    ensures
        r == close_matches(*head, *close),
{
    match head {
        Tok::Ident { text, .. } => match close {
            Tok::Ident { text: c, .. } => text_is(c, text.as_str()),
            _ => false,
        },
        _ => group_is(close, Delim::Brace),
    }
}

fn tag_element_from(
    head: &Tok,
    close_name: Option<Ident>,
    attributes: Vec<Attribute>,
    children: Vec<Child>,
) -> (r: Element)
    requires
        is_ident(*head) || is_group(*head, Delim::Brace),
        wf_children(children_view(children@)),
    ensures
        wf_element(r.view()),
        r.view() == tag_element_of(
            *head,
            close_view(close_name),
            attrs_view(attributes@),
            children_view(children@),
        ),
{
    match head {
        Tok::Ident { text, span } => {
            let open_name = Ident { text: text.clone(), span: *span };
            if text_is(text, "div") || text_is(text, "svg") || text_is(text, "anchored") {
                Element::Native(NativeElement { open_name, close_name, attributes, children })
            } else {
                Element::Component(ComponentElement { open_name, close_name, attributes, children })
            }
        },
        Tok::Group { inner, .. } => {
            let expr = copy_range(inner, 0, inner.len());
            proof {
                assert(inner@.subrange(0, inner@.len() as int) =~= inner@);
            }
            Element::Expression(ExprElement { expr, attributes, children })
        },
        _ => Element::Expression(ExprElement { expr: Vec::new(), attributes, children }),
    }
}

fn parse_tag_element(s: &Vec<Tok>, pos: usize, es: usize) -> (r: Result<
    (Element, usize),
    SyntaxError,
>)
    ensures
        element_res(r, tag_element_spec(s@, pos as int, es)),
        r matches Ok((e, _)) ==> wf_element(e.view()),
    decreases s, s@.len() - pos, 1int,
{
    let n = s.len();
    if !(pos < n && pos < n - 1) || !punct_is(&s[pos], '<') {
        return Err(SyntaxError { span: span_of_at(s, pos, es), kind: ErrorKind::UnknownElement });
    }
    let os = s[pos].span();
    let h = &s[pos + 1];
    let hs = h.span();
    let is_id = ident_is(h);
    let deferred = match h {
        Tok::Ident { text, .. } => text_is(text, "deferred"),
        _ => false,
    };
    if !(is_id || group_is(h, Delim::Brace)) || (is_id && !tag_name_is(h)) {
        return Err(SyntaxError { span: hs, kind: ErrorKind::UnknownElement });
    }
    let empty_head = match h {
        Tok::Group { inner, .. } => inner.len() == 0,
        _ => false,
    };
    if empty_head {
        return Err(SyntaxError { span: hs, kind: ErrorKind::ExpectedExpression });
    }
    match parse_tag_attrs(s, pos + 2) {
        Err(e) => Err(e),
        Ok((attrs, p)) => {
            proof {
                crate::ast::lemma_attrs_view(attrs@);
            }
            if p < pos + 2 || p > n {
                return Err(SyntaxError { span: hs, kind: ErrorKind::UnexpectedToken });
            }
            if deferred && attrs.len() > 0 {
                return Err(SyntaxError { span: hs, kind: ErrorKind::MalformedAttribute });
            }
            if p < n - 1 && punct_is(&s[p], '/') && punct_is(&s[p + 1], '>') {
                if deferred {
                    return Err(SyntaxError { span: hs, kind: ErrorKind::DeferredArity });
                }
                let children: Vec<Child> = Vec::new();
                proof {
                    assert(children_view(children@) =~= Seq::<ChildV>::empty());
                }
                return Ok((tag_element_from(h, None, attrs, children), p + 2));
            }
            if !(p < n && punct_is(&s[p], '>')) {
                return Err(SyntaxError { span: span_of_at(s, p, os), kind: ErrorKind::UnexpectedToken });
            }
            match parse_tag_children(s, p + 1, os) {
                Err(e) => Err(e),
                Ok((cs, q)) => {
                    proof {
                        crate::ast::lemma_children_view(cs@);
                    }
                    if q <= p || q >= n - 2 || !close_matches_at(h, &s[q + 2]) {
                        return Err(
                            SyntaxError {
                                span: span_of_at(s, q + 2, os),
                                kind: ErrorKind::MismatchedClose { open: hs },
                            },
                        );
                    }
                    if n < 4 || q >= n - 3 || !punct_is(&s[q + 3], '>') {
                        return Err(
                            SyntaxError { span: span_of_at(s, q + 3, os), kind: ErrorKind::UnclosedTag },
                        );
                    }
                    if deferred {
                        if cs.len() == 0 {
                            return Err(SyntaxError { span: hs, kind: ErrorKind::DeferredArity });
                        }
                        if cs.len() > 1 {
                            let span = match parse_tag_child(s, p + 1, os) {
                                Ok((_, k)) => span_of_at(s, k, os),
                                Err(_) => hs,
                            };
                            return Err(SyntaxError { span, kind: ErrorKind::DeferredArity });
                        }
                        let mut cs = cs;
                        let child = cs.pop().unwrap();
                        let open_name = ident_of(h);
                        match child {
                            Child::Spread(_) | Child::MethodChain(_) => Err(
                                SyntaxError { span: hs, kind: ErrorKind::DeferredChild },
                            ),
                            _ => Ok(
                                (
                                    Element::Deferred(
                                        DeferredElement { open_name, child: Box::new(child) },
                                    ),
                                    q + 4,
                                ),
                            ),
                        }
                    } else {
                        let close = if ident_is(&s[q + 2]) {
                            Some(ident_of(&s[q + 2]))
                        } else {
                            None
                        };
                        Ok((tag_element_from(h, close, attrs, cs), q + 4))
                    }
                },
            }
        },
    }
}

fn parse_root(s: &Vec<Tok>, es: usize) -> (r: Result<(Element, usize), SyntaxError>)
    ensures
        element_res(r, root_spec(s@, es)),
        r matches Ok((e, _)) ==> wf_element(e.view()),
{
    if s.len() == 0 {
        Err(SyntaxError { span: es, kind: ErrorKind::UnknownElement })
    } else if punct_is(&s[0], '<') {
        parse_tag_element(s, 0, es)
    } else if has_tag_with_body(s, 0) {
        if tag_name_is(&s[0]) {
            parse_element(s, 0)
        } else {
            Err(SyntaxError { span: s[0].span(), kind: ErrorKind::UnknownElement })
        }
    } else if ident_is(&s[0]) {
        parse_expr_element(s, 0, true)
    } else if group_is(&s[0], Delim::Paren) {
        parse_expr_element(s, 0, false)
    } else {
        Err(SyntaxError { span: s[0].span(), kind: ErrorKind::UnknownElement })
    }
}

impl Markup {
    /// Parses a whole invocation: one element and nothing after it. An input
    /// that ends too early is reported at `end_span`.
    pub fn parse(tokens: &Vec<Tok>, end_span: usize) -> (r: Result<Markup, SyntaxError>)
        ensures
            match r {
                Ok(m) => markup_spec(tokens@, end_span) == Ok::<ElementV, SyntaxError>(m.view()),
                Err(e) => markup_spec(tokens@, end_span) == Err::<ElementV, SyntaxError>(e),
            },
            r matches Ok(m) ==> wf_element(m.view()),
    {
        proof {
            reveal(markup_spec);
        }
        match parse_root(tokens, end_span) {
            Err(e) => Err(e),
            Ok((element, p)) => {
                if p < tokens.len() {
                    Err(
                        SyntaxError {
                            span: span_of_at(tokens, p, end_span),
                            kind: ErrorKind::UnexpectedToken,
                        },
                    )
                } else {
                    Ok(Markup { element })
                }
            },
        }
    }
}

} // verus!
