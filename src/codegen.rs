//! Code generation: an element becomes its base expression followed by one
//! builder call per attribute and one per child, in source order.
use vstd::prelude::*;
use vstd::string::StringExecFns;
use crate::ast::{
    Attribute, AttributeV, Child, ChildV, Element, ElementV, Ident, Markup, attrs_view,
    children_view, close_view,
    exprs_view, lemma_attrs_view_push, lemma_children_view_push, lemma_exprs_view_push,
};
use crate::parser::is_native_name;
use crate::token::{Delim, Tok, TokV, copy_tok, toks_view, lemma_toks_view_push};

verus! {

broadcast use vstd::std_specs::vec::group_vec_axioms, vstd::seq::group_seq_axioms;

/// A tree the generator accepts: each native element carries a native name,
/// and each deferred element wraps one element or expression.
pub open spec fn wf_element(e: ElementV) -> bool
    decreases e,
{
    match e {
        ElementV::Native(n, _, _, cs) => is_native_name(n) && wf_children(cs),
        ElementV::Component(_, _, _, cs) => wf_children(cs),
        ElementV::Expression(_, _, cs) => wf_children(cs),
        ElementV::Deferred(_, c) => (*c is Element || *c is Expression) && wf_child(*c),
    }
}

pub open spec fn wf_child(c: ChildV) -> bool
    decreases c,
{
    match c {
        ChildV::Element(e) => wf_element(e),
        _ => true,
    }
}

pub open spec fn wf_children(cs: Seq<ChildV>) -> bool
    decreases cs,
{
    if cs.len() == 0 {
        true
    } else {
        wf_children(cs.drop_last()) && wf_child(cs.last())
    }
}

pub proof fn lemma_wf_children_push(cs: Seq<ChildV>, c: ChildV)
    ensures
        wf_children(cs.push(c)) == (wf_children(cs) && wf_child(c)),
{
    assert(cs.push(c).drop_last() =~= cs);
}

pub proof fn lemma_wf_children_index(cs: Seq<ChildV>, i: int)
    requires
        wf_children(cs),
        0 <= i < cs.len(),
    ensures
        wf_child(cs[i]),
    decreases cs.len(),
{
    if i < cs.len() - 1 {
        lemma_wf_children_index(cs.drop_last(), i);
    }
}

pub open spec fn dot() -> TokV {
    TokV::Punct('.', false)
}

pub open spec fn comma() -> TokV {
    TokV::Punct(',', false)
}

/// `.name(args)`
pub open spec fn call_toks(name: Seq<char>, args: Seq<TokV>) -> Seq<TokV> {
    seq![dot(), TokV::Ident(name), TokV::Group(Delim::Paren, args)]
}

pub open spec fn is_comma(t: TokV) -> bool {
    t is Punct && t->Punct_0 == ','
}

/// A tuple literal: one parenthesized group with a comma at its top level.
pub open spec fn is_tuple(v: Seq<TokV>) -> bool {
    v.len() == 1 && v[0] is Group && v[0]->Group_0 == Delim::Paren && exists|i: int|
        0 <= i < v[0]->Group_1.len() && #[trigger] is_comma(v[0]->Group_1[i])
}

/// The arguments of a one-value attribute call: a tuple's items, or the value itself.
pub open spec fn value_args(v: Seq<TokV>) -> Seq<TokV> {
    if is_tuple(v) {
        v[0]->Group_1
    } else {
        v
    }
}

/// The values separated by commas.
pub open spec fn comma_join(vs: Seq<Seq<TokV>>) -> Seq<TokV>
    decreases vs.len(),
{
    if vs.len() == 0 {
        Seq::empty()
    } else if vs.len() == 1 {
        vs[0]
    } else {
        comma_join(vs.drop_last()) + seq![comma()] + vs.last()
    }
}

pub open spec fn attr_call(a: AttributeV) -> Seq<TokV> {
    match a {
        AttributeV::Flag(k) => call_toks(k, Seq::empty()),
        AttributeV::KeyValue(k, v) => call_toks(k, value_args(v)),
        AttributeV::KeyMultiValue(k, vs) => call_toks(k, comma_join(vs)),
    }
}

pub open spec fn attr_calls(attrs: Seq<AttributeV>) -> Seq<TokV>
    decreases attrs.len(),
{
    if attrs.len() == 0 {
        Seq::empty()
    } else {
        attr_calls(attrs.drop_last()) + attr_call(attrs.last())
    }
}

/// The single value a deferred element wraps.
pub open spec fn deferred_value(c: ChildV) -> Seq<TokV>
    decreases c,
{
    match c {
        ChildV::Element(e) => gen_element(e),
        ChildV::Expression(x) => x,
        ChildV::Spread(x) => x,
        ChildV::MethodChain(x) => x,
    }
}

pub open spec fn child_call(c: ChildV) -> Seq<TokV>
    decreases c,
{
    match c {
        ChildV::Element(e) => call_toks("child"@, gen_element(e)),
        ChildV::Expression(x) => call_toks("child"@, x),
        ChildV::Spread(x) => call_toks("children"@, x),
        ChildV::MethodChain(x) => seq![dot()] + x,
    }
}

pub open spec fn child_calls(cs: Seq<ChildV>) -> Seq<TokV>
    decreases cs,
{
    if cs.len() == 0 {
        Seq::empty()
    } else {
        child_calls(cs.drop_last()) + child_call(cs.last())
    }
}

/// The type a native tag builds, within the toolkit's namespace.
pub open spec fn native_type_name(n: Seq<char>) -> Seq<char> {
    if n == "div"@ {
        "Div"@
    } else if n == "svg"@ {
        "Svg"@
    } else if n == "anchored"@ {
        "Anchored"@
    } else {
        n
    }
}

/// `gpui::Div` for `div`, and so on.
pub open spec fn native_type(n: Seq<char>) -> Seq<TokV> {
    seq![
        TokV::Ident("gpui"@),
        TokV::Punct(':', true),
        TokV::Punct(':', false),
        TokV::Ident(native_type_name(n)),
    ]
}

/// `fn __assert_parent_element<T: gpui::ParentElement>() {}
/// __assert_parent_element::<ty>();`: it compiles only when `ty` accepts children.
pub open spec fn parent_check(ty: Seq<TokV>) -> Seq<TokV> {
    seq![
        TokV::Ident("fn"@),
        TokV::Ident("__assert_parent_element"@),
        TokV::Punct('<', false),
        TokV::Ident("T"@),
        TokV::Punct(':', false),
        TokV::Ident("gpui"@),
        TokV::Punct(':', true),
        TokV::Punct(':', false),
        TokV::Ident("ParentElement"@),
        TokV::Punct('>', false),
        TokV::Group(Delim::Paren, Seq::empty()),
        TokV::Group(Delim::Brace, Seq::empty()),
        TokV::Ident("__assert_parent_element"@),
        TokV::Punct(':', true),
        TokV::Punct(':', true),
        TokV::Punct('<', false),
    ] + ty + seq![
        TokV::Punct('>', false),
        TokV::Group(Delim::Paren, Seq::empty()),
        TokV::Punct(';', false),
    ]
}

/// The head of an element: when children follow, it stands in a block that
/// first asserts that its type `ty` accepts children.
pub open spec fn checked_head(ty: Seq<TokV>, head: Seq<TokV>, has_children: bool) -> Seq<TokV> {
    if has_children {
        seq![TokV::Group(Delim::Brace, parent_check(ty) + head)]
    } else {
        head
    }
}

pub open spec fn component_base(n: Seq<char>) -> Seq<TokV> {
    seq![
        TokV::Ident(n),
        TokV::Punct(':', true),
        TokV::Punct(':', false),
        TokV::Ident("new"@),
        TokV::Group(Delim::Paren, Seq::empty()),
    ]
}

/// `name()`
pub open spec fn native_base(n: Seq<char>) -> Seq<TokV> {
    seq![TokV::Ident(n), TokV::Group(Delim::Paren, Seq::empty())]
}

/// The constructor call of a native or component element. With a closing
/// name it is `{ #[allow(path_statements)] open; ctor(close) }`, so that both
/// names in the source stand in the output.
pub open spec fn spanned_base(open: Seq<char>, close: Option<Seq<char>>, component: bool) -> Seq<
    TokV,
> {
    match close {
        None => if component {
            component_base(open)
        } else {
            native_base(open)
        },
        Some(c) => seq![
            TokV::Group(
                Delim::Brace,
                seq![
                    TokV::Punct('#', false),
                    TokV::Group(
                        Delim::Bracket,
                        seq![
                            TokV::Ident("allow"@),
                            TokV::Group(Delim::Paren, seq![TokV::Ident("path_statements"@)]),
                        ],
                    ),
                    TokV::Ident(open),
                    TokV::Punct(';', false),
                ] + if component {
                    component_base(c)
                } else {
                    native_base(c)
                },
            ),
        ],
    }
}

/// The expression an element compiles to.
pub open spec fn gen_element(e: ElementV) -> Seq<TokV>
    decreases e,
{
    match e {
        ElementV::Native(n, close, attrs, cs) => checked_head(
            native_type(n),
            spanned_base(n, close, false) + attr_calls(attrs),
            cs.len() > 0,
        ) + child_calls(cs),
        ElementV::Component(n, close, attrs, cs) => checked_head(
            seq![TokV::Ident(n)],
            spanned_base(n, close, true) + attr_calls(attrs),
            cs.len() > 0,
        ) + child_calls(cs),
        ElementV::Expression(x, attrs, cs) => x + attr_calls(attrs) + child_calls(cs),
        ElementV::Deferred(n, c) => seq![
            TokV::Ident(n),
            TokV::Group(
                Delim::Paren,
                seq![
                    TokV::Group(Delim::Paren, deferred_value(*c)),
                    dot(),
                    TokV::Ident("into_any_element"@),
                    TokV::Group(Delim::Paren, Seq::empty()),
                ],
            ),
        ],
    }
}

fn ident_tok(text: String, span: usize) -> (r: Tok)
    ensures
        r.view() == TokV::Ident(text@),
{
    Tok::Ident { text, span }
}

fn punct_tok(ch: char, joint: bool, span: usize) -> (r: Tok)
    ensures
        r.view() == TokV::Punct(ch, joint),
{
    Tok::Punct { ch, joint, span }
}

fn paren_tok(inner: Vec<Tok>, span: usize) -> (r: Tok)
    ensures
        r.view() == TokV::Group(Delim::Paren, toks_view(inner@)),
{
    Tok::Group { delim: Delim::Paren, inner, span }
}

fn push_tok(out: &mut Vec<Tok>, t: Tok)
    ensures
        toks_view(final(out)@) == toks_view(old(out)@).push(t.view()),
{
    proof {
        lemma_toks_view_push(out@, t);
    }
    out.push(t);
}

/// Appends copies of the tokens of `x`.
fn extend_toks(out: &mut Vec<Tok>, x: &Vec<Tok>)
    ensures
        toks_view(final(out)@) == toks_view(old(out)@) + toks_view(x@),
{
    let mut i: usize = 0;
    while i < x.len()
        invariant
            i <= x@.len(),
            toks_view(out@) == toks_view(old(out)@) + toks_view(x@.subrange(0, i as int)),
        decreases x@.len() - i,
    {
        push_tok(out, copy_tok(&x[i]));
        proof {
            let a = x@.subrange(0, i as int);
            assert(a.push(x@[i as int]) =~= x@.subrange(0, i + 1));
            lemma_toks_view_push(a, x@[i as int]);
            assert(toks_view(out@) =~= toks_view(old(out)@) + toks_view(x@.subrange(0, i + 1)));
        }
        i = i + 1;
    }
    proof {
        assert(x@.subrange(0, x@.len() as int) =~= x@);
    }
}

fn copy_toks(x: &Vec<Tok>) -> (r: Vec<Tok>)
    ensures
        toks_view(r@) == toks_view(x@),
{
    let mut r: Vec<Tok> = Vec::new();
    proof {
        assert(toks_view(r@) =~= Seq::<TokV>::empty());
    }
    extend_toks(&mut r, x);
    proof {
        assert(Seq::<TokV>::empty() + toks_view(x@) =~= toks_view(x@));
    }
    r
}

/// Appends `.name(args)`.
fn push_call(out: &mut Vec<Tok>, name: String, args: Vec<Tok>, span: usize)
    ensures
        toks_view(final(out)@) == toks_view(old(out)@) + call_toks(name@, toks_view(args@)),
{
    let ghost n = name@;
    let ghost a = toks_view(args@);
    push_tok(out, punct_tok('.', false, span));
    push_tok(out, ident_tok(name, span));
    push_tok(out, paren_tok(args, span));
    proof {
        assert(toks_view(out@) =~= toks_view(old(out)@) + call_toks(n, a));
    }
}

/// Whether a value is a tuple literal, and so gives its items as arguments.
fn tuple_items(v: &Vec<Tok>) -> (r: Option<&Vec<Tok>>)
    ensures
        is_tuple(toks_view(v@)) == r.is_some(),
        r matches Some(items) ==> toks_view(v@).len() == 1 && toks_view(v@)[0] == TokV::Group(
            Delim::Paren,
            toks_view(items@),
        ),
{
    proof {
        crate::token::lemma_toks_view(v@);
    }
    if v.len() != 1 {
        return None;
    }
    proof {
        assert(toks_view(v@)[0] == v@[0].view());
    }
    match &v[0] {
        Tok::Group { delim: Delim::Paren, inner, .. } => {
            proof {
                crate::token::lemma_toks_view(inner@);
            }
            let mut i: usize = 0;
            while i < inner.len()
                invariant
                    i <= inner@.len(),
                    v@.len() == 1,
                    toks_view(v@).len() == 1,
                    toks_view(v@)[0] == TokV::Group(Delim::Paren, toks_view(inner@)),
                    toks_view(inner@).len() == inner@.len(),
                    forall|j: int|
                        0 <= j < inner@.len() ==> #[trigger] toks_view(inner@)[j] == inner@[j].view(),
                    forall|j: int| 0 <= j < i ==> !is_comma(#[trigger] toks_view(inner@)[j]),
                decreases inner@.len() - i,
            {
                proof {
                    assert(toks_view(inner@)[i as int] == inner@[i as int].view());
                }
                let c = match &inner[i] {
                    Tok::Punct { ch, .. } => *ch == ',',
                    _ => false,
                };
                if c {
                    proof {
                        assert(is_comma(toks_view(inner@)[i as int]));
                        assert(is_comma(toks_view(v@)[0]->Group_1[i as int]));
                    }
                    return Some(inner);
                }
                i = i + 1;
            }
            None
        },
        _ => None,
    }
}

fn push_attr(out: &mut Vec<Tok>, a: &Attribute, span: usize)
    ensures
        toks_view(final(out)@) == toks_view(old(out)@) + attr_call(a.view()),
{
    match a {
        Attribute::Flag(k) => {
            let args: Vec<Tok> = Vec::new();
            proof {
                assert(toks_view(args@) =~= Seq::<TokV>::empty());
            }
            push_call(out, k.text.clone(), args, span);
        },
        Attribute::KeyValue { key, value } => {
            let args = match tuple_items(value) {
                Some(items) => copy_toks(items),
                None => copy_toks(value),
            };
            push_call(out, key.text.clone(), args, span);
        },
        Attribute::KeyMultiValue { key, values } => {
            let mut args: Vec<Tok> = Vec::new();
            let mut i: usize = 0;
            proof {
                assert(toks_view(args@) =~= comma_join(exprs_view(values@.subrange(0, 0))));
            }
            while i < values.len()
                invariant
                    i <= values@.len(),
                    toks_view(args@) == comma_join(exprs_view(values@.subrange(0, i as int))),
                decreases values@.len() - i,
            {
                let ghost sub = values@.subrange(0, i as int);
                if i > 0 {
                    push_tok(&mut args, punct_tok(',', false, span));
                }
                extend_toks(&mut args, &values[i]);
                proof {
                    assert(sub.push(values@[i as int]) =~= values@.subrange(0, i + 1));
                    lemma_exprs_view_push(sub, values@[i as int]);
                    let vs = exprs_view(values@.subrange(0, i + 1));
                    assert(vs.drop_last() =~= exprs_view(sub));
                    if i == 0 {
                        assert(exprs_view(sub) =~= Seq::<Seq<TokV>>::empty());
                        assert(toks_view(args@) =~= comma_join(vs));
                    } else {
                        assert(toks_view(args@) =~= comma_join(vs));
                    }
                }
                i = i + 1;
            }
            proof {
                assert(values@.subrange(0, values@.len() as int) =~= values@);
            }
            push_call(out, key.text.clone(), args, span);
        },
    }
}

fn push_attrs(out: &mut Vec<Tok>, attrs: &Vec<Attribute>, span: usize)
    ensures
        toks_view(final(out)@) == toks_view(old(out)@) + attr_calls(attrs_view(attrs@)),
{
    let mut i: usize = 0;
    proof {
        assert(attrs_view(attrs@.subrange(0, 0)) =~= Seq::<AttributeV>::empty());
        assert(toks_view(out@) =~= toks_view(old(out)@) + attr_calls(
            attrs_view(attrs@.subrange(0, 0)),
        ));
    }
    while i < attrs.len()
        invariant
            i <= attrs@.len(),
            toks_view(out@) == toks_view(old(out)@) + attr_calls(
                attrs_view(attrs@.subrange(0, i as int)),
            ),
        decreases attrs@.len() - i,
    {
        push_attr(out, &attrs[i], span);
        proof {
            let sub = attrs@.subrange(0, i as int);
            assert(sub.push(attrs@[i as int]) =~= attrs@.subrange(0, i + 1));
            lemma_attrs_view_push(sub, attrs@[i as int]);
            let v = attrs_view(attrs@.subrange(0, i + 1));
            assert(v.drop_last() =~= attrs_view(sub));
            assert(toks_view(out@) =~= toks_view(old(out)@) + attr_calls(v));
        }
        i = i + 1;
    }
    proof {
        assert(attrs@.subrange(0, attrs@.len() as int) =~= attrs@);
    }
}

fn push_child(out: &mut Vec<Tok>, c: &Child, span: usize)
    requires
        wf_child(c.view()),
    ensures
        toks_view(final(out)@) == toks_view(old(out)@) + child_call(c.view()),
    decreases c,
{
    match c {
        Child::Element(e) => {
            let inner = generate_element(e);
            push_call(out, String::from_str("child"), inner, span);
        },
        Child::Expression(x) => {
            push_call(out, String::from_str("child"), copy_toks(x), span);
        },
        Child::Spread(x) => {
            push_call(out, String::from_str("children"), copy_toks(x), span);
        },
        Child::MethodChain(x) => {
            let ghost before = toks_view(out@);
            push_tok(out, punct_tok('.', false, span));
            extend_toks(out, x);
            proof {
                assert(toks_view(out@) =~= before + (seq![dot()] + toks_view(x@)));
            }
        },
    }
}

fn push_children(out: &mut Vec<Tok>, cs: &Vec<Child>, span: usize)
    requires
        wf_children(children_view(cs@)),
    ensures
        toks_view(final(out)@) == toks_view(old(out)@) + child_calls(children_view(cs@)),
    decreases cs,
{
    let mut i: usize = 0;
    proof {
        assert(children_view(cs@.subrange(0, 0)) =~= Seq::<ChildV>::empty());
        assert(toks_view(out@) =~= toks_view(old(out)@) + child_calls(
            children_view(cs@.subrange(0, 0)),
        ));
    }
    while i < cs.len()
        invariant
            i <= cs@.len(),
            wf_children(children_view(cs@)),
            toks_view(out@) == toks_view(old(out)@) + child_calls(
                children_view(cs@.subrange(0, i as int)),
            ),
        decreases cs@.len() - i,
    {
        proof {
            assert(decreases_to!(cs => cs@));
            assert(decreases_to!(cs@ => cs@[i as int]));
            crate::ast::lemma_children_view(cs@);
            lemma_wf_children_index(children_view(cs@), i as int);
        }
        push_child(out, &cs[i], span);
        proof {
            let sub = cs@.subrange(0, i as int);
            assert(sub.push(cs@[i as int]) =~= cs@.subrange(0, i + 1));
            lemma_children_view_push(sub, cs@[i as int]);
            let v = children_view(cs@.subrange(0, i + 1));
            assert(v.drop_last() =~= children_view(sub));
            assert(toks_view(out@) =~= toks_view(old(out)@) + child_calls(v));
        }
        i = i + 1;
    }
    proof {
        assert(cs@.subrange(0, cs@.len() as int) =~= cs@);
    }
}

fn word(text: &str, span: usize) -> (r: Tok)
    ensures
        r.view() == TokV::Ident(text@),
{
    Tok::Ident { text: String::from_str(text), span }
}

/// Appends the constructor call `name()` or `name::new()`.
fn push_ctor(out: &mut Vec<Tok>, name: &Ident, component: bool)
    ensures
        toks_view(final(out)@) == toks_view(old(out)@) + if component {
            component_base(name.text@)
        } else {
            native_base(name.text@)
        },
{
    let span = name.span;
    push_tok(out, ident_tok(name.text.clone(), span));
    if component {
        push_tok(out, punct_tok(':', true, span));
        push_tok(out, punct_tok(':', false, span));
        push_tok(out, word("new", span));
    }
    push_tok(out, paren_tok(Vec::new(), span));
    proof {
        assert(toks_view(final(out)@) =~= toks_view(old(out)@) + if component {
            component_base(name.text@)
        } else {
            native_base(name.text@)
        });
    }
}

/// Appends the base of a native or component element: its constructor
/// call, which with a closing name stands in a block after the opening name.
fn push_base(out: &mut Vec<Tok>, open: &Ident, close: &Option<Ident>, component: bool)
    ensures
        toks_view(final(out)@) == toks_view(old(out)@) + spanned_base(
            open.text@,
            close_view(*close),
            component,
        ),
{
    match close {
        None => push_ctor(out, open, component),
        Some(c) => {
            let span = open.span;
            let mut b: Vec<Tok> = Vec::new();
            let mut words: Vec<Tok> = Vec::new();
            let mut allow: Vec<Tok> = Vec::new();
            proof {
                assert(toks_view(b@) =~= Seq::<TokV>::empty());
                assert(toks_view(words@) =~= Seq::<TokV>::empty());
                assert(toks_view(allow@) =~= Seq::<TokV>::empty());
            }
            push_tok(&mut words, word("path_statements", span));
            push_tok(&mut allow, word("allow", span));
            push_tok(&mut allow, paren_tok(words, span));
            push_tok(&mut b, punct_tok('#', false, span));
            push_tok(&mut b, Tok::Group { delim: Delim::Bracket, inner: allow, span });
            push_tok(&mut b, ident_tok(open.text.clone(), span));
            push_tok(&mut b, punct_tok(';', false, span));
            proof {
                assert(toks_view(words@) =~= seq![TokV::Ident("path_statements"@)]);
                assert(toks_view(allow@) =~= seq![
                    TokV::Ident("allow"@),
                    TokV::Group(Delim::Paren, seq![TokV::Ident("path_statements"@)]),
                ]);
            }
            push_ctor(&mut b, c, component);
            proof {
                assert(toks_view(b@) =~= seq![
                    TokV::Punct('#', false),
                    TokV::Group(
                        Delim::Bracket,
                        seq![
                            TokV::Ident("allow"@),
                            TokV::Group(Delim::Paren, seq![TokV::Ident("path_statements"@)]),
                        ],
                    ),
                    TokV::Ident(open.text@),
                    TokV::Punct(';', false),
                ] + if component {
                    component_base(c.text@)
                } else {
                    native_base(c.text@)
                });
            }
            push_tok(out, Tok::Group { delim: Delim::Brace, inner: b, span });
            proof {
                assert(toks_view(final(out)@) =~= toks_view(old(out)@) + spanned_base(
                    open.text@,
                    close_view(*close),
                    component,
                ));
            }
        },
    }
}

fn native_type_toks(name: &String, span: usize) -> (r: Vec<Tok>)
    requires
        is_native_name(name@),
    ensures
        toks_view(r@) == native_type(name@),
{
    let ty = if crate::parser::text_is(name, "div") {
        word("Div", span)
    } else if crate::parser::text_is(name, "svg") {
        word("Svg", span)
    } else if crate::parser::text_is(name, "anchored") {
        word("Anchored", span)
    } else {
        ident_tok(name.clone(), span)
    };
    let mut r: Vec<Tok> = Vec::new();
    proof {
        assert(toks_view(r@) =~= Seq::<TokV>::empty());
    }
    push_tok(&mut r, word("gpui", span));
    push_tok(&mut r, punct_tok(':', true, span));
    push_tok(&mut r, punct_tok(':', false, span));
    push_tok(&mut r, ty);
    proof {
        assert(toks_view(r@) =~= native_type(name@));
    }
    r
}

/// Wraps `head` in the block that asserts that `ty` accepts children, when
/// children follow.
fn push_checked_head(out: &mut Vec<Tok>, ty: Vec<Tok>, head: Vec<Tok>, has_children: bool, span: usize)
    ensures
        toks_view(final(out)@) == toks_view(old(out)@) + checked_head(
            toks_view(ty@),
            toks_view(head@),
            has_children,
        ),
{
    if !has_children {
        extend_toks(out, &head);
        return;
    }
    let mut b: Vec<Tok> = Vec::new();
    proof {
        assert(toks_view(b@) =~= Seq::<TokV>::empty());
    }
    push_tok(&mut b, word("fn", span));
    push_tok(&mut b, word("__assert_parent_element", span));
    push_tok(&mut b, punct_tok('<', false, span));
    push_tok(&mut b, word("T", span));
    push_tok(&mut b, punct_tok(':', false, span));
    push_tok(&mut b, word("gpui", span));
    push_tok(&mut b, punct_tok(':', true, span));
    push_tok(&mut b, punct_tok(':', false, span));
    push_tok(&mut b, word("ParentElement", span));
    push_tok(&mut b, punct_tok('>', false, span));
    push_tok(&mut b, paren_tok(Vec::new(), span));
    push_tok(&mut b, Tok::Group { delim: Delim::Brace, inner: Vec::new(), span });
    push_tok(&mut b, word("__assert_parent_element", span));
    push_tok(&mut b, punct_tok(':', true, span));
    push_tok(&mut b, punct_tok(':', true, span));
    push_tok(&mut b, punct_tok('<', false, span));
    extend_toks(&mut b, &ty);
    push_tok(&mut b, punct_tok('>', false, span));
    push_tok(&mut b, paren_tok(Vec::new(), span));
    push_tok(&mut b, punct_tok(';', false, span));
    proof {
        assert(toks_view(b@) =~= parent_check(toks_view(ty@)));
    }
    extend_toks(&mut b, &head);
    push_tok(out, Tok::Group { delim: Delim::Brace, inner: b, span });
    proof {
        assert(toks_view(final(out)@) =~= toks_view(old(out)@) + checked_head(
            toks_view(ty@),
            toks_view(head@),
            has_children,
        ));
    }
}

/// The expression an element compiles to.
pub fn generate_element(e: &Element) -> (r: Vec<Tok>)
    requires
        wf_element(e.view()),
    ensures
        toks_view(r@) == gen_element(e.view()),
    decreases e,
{
    let mut out: Vec<Tok> = Vec::new();
    proof {
        assert(toks_view(out@) =~= Seq::<TokV>::empty());
    }
    match e {
        Element::Native(n) => {
            let span = n.open_name.span;
            let mut head: Vec<Tok> = Vec::new();
            proof {
                assert(toks_view(head@) =~= Seq::<TokV>::empty());
            }
            push_base(&mut head, &n.open_name, &n.close_name, false);
            push_attrs(&mut head, &n.attributes, span);
            proof {
                crate::ast::lemma_children_view(n.children@);
                assert(toks_view(head@) =~= spanned_base(
                    n.open_name.text@,
                    close_view(n.close_name),
                    false,
                ) + attr_calls(attrs_view(n.attributes@)));
            }
            let ty = native_type_toks(&n.open_name.text, span);
            push_checked_head(&mut out, ty, head, n.children.len() > 0, span);
            push_children(&mut out, &n.children, span);
            proof {
                assert(toks_view(out@) =~= gen_element(e.view()));
            }
        },
        Element::Component(c) => {
            let span = c.open_name.span;
            let mut head: Vec<Tok> = Vec::new();
            proof {
                assert(toks_view(head@) =~= Seq::<TokV>::empty());
            }
            push_base(&mut head, &c.open_name, &c.close_name, true);
            push_attrs(&mut head, &c.attributes, span);
            proof {
                crate::ast::lemma_children_view(c.children@);
                assert(toks_view(head@) =~= spanned_base(
                    c.open_name.text@,
                    close_view(c.close_name),
                    true,
                ) + attr_calls(attrs_view(c.attributes@)));
            }
            let mut ty: Vec<Tok> = Vec::new();
            proof {
                assert(toks_view(ty@) =~= Seq::<TokV>::empty());
            }
            push_tok(&mut ty, ident_tok(c.open_name.text.clone(), span));
            proof {
                assert(toks_view(ty@) =~= seq![TokV::Ident(c.open_name.text@)]);
            }
            push_checked_head(&mut out, ty, head, c.children.len() > 0, span);
            push_children(&mut out, &c.children, span);
            proof {
                assert(toks_view(out@) =~= gen_element(e.view()));
            }
        },
        Element::Expression(x) => {
            let span = if x.expr.len() > 0 {
                x.expr[0].span()
            } else {
                0
            };
            extend_toks(&mut out, &x.expr);
            push_attrs(&mut out, &x.attributes, span);
            push_children(&mut out, &x.children, span);
            proof {
                assert(toks_view(out@) =~= gen_element(e.view()));
            }
        },
        Element::Deferred(d) => {
            let span = d.open_name.span;
            let value = match &*d.child {
                Child::Element(inner) => generate_element(inner),
                Child::Expression(x) => copy_toks(x),
                Child::Spread(x) => copy_toks(x),
                Child::MethodChain(x) => copy_toks(x),
            };
            let mut arg: Vec<Tok> = Vec::new();
            proof {
                assert(toks_view(arg@) =~= Seq::<TokV>::empty());
            }
            push_tok(&mut arg, paren_tok(value, span));
            push_tok(&mut arg, punct_tok('.', false, span));
            push_tok(&mut arg, ident_tok(String::from_str("into_any_element"), span));
            push_tok(&mut arg, paren_tok(Vec::new(), span));
            push_tok(&mut out, ident_tok(d.open_name.text.clone(), span));
            proof {
                assert(toks_view(value@) == deferred_value((*d.child).view()));
                assert(toks_view(arg@) =~= seq![
                    TokV::Group(Delim::Paren, deferred_value((*d.child).view())),
                    dot(),
                    TokV::Ident("into_any_element"@),
                    TokV::Group(Delim::Paren, Seq::empty()),
                ]);
            }
            push_tok(&mut out, paren_tok(arg, span));
            proof {
                assert(toks_view(out@) =~= gen_element(e.view()));
            }
        },
    }
    out
}

impl Markup {
    /// The expression this markup compiles to.
    pub fn generate(&self) -> (r: Vec<Tok>)
        requires
            wf_element(self.view()),
        ensures
            toks_view(r@) == gen_element(self.view()),
    {
        generate_element(&self.element)
    }
}

} // verus!
