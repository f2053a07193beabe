//! Properties of the parser and the generator taken together.
use vstd::prelude::*;
use crate::ast::{AttributeV, ChildV, ElementV};
use crate::codegen::{
    attr_call, attr_calls, call_toks, checked_head, child_call, child_calls, comma, comma_join,
    deferred_value, spanned_base, dot, gen_element, is_comma, is_tuple, native_type,
};
use crate::parser::{
    ErrorKind, SyntaxError, chain_end, chain_end_from, err, group_inner,
    after_comma, child_spec, element_spec, ident_text, is_close_start, is_deferred_name, is_group,
    is_ident,
    is_joint, is_punct, is_tag_name, markup_spec, root_spec, tag_attr_spec, tag_child_spec,
    step_depth, tag_attrs_spec, tag_children_spec, tag_element_of, tag_element_spec, tag_with_body,
};
use crate::token::{Delim, Tok, TokV, toks_view};

verus! {

broadcast use vstd::seq::group_seq_axioms, vstd::seq_lib::group_seq_properties;

/// What an element is built on: its constructor, its component's `new()`,
/// its expression, or, for a deferred element, the whole wrapped call.
pub open spec fn base_of(e: ElementV) -> Seq<TokV> {
    match e {
        ElementV::Native(n, close, _, _) => spanned_base(n, close, false),
        ElementV::Component(n, close, _, _) => spanned_base(n, close, true),
        ElementV::Expression(x, _, _) => x,
        ElementV::Deferred(_, _) => gen_element(e),
    }
}

/// The type a native or component element builds.
pub open spec fn type_of(e: ElementV) -> Seq<TokV> {
    match e {
        ElementV::Native(n, _, _, _) => native_type(n),
        ElementV::Component(n, _, _, _) => seq![TokV::Ident(n)],
        _ => Seq::empty(),
    }
}

/// Whether an element's head is checked to accept children: a native or
/// component element that has some.
pub open spec fn is_checked(e: ElementV) -> bool {
    (e is Native || e is Component) && children_of(e).len() > 0
}

pub open spec fn attrs_of(e: ElementV) -> Seq<AttributeV> {
    match e {
        ElementV::Native(_, _, a, _) => a,
        ElementV::Component(_, _, a, _) => a,
        ElementV::Expression(_, a, _) => a,
        ElementV::Deferred(_, _) => Seq::empty(),
    }
}

pub open spec fn children_of(e: ElementV) -> Seq<ChildV> {
    match e {
        ElementV::Native(_, _, _, c) => c,
        ElementV::Component(_, _, _, c) => c,
        ElementV::Expression(_, _, c) => c,
        ElementV::Deferred(_, _) => Seq::empty(),
    }
}

proof fn lemma_attr_calls_flatten(a: Seq<AttributeV>)
    ensures
        attr_calls(a) == a.map_values(|x: AttributeV| attr_call(x)).flatten(),
    decreases a.len(),
{
    let f = |x: AttributeV| attr_call(x);
    if a.len() == 0 {
        assert(a.map_values(f) =~= Seq::<Seq<TokV>>::empty());
    } else {
        lemma_attr_calls_flatten(a.drop_last());
        assert(a.map_values(f) =~= a.drop_last().map_values(f).push(attr_call(a.last())));
        a.drop_last().map_values(f).lemma_flatten_push(attr_call(a.last()));
    }
}

proof fn lemma_child_calls_flatten(c: Seq<ChildV>)
    ensures
        child_calls(c) == c.map_values(|x: ChildV| child_call(x)).flatten(),
    decreases c.len(),
{
    let f = |x: ChildV| child_call(x);
    if c.len() == 0 {
        assert(c.map_values(f) =~= Seq::<Seq<TokV>>::empty());
    } else {
        lemma_child_calls_flatten(c.drop_last());
        assert(c.map_values(f) =~= c.drop_last().map_values(f).push(child_call(c.last())));
        c.drop_last().map_values(f).lemma_flatten_push(child_call(c.last()));
    }
}

/// The output of an element is its head, then one call per child in source
/// order. The head is its base followed by one call per attribute in source
/// order, placed, when the element receives children, in a block that first
/// asserts that its type accepts children.
pub proof fn lemma_element_follows_source_order(e: ElementV)
    ensures
        gen_element(e) == checked_head(
            type_of(e),
            base_of(e) + attrs_of(e).map_values(|x: AttributeV| attr_call(x)).flatten(),
            is_checked(e),
        ) + children_of(e).map_values(|x: ChildV| child_call(x)).flatten(),
{
    lemma_attr_calls_flatten(attrs_of(e));
    lemma_child_calls_flatten(children_of(e));
    if e is Deferred {
        assert(attrs_of(e).map_values(|x: AttributeV| attr_call(x)) =~= Seq::<Seq<TokV>>::empty());
        assert(children_of(e).map_values(|x: ChildV| child_call(x)) =~= Seq::<Seq<TokV>>::empty());
        assert(gen_element(e) =~= base_of(e) + Seq::<TokV>::empty() + Seq::<TokV>::empty());
    }
}

/// For every input that parses, the output is the element's head (its base
/// and one call per attribute, in source order) followed by one call per
/// child in source order.
pub proof fn lemma_output_follows_source_order(tokens: Seq<Tok>, end_span: usize)
    requires
        markup_spec(tokens, end_span) is Ok,
    ensures
        ({
            let e = markup_spec(tokens, end_span)->Ok_0;
            gen_element(e) == checked_head(
                type_of(e),
                base_of(e) + attrs_of(e).map_values(|x: AttributeV| attr_call(x)).flatten(),
                is_checked(e),
            ) + children_of(e).map_values(|x: ChildV| child_call(x)).flatten()
        }),
{
    lemma_element_follows_source_order(markup_spec(tokens, end_span)->Ok_0);
}

/// A deferred element needs exactly one child. An empty body is rejected at
/// the tag; a body with more after its one child (and an optional comma) is
/// rejected at the first token of the surplus child; one element or
/// expression child is accepted and compiled into a call that wraps it,
/// converted into an element value, as its only argument.
#[verifier::rlimit(80)]
#[verifier::spinoff_prover]
pub proof fn lemma_deferred_arity(s: Seq<Tok>, end_span: usize)
    requires
        s.len() == 2,
        is_ident(s[0]),
        is_group(s[1], Delim::Brace),
        is_deferred_name(ident_text(s[0])),
    ensures
        group_inner(s[1]).len() == 0 ==> markup_spec(s, end_span) == err::<ElementV>(
            s[0].span_of(),
            ErrorKind::DeferredArity,
        ),
        ({
            let body = group_inner(s[1]);
            let c = child_spec(body, 0, s[1].span_of());
            let q = after_comma(body, c->Ok_0.1);
            body.len() > 0 && c is Ok && 0 < c->Ok_0.1 <= body.len() && q < body.len()
                ==> markup_spec(s, end_span) == err::<ElementV>(
                body[q].span_of(),
                ErrorKind::DeferredArity,
            )
        }),
        ({
            let body = group_inner(s[1]);
            let c = child_spec(body, 0, s[1].span_of());
            let q = after_comma(body, c->Ok_0.1);
            body.len() > 0 && c is Ok && 0 < c->Ok_0.1 <= body.len() && q == body.len() && (
            c->Ok_0.0 is Element || c->Ok_0.0 is Expression) ==> markup_spec(s, end_span) == Ok::<
                ElementV,
                SyntaxError,
            >(ElementV::Deferred(ident_text(s[0]), Box::new(c->Ok_0.0))) && gen_element(
                markup_spec(s, end_span)->Ok_0,
            ) == seq![
                TokV::Ident(ident_text(s[0])),
                TokV::Group(
                    Delim::Paren,
                    seq![
                        TokV::Group(Delim::Paren, deferred_value(c->Ok_0.0)),
                        dot(),
                        TokV::Ident("into_any_element"@),
                        TokV::Group(Delim::Paren, Seq::empty()),
                    ],
                ),
            ]
        }),
{
    reveal(markup_spec);
    assert(!is_punct(s[0], '<'));
    assert(is_tag_name(ident_text(s[0])));
    assert(tag_with_body(s, 0));
    assert(root_spec(s, end_span) == element_spec(s, 0));
}

proof fn lemma_tag_attrs_end(s: Seq<Tok>, p: int)
    requires
        tag_attrs_spec(s, p) is Ok,
    ensures
        tag_attrs_spec(s, p)->Ok_0.1 >= p,
    decreases s.len() - p,
{
    if 0 <= p < s.len() && is_ident(s[p]) {
        match tag_attr_spec(s, p) {
            Ok((_, q)) => {
                if q > p {
                    lemma_tag_attrs_end(s, q);
                }
            },
            Err(_) => {},
        }
    }
}

proof fn lemma_tag_children_end(s: Seq<Tok>, q: int, os: usize)
    requires
        tag_children_spec(s, q, os) is Ok,
    ensures
        tag_children_spec(s, q, os)->Ok_0.1 >= q,
    decreases s.len() - q,
{
    if 0 <= q < s.len() && !is_close_start(s, q) {
        match tag_child_spec(s, q, os) {
            Ok((_, p)) => {
                if q < p <= s.len() {
                    lemma_tag_children_end(s, p, os);
                }
            },
            Err(_) => {},
        }
    }
}

/// In a tag element `<name attrs> children </close>`, a closing name other
/// than the opening one is rejected with a mismatched-close error located at
/// the closing name, which also records where the opening name stands; the
/// same name, followed by `>`, closes the element.
#[verifier::spinoff_prover]
#[verifier::rlimit(80)]
pub proof fn lemma_close_tag_must_match(s: Seq<Tok>, pos: int, end_span: usize)
    requires
        0 <= pos,
        pos + 1 < s.len(),
        is_punct(s[pos], '<'),
        is_ident(s[pos + 1]),
        is_tag_name(ident_text(s[pos + 1])),
        !is_deferred_name(ident_text(s[pos + 1])),
        tag_attrs_spec(s, pos + 2) is Ok,
        tag_attrs_spec(s, pos + 2)->Ok_0.1 < s.len(),
        is_punct(s[tag_attrs_spec(s, pos + 2)->Ok_0.1], '>'),
        tag_children_spec(s, tag_attrs_spec(s, pos + 2)->Ok_0.1 + 1, s[pos].span_of()) is Ok,
        ({
            let q = tag_children_spec(
                s,
                tag_attrs_spec(s, pos + 2)->Ok_0.1 + 1,
                s[pos].span_of(),
            )->Ok_0.1;
            q + 2 < s.len() && is_ident(s[q + 2])
        }),
    ensures
        ({
            let p = tag_attrs_spec(s, pos + 2)->Ok_0.1;
            let cs = tag_children_spec(s, p + 1, s[pos].span_of());
            let q = cs->Ok_0.1;
            let e = err::<(ElementV, int)>(
                s[q + 2].span_of(),
                ErrorKind::MismatchedClose { open: s[pos + 1].span_of() },
            );
            &&& ident_text(s[q + 2]) != ident_text(s[pos + 1]) ==> tag_element_spec(
                s,
                pos,
                end_span,
            ) == e && (pos == 0 ==> markup_spec(s, end_span) == err::<ElementV>(
                s[q + 2].span_of(),
                ErrorKind::MismatchedClose { open: s[pos + 1].span_of() },
            ))
            &&& ident_text(s[q + 2]) == ident_text(s[pos + 1]) && q + 3 < s.len() && is_punct(
                s[q + 3],
                '>',
            ) ==> tag_element_spec(s, pos, end_span) == Ok::<(ElementV, int), SyntaxError>(
                (
                    tag_element_of(
                        s[pos + 1],
                        Some(ident_text(s[q + 2])),
                        tag_attrs_spec(s, pos + 2)->Ok_0.0,
                        cs->Ok_0.0,
                    ),
                    q + 4,
                ),
            )
        }),
{
    reveal(markup_spec);
    let p = tag_attrs_spec(s, pos + 2)->Ok_0.1;
    lemma_tag_attrs_end(s, pos + 2);
    lemma_tag_children_end(s, p + 1, s[pos].span_of());
    assert(!is_punct(s[p], '/'));
    if pos == 0 {
        assert(root_spec(s, end_span) == tag_element_spec(s, 0, end_span));
    }
}

/// A flag compiles to a call with no argument, a value to a call with that
/// one argument, and a tuple value or two values to a call with two
/// arguments in their order.
pub proof fn lemma_attribute_arity(k: Seq<char>, v: Seq<TokV>, e1: Seq<TokV>, e2: Seq<TokV>)
    requires
        !is_tuple(v),
    ensures
        attr_call(AttributeV::Flag(k)) == call_toks(k, Seq::empty()),
        attr_call(AttributeV::KeyValue(k, v)) == call_toks(k, v),
        attr_call(
            AttributeV::KeyValue(k, seq![TokV::Group(Delim::Paren, e1 + seq![comma()] + e2)]),
        ) == call_toks(k, e1 + seq![comma()] + e2),
        attr_call(AttributeV::KeyMultiValue(k, seq![e1, e2])) == call_toks(
            k,
            e1 + seq![comma()] + e2,
        ),
{
    let t = seq![TokV::Group(Delim::Paren, e1 + seq![comma()] + e2)];
    assert(is_comma(t[0]->Group_1[e1.len() as int]));
    assert(is_tuple(t));
    let vs = seq![e1, e2];
    assert(vs.drop_last() =~= seq![e1]);
    assert(comma_join(seq![e1]) == e1);
    assert(comma_join(vs) =~= e1 + seq![comma()] + e2);
}

/// One plain child is one `.child(..)` call; a spread between two plain
/// children is a `.children(..)` call between their two `.child(..)` calls,
/// in that order.
pub proof fn lemma_spread_keeps_order(h: Seq<TokV>, items: Seq<TokV>, f: Seq<TokV>)
    ensures
        child_calls(seq![ChildV::Expression(h)]) == call_toks("child"@, h),
        child_calls(seq![ChildV::Expression(h), ChildV::Spread(items), ChildV::Expression(f)])
            == call_toks("child"@, h) + call_toks("children"@, items) + call_toks("child"@, f),
{
    let one = seq![ChildV::Expression(h)];
    assert(one.drop_last() =~= Seq::<ChildV>::empty());
    assert(child_calls(Seq::<ChildV>::empty()) == Seq::<TokV>::empty());
    assert(child_call(ChildV::Expression(h)) == call_toks("child"@, h));
    assert(child_call(ChildV::Expression(f)) == call_toks("child"@, f));
    assert(child_call(ChildV::Spread(items)) == call_toks("children"@, items));
    assert(child_calls(one) == child_calls(one.drop_last()) + child_call(one.last()));
    assert(child_calls(one) =~= call_toks("child"@, h));
    let three = seq![ChildV::Expression(h), ChildV::Spread(items), ChildV::Expression(f)];
    let two = seq![ChildV::Expression(h), ChildV::Spread(items)];
    assert(three.drop_last() =~= two);
    assert(two.drop_last() =~= one);
    assert(child_calls(two) == child_calls(two.drop_last()) + child_call(two.last()));
    assert(child_calls(three) == child_calls(three.drop_last()) + child_call(three.last()));
    assert(child_calls(two) =~= call_toks("child"@, h) + call_toks("children"@, items));
    assert(child_calls(three) =~= call_toks("child"@, h) + call_toks("children"@, items)
        + call_toks("child"@, f));
}

/// The depth of `<` `>` nesting after the tokens `s[j..i]`.
pub open spec fn depth_between(s: Seq<Tok>, j: int, i: int) -> int
    decreases i - j,
{
    if i <= j {
        0
    } else {
        step_depth(depth_between(s, j, i - 1), s[i - 1])
    }
}

proof fn lemma_chain_runs_to_end(s: Seq<Tok>, j: int, i: int)
    requires
        0 <= j <= i <= s.len(),
        forall|m: int|
            j <= m < s.len() && is_punct(s[m], ',') ==> #[trigger] depth_between(s, j, m) > 0,
    ensures
        chain_end_from(s, i, depth_between(s, j, i)) == s.len(),
    decreases s.len() - i,
{
    if i < s.len() {
        lemma_chain_runs_to_end(s, j, i + 1);
        assert(depth_between(s, j, i + 1) == step_depth(depth_between(s, j, i), s[i]));
    }
}

/// A method chain runs on past every comma that stands inside angle
/// brackets, so `.map::<A, B>(f)` is kept whole with its generic arguments:
/// the child holds every token after the dot, and the output splices them
/// into the chain unchanged.
pub proof fn lemma_chain_keeps_generics(s: Seq<Tok>, pos: int, end_span: usize)
    requires
        0 <= pos,
        pos + 1 < s.len(),
        is_punct(s[pos], '.'),
        !is_joint(s[pos]),
        forall|m: int|
            pos + 1 <= m < s.len() && is_punct(s[m], ',') ==> #[trigger] depth_between(
                s,
                pos + 1,
                m,
            ) > 0,
    ensures
        chain_end(s, pos + 1) == s.len(),
        child_spec(s, pos, end_span) == Ok::<(ChildV, int), SyntaxError>(
            (ChildV::MethodChain(toks_view(s.subrange(pos + 1, s.len() as int))), s.len() as int),
        ),
        child_call(ChildV::MethodChain(toks_view(s.subrange(pos + 1, s.len() as int)))) == seq![
            dot(),
        ] + toks_view(s.subrange(pos + 1, s.len() as int)),
{
    lemma_chain_runs_to_end(s, pos + 1, pos + 1);
}

proof fn lemma_child_calls_add(a: Seq<ChildV>, b: Seq<ChildV>)
    ensures
        child_calls(a + b) == child_calls(a) + child_calls(b),
    decreases b.len(),
{
    if b.len() == 0 {
        assert(a + b =~= a);
        assert(child_calls(a) + child_calls(b) =~= child_calls(a));
    } else {
        lemma_child_calls_add(a, b.drop_last());
        assert((a + b).drop_last() =~= a + b.drop_last());
        assert(child_calls(a + b) =~= child_calls(a) + child_calls(b));
    }
}

/// An expression child adds `.child(x)` and nothing else, whatever its
/// tokens: the output of one compilation, used as a child of another,
/// takes part in the outer structure exactly as any other expression.
pub proof fn lemma_nested_output_is_opaque(cs: Seq<ChildV>, i: int, x: Seq<TokV>)
    requires
        0 <= i < cs.len(),
    ensures
        child_calls(cs.update(i, ChildV::Expression(x))) == child_calls(cs.take(i)) + call_toks(
            "child"@,
            x,
        ) + child_calls(cs.skip(i + 1)),
{
    let one = seq![ChildV::Expression(x)];
    assert(child_calls(Seq::<ChildV>::empty()) == Seq::<TokV>::empty());
    assert(child_call(ChildV::Expression(x)) == call_toks("child"@, x));
    assert(child_calls(one) == child_calls(one.drop_last()) + child_call(one.last()));
    assert(cs.update(i, ChildV::Expression(x)) =~= cs.take(i) + one + cs.skip(i + 1));
    lemma_child_calls_add(cs.take(i) + one, cs.skip(i + 1));
    lemma_child_calls_add(cs.take(i), one);
    assert(one.drop_last() =~= Seq::<ChildV>::empty());
    assert(child_calls(one) =~= call_toks("child"@, x));
}

/// The element `e` with its `i`-th child replaced by `c`.
pub open spec fn with_child(e: ElementV, i: int, c: ChildV) -> ElementV {
    match e {
        ElementV::Native(n, cl, a, cs) => ElementV::Native(n, cl, a, cs.update(i, c)),
        ElementV::Component(n, cl, a, cs) => ElementV::Component(n, cl, a, cs.update(i, c)),
        ElementV::Expression(x, a, cs) => ElementV::Expression(x, a, cs.update(i, c)),
        ElementV::Deferred(_, _) => e,
    }
}

/// Whatever tokens an expression child holds (the verbatim text of a nested
/// invocation, or a plain name bound to that invocation's output), the
/// element compiles to the same head, capability check and calls, in the
/// same order, and differs only in the argument of that child's `.child(..)`.
pub proof fn lemma_nested_invocation_keeps_outer_structure(e: ElementV, i: int, x: Seq<TokV>)
    requires
        !(e is Deferred),
        0 <= i < children_of(e).len(),
    ensures
        gen_element(with_child(e, i, ChildV::Expression(x))) == checked_head(
            type_of(e),
            base_of(e) + attr_calls(attrs_of(e)),
            is_checked(e),
        ) + child_calls(children_of(e).take(i)) + call_toks("child"@, x) + child_calls(
            children_of(e).skip(i + 1),
        ),
{
    let cs = children_of(e);
    lemma_nested_output_is_opaque(cs, i, x);
    assert(cs.update(i, ChildV::Expression(x)).len() == cs.len());
    let g = gen_element(with_child(e, i, ChildV::Expression(x)));
    assert(g =~= checked_head(type_of(e), base_of(e) + attr_calls(attrs_of(e)), is_checked(e))
        + child_calls(cs.take(i)) + call_toks("child"@, x) + child_calls(cs.skip(i + 1)));
}

} // verus!
