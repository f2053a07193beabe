//! The syntax tree of a markup invocation, and its mathematical view.
use vstd::prelude::*;
use crate::token::{Tok, TokV, toks_view};

verus! {

broadcast use vstd::std_specs::vec::group_vec_axioms, vstd::seq::group_seq_axioms;

/// An identifier with the position it was read at.
#[derive(Debug)]
pub struct Ident {
    pub text: String,
    pub span: usize,
}

/// The compilation unit: exactly one root element.
#[derive(Debug)]
pub struct Markup {
    pub element: Element,
}

/// An element of the tree.
#[derive(Debug)]
pub enum Element {
    /// A built-in tag: `div`, `svg` or `anchored`.
    Native(NativeElement),
    /// `deferred { child }`.
    Deferred(DeferredElement),
    /// An uppercase tag, built with its `new()` constructor.
    Component(ComponentElement),
    /// Any expression used as the tag itself.
    Expression(ExprElement),
}

#[derive(Debug)]
pub struct NativeElement {
    pub open_name: Ident,
    /// The name in the closing tag, when the element has one.
    pub close_name: Option<Ident>,
    pub attributes: Vec<Attribute>,
    pub children: Vec<Child>,
}

#[derive(Debug)]
pub struct DeferredElement {
    pub open_name: Ident,
    pub child: Box<Child>,
}

#[derive(Debug)]
pub struct ComponentElement {
    pub open_name: Ident,
    /// The name in the closing tag, when the element has one.
    pub close_name: Option<Ident>,
    pub attributes: Vec<Attribute>,
    pub children: Vec<Child>,
}

#[derive(Debug)]
pub struct ExprElement {
    pub expr: Vec<Tok>,
    pub attributes: Vec<Attribute>,
    pub children: Vec<Child>,
}

/// An attribute of an element.
#[derive(Debug)]
pub enum Attribute {
    /// `flex`: a call with no argument.
    Flag(Ident),
    /// `w: px(200.0)`: a call with the value as argument; a tuple value gives its items.
    KeyValue { key: Ident, value: Vec<Tok> },
    /// A call with each of two or more values as an argument, in order.
    KeyMultiValue { key: Ident, values: Vec<Vec<Tok>> },
}

/// A child of an element.
#[derive(Debug)]
pub enum Child {
    Element(Element),
    /// One child value.
    Expression(Vec<Tok>),
    /// `..items`: an iterable of children.
    Spread(Vec<Tok>),
    /// `.method(..)`: calls spliced into the builder chain (tokens after the dot).
    MethodChain(Vec<Tok>),
}

/// The view of an element: names as text, expressions as token views.
pub enum ElementV {
    /// Opening name, closing name, attributes, children.
    Native(Seq<char>, Option<Seq<char>>, Seq<AttributeV>, Seq<ChildV>),
    Deferred(Seq<char>, Box<ChildV>),
    Component(Seq<char>, Option<Seq<char>>, Seq<AttributeV>, Seq<ChildV>),
    Expression(Seq<TokV>, Seq<AttributeV>, Seq<ChildV>),
}

pub enum AttributeV {
    Flag(Seq<char>),
    KeyValue(Seq<char>, Seq<TokV>),
    KeyMultiValue(Seq<char>, Seq<Seq<TokV>>),
}

pub enum ChildV {
    Element(ElementV),
    Expression(Seq<TokV>),
    Spread(Seq<TokV>),
    MethodChain(Seq<TokV>),
}

pub open spec fn exprs_view(s: Seq<Vec<Tok>>) -> Seq<Seq<TokV>>
    decreases s.len(),
{
    if s.len() == 0 {
        Seq::empty()
    } else {
        exprs_view(s.drop_last()).push(toks_view(s.last()@))
    }
}

impl Attribute {
    pub open spec fn view(&self) -> AttributeV {
        match self {
            Attribute::Flag(k) => AttributeV::Flag(k.text@),
            Attribute::KeyValue { key, value } => AttributeV::KeyValue(key.text@, toks_view(value@)),
            Attribute::KeyMultiValue { key, values } => AttributeV::KeyMultiValue(
                key.text@,
                exprs_view(values@),
            ),
        }
    }
}

pub open spec fn attrs_view(s: Seq<Attribute>) -> Seq<AttributeV>
    decreases s.len(),
{
    if s.len() == 0 {
        Seq::empty()
    } else {
        attrs_view(s.drop_last()).push(s.last().view())
    }
}

pub open spec fn close_view(c: Option<Ident>) -> Option<Seq<char>> {
    match c {
        Some(i) => Some(i.text@),
        None => None,
    }
}

impl Element {
    pub open spec fn view(&self) -> ElementV
        decreases self,
    {
        match self {
            Element::Native(n) => ElementV::Native(
                n.open_name.text@,
                close_view(n.close_name),
                attrs_view(n.attributes@),
                children_view(n.children@),
            ),
            Element::Deferred(d) => ElementV::Deferred(
                d.open_name.text@,
                Box::new((*d.child).view()),
            ),
            Element::Component(c) => ElementV::Component(
                c.open_name.text@,
                close_view(c.close_name),
                attrs_view(c.attributes@),
                children_view(c.children@),
            ),
            Element::Expression(x) => ElementV::Expression(
                toks_view(x.expr@),
                attrs_view(x.attributes@),
                children_view(x.children@),
            ),
        }
    }
}

impl Child {
    pub open spec fn view(&self) -> ChildV
        decreases self,
    {
        match self {
            Child::Element(e) => ChildV::Element(e.view()),
            Child::Expression(x) => ChildV::Expression(toks_view(x@)),
            Child::Spread(x) => ChildV::Spread(toks_view(x@)),
            Child::MethodChain(x) => ChildV::MethodChain(toks_view(x@)),
        }
    }
}

pub open spec fn children_view(s: Seq<Child>) -> Seq<ChildV>
    decreases s,
{
    if s.len() == 0 {
        Seq::empty()
    } else {
        children_view(s.drop_last()).push(s.last().view())
    }
}

impl Markup {
    pub open spec fn view(&self) -> ElementV {
        self.element.view()
    }
}

pub proof fn lemma_attrs_view_push(s: Seq<Attribute>, a: Attribute)
    ensures
        attrs_view(s.push(a)) == attrs_view(s).push(a.view()),
{
    assert(s.push(a).drop_last() =~= s);
}

pub proof fn lemma_children_view_push(s: Seq<Child>, c: Child)
    ensures
        children_view(s.push(c)) == children_view(s).push(c.view()),
{
    assert(s.push(c).drop_last() =~= s);
}

pub proof fn lemma_exprs_view_push(s: Seq<Vec<Tok>>, x: Vec<Tok>)
    ensures
        exprs_view(s.push(x)) == exprs_view(s).push(toks_view(x@)),
{
    assert(s.push(x).drop_last() =~= s);
}

pub proof fn lemma_children_view(s: Seq<Child>)
    ensures
        children_view(s).len() == s.len(),
        forall|i: int| 0 <= i < s.len() ==> #[trigger] children_view(s)[i] == s[i].view(),
    decreases s.len(),
{
    if s.len() > 0 {
        lemma_children_view(s.drop_last());
    }
}

pub proof fn lemma_exprs_view(s: Seq<Vec<Tok>>)
    ensures
        exprs_view(s).len() == s.len(),
        forall|i: int| 0 <= i < s.len() ==> #[trigger] exprs_view(s)[i] == toks_view(s[i]@),
    decreases s.len(),
{
    if s.len() > 0 {
        lemma_exprs_view(s.drop_last());
    }
}

pub proof fn lemma_attrs_view_add(a: Seq<Attribute>, b: Seq<Attribute>)
    ensures
        attrs_view(a + b) == attrs_view(a) + attrs_view(b),
{
    lemma_attrs_view(a);
    lemma_attrs_view(b);
    lemma_attrs_view(a + b);
    assert(attrs_view(a + b) =~= attrs_view(a) + attrs_view(b));
}

pub proof fn lemma_attrs_view(s: Seq<Attribute>)
    ensures
        attrs_view(s).len() == s.len(),
        forall|i: int| 0 <= i < s.len() ==> #[trigger] attrs_view(s)[i] == s[i].view(),
    decreases s.len(),
{
    if s.len() > 0 {
        lemma_attrs_view(s.drop_last());
    }
}

} // verus!
