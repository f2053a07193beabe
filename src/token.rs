//! The token model: identifiers, punctuation, literals and delimited groups,
//! each tagged with the source position it came from.
use vstd::prelude::*;

verus! {

broadcast use vstd::std_specs::vec::group_vec_axioms, vstd::seq::group_seq_axioms;

/// The delimiter of a token group.
#[derive(Clone, Copy, Debug, PartialEq, Eq, Structural)]
pub enum Delim {
    Paren,
    Bracket,
    Brace,
    Invisible,
}

/// One token tree. `span` is the source position used in diagnostics.
#[derive(Debug)]
pub enum Tok {
    Ident { text: String, span: usize },
    /// `joint` is set when the next character follows with no space (`::`, `..`).
    Punct { ch: char, joint: bool, span: usize },
    Lit { text: String, span: usize },
    Group { delim: Delim, inner: Vec<Tok>, span: usize },
}

/// The mathematical value of a token tree: what it says, without its position.
pub enum TokV {
    Ident(Seq<char>),
    Punct(char, bool),
    Lit(Seq<char>),
    Group(Delim, Seq<TokV>),
}

impl Tok {
    pub open spec fn view(&self) -> TokV
        decreases self,
    {
        match self {
            Tok::Ident { text, .. } => TokV::Ident(text@),
            Tok::Punct { ch, joint, .. } => TokV::Punct(*ch, *joint),
            Tok::Lit { text, .. } => TokV::Lit(text@),
            Tok::Group { delim, inner, .. } => TokV::Group(*delim, toks_view(inner@)),
        }
    }

    pub open spec fn span_of(&self) -> usize {
        match self {
            Tok::Ident { span, .. } => *span,
            Tok::Punct { span, .. } => *span,
            Tok::Lit { span, .. } => *span,
            Tok::Group { span, .. } => *span,
        }
    }

    /// The source position of this token.
    pub fn span(&self) -> (r: usize)
        ensures
            r == self.span_of(),
    {
        match self {
            Tok::Ident { span, .. } => *span,
            Tok::Punct { span, .. } => *span,
            Tok::Lit { span, .. } => *span,
            Tok::Group { span, .. } => *span,
        }
    }
}

/// The view of a token sequence, element by element.
pub open spec fn toks_view(s: Seq<Tok>) -> Seq<TokV>
    decreases s,
{
    if s.len() == 0 {
        Seq::empty()
    } else {
        toks_view(s.drop_last()).push(s.last().view())
    }
}

pub proof fn lemma_toks_view(s: Seq<Tok>)
    ensures
        toks_view(s).len() == s.len(),
        forall|i: int| 0 <= i < s.len() ==> #[trigger] toks_view(s)[i] == s[i].view(),
    decreases s.len(),
{
    if s.len() > 0 {
        lemma_toks_view(s.drop_last());
    }
}

pub proof fn lemma_toks_view_push(s: Seq<Tok>, t: Tok)
    ensures
        toks_view(s.push(t)) == toks_view(s).push(t.view()),
{
    assert(s.push(t).drop_last() =~= s);
}

/// A copy of a token tree with the same view.
pub fn copy_tok(t: &Tok) -> (r: Tok)
    ensures
        r.view() == t.view(),
        r.span_of() == t.span_of(),
    decreases t,
{
    match t {
        Tok::Ident { text, span } => Tok::Ident { text: text.clone(), span: *span },
        Tok::Punct { ch, joint, span } => Tok::Punct { ch: *ch, joint: *joint, span: *span },
        Tok::Lit { text, span } => Tok::Lit { text: text.clone(), span: *span },
        Tok::Group { delim, inner, span } => {
            let c = copy_range(inner, 0, inner.len());
            proof {
                assert(inner@.subrange(0, inner@.len() as int) =~= inner@);
            }
            Tok::Group { delim: *delim, inner: c, span: *span }
        },
    }
}

/// A copy of the tokens `s[lo..hi]`.
pub fn copy_range(s: &Vec<Tok>, lo: usize, hi: usize) -> (r: Vec<Tok>)
    requires
        lo <= hi <= s@.len(),
    ensures
        toks_view(r@) == toks_view(s@.subrange(lo as int, hi as int)),
    decreases s,
{
    let mut r: Vec<Tok> = Vec::new();
    let mut i: usize = lo;
    while i < hi
        invariant
            lo <= i <= hi <= s@.len(),
            toks_view(r@) == toks_view(s@.subrange(lo as int, i as int)),
        decreases hi - i,
    {
        proof {
            assert(decreases_to!(s => s@));
            assert(decreases_to!(s@ => s@[i as int]));
        }
        let c = copy_tok(&s[i]);
        proof {
            lemma_toks_view_push(r@, c);
            lemma_toks_view_push(s@.subrange(lo as int, i as int), s@[i as int]);
            assert(s@.subrange(lo as int, i as int).push(s@[i as int]) =~= s@.subrange(
                lo as int,
                i + 1,
            ));
        }
        r.push(c);
        i = i + 1;
    }
    r
}

} // verus!
