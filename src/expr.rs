//! Where a host-language expression ends: tokens are rendered as text and
//! handed to syn's expression grammar.
use vstd::prelude::*;
use vstd::string::StrSliceExecFns;
use crate::token::{Delim, Tok, TokV, toks_view, lemma_toks_view_push};

verus! {

broadcast use vstd::std_specs::vec::group_vec_axioms, vstd::seq::group_seq_axioms;

pub open spec fn delim_open(d: Delim) -> Seq<char> {
    match d {
        Delim::Paren => seq!['('],
        Delim::Bracket => seq!['['],
        Delim::Brace => seq!['{'],
        Delim::Invisible => Seq::empty(),
    }
}

pub open spec fn delim_close(d: Delim) -> Seq<char> {
    match d {
        Delim::Paren => seq![')'],
        Delim::Bracket => seq![']'],
        Delim::Brace => seq!['}'],
        Delim::Invisible => Seq::empty(),
    }
}

/// The source text of one token tree: each token is followed by a space,
/// but for a punctuation character joined to the next one.
pub open spec fn tok_text(t: TokV) -> Seq<char>
    decreases t,
{
    match t {
        TokV::Ident(s) => s.push(' '),
        TokV::Punct(c, joint) => if joint {
            seq![c]
        } else {
            seq![c, ' ']
        },
        TokV::Lit(s) => s.push(' '),
        TokV::Group(d, inner) => delim_open(d) + text_of(inner) + delim_close(d).push(' '),
    }
}

/// The source text of a token sequence.
pub open spec fn text_of(s: Seq<TokV>) -> Seq<char>
    decreases s,
{
    if s.len() == 0 {
        Seq::empty()
    } else {
        text_of(s.drop_last()) + tok_text(s.last())
    }
}

/// Whether syn reads the whole text as one expression.
pub uninterp spec fn parses_as_expr(text: Seq<char>) -> bool;

/// Relies on syn::parse_str::<syn::Expr>: it succeeds exactly when the whole
/// text is one Rust expression, which depends on the text alone.
#[verifier::external_body]
fn is_expr_text(text: &Vec<char>) -> (r: bool)
    ensures
        r == parses_as_expr(text@),
{
    let s: String = text.iter().collect();
    syn::parse_str::<syn::Expr>(&s).is_ok()
}

fn push_delim(d: Delim, open: bool, out: &mut Vec<char>)
    ensures
        final(out)@ == old(out)@ + (if open {
            delim_open(d)
        } else {
            delim_close(d)
        }),
{
    let c: Option<char> = match d {
        Delim::Paren => Some(if open { '(' } else { ')' }),
        Delim::Bracket => Some(if open { '[' } else { ']' }),
        Delim::Brace => Some(if open { '{' } else { '}' }),
        Delim::Invisible => None,
    };
    match c {
        Some(c) => out.push(c),
        None => {},
    }
    proof {
        assert(final(out)@ =~= old(out)@ + (if open {
            delim_open(d)
        } else {
            delim_close(d)
        }));
    }
}

fn push_text(text: &String, out: &mut Vec<char>)
    ensures
        final(out)@ == old(out)@ + text@,
{
    let s = text.as_str();
    let n = s.unicode_len();
    let mut i: usize = 0;
    while i < n
        invariant
            n == s@.len(),
            s@ == text@,
            i <= n,
            out@ == old(out)@ + s@.subrange(0, i as int),
        decreases n - i,
    {
        let c = s.get_char(i);
        out.push(c);
        i = i + 1;
        proof {
            assert(out@ =~= old(out)@ + s@.subrange(0, i as int));
        }
    }
    proof {
        assert(s@.subrange(0, n as int) =~= s@);
    }
}

/// Appends the text of one token tree.
pub fn render_tok(t: &Tok, out: &mut Vec<char>)
    ensures
        final(out)@ == old(out)@ + tok_text(t.view()),
    decreases t,
{
    match t {
        Tok::Ident { text, .. } => {
            push_text(text, out);
            out.push(' ');
        },
        Tok::Punct { ch, joint, .. } => {
            out.push(*ch);
            if !*joint {
                out.push(' ');
            }
        },
        Tok::Lit { text, .. } => {
            push_text(text, out);
            out.push(' ');
        },
        Tok::Group { delim, inner, .. } => {
            push_delim(*delim, true, out);
            render_range(inner, 0, inner.len(), out);
            proof {
                assert(inner@.subrange(0, inner@.len() as int) =~= inner@);
            }
            push_delim(*delim, false, out);
            out.push(' ');
        },
    }
    proof {
        assert(final(out)@ =~= old(out)@ + tok_text(t.view()));
    }
}

/// Appends the text of the tokens `s[lo..hi]`.
pub fn render_range(s: &Vec<Tok>, lo: usize, hi: usize, out: &mut Vec<char>)
    requires
        lo <= hi <= s@.len(),
    ensures
        final(out)@ == old(out)@ + text_of(toks_view(s@.subrange(lo as int, hi as int))),
    decreases s,
{
    let mut i: usize = lo;
    while i < hi
        invariant
            lo <= i <= hi <= s@.len(),
            out@ == old(out)@ + text_of(toks_view(s@.subrange(lo as int, i as int))),
        decreases hi - i,
    {
        proof {
            assert(decreases_to!(s => s@));
            assert(decreases_to!(s@ => s@[i as int]));
        }
        render_tok(&s[i], out);
        proof {
            let a = s@.subrange(lo as int, i as int);
            let b = s@.subrange(lo as int, i + 1);
            assert(a.push(s@[i as int]) =~= b);
            lemma_toks_view_push(a, s@[i as int]);
            assert(toks_view(b).drop_last() =~= toks_view(a));
        }
        i = i + 1;
    }
}

/// The end of the longest run `s[pos..k]` with `pos < k <= upto` that syn
/// reads as one expression; `pos` where there is none.
pub open spec fn expr_end_below(s: Seq<Tok>, pos: int, upto: int) -> int
    decreases upto - pos,
{
    if upto <= pos {
        pos
    } else if parses_as_expr(text_of(toks_view(s.subrange(pos, upto)))) {
        upto
    } else {
        expr_end_below(s, pos, upto - 1)
    }
}

/// The end of the longest expression that starts at `pos`; `pos` where none does.
pub open spec fn expr_end(s: Seq<Tok>, pos: int) -> int {
    expr_end_below(s, pos, s.len() as int)
}

pub proof fn lemma_expr_end_range(s: Seq<Tok>, pos: int, upto: int)
    requires
        pos <= upto,
    ensures
        pos <= expr_end_below(s, pos, upto) <= upto,
    decreases upto - pos,
{
    if upto > pos {
        lemma_expr_end_range(s, pos, upto - 1);
    }
}

/// Finds where the longest expression that starts at `pos` ends.
pub fn find_expr_end(s: &Vec<Tok>, pos: usize) -> (r: usize)
    requires
        pos <= s@.len(),
    ensures
        r == expr_end(s@, pos as int),
        pos <= r <= s@.len(),
{
    proof {
        lemma_expr_end_range(s@, pos as int, s@.len() as int);
    }
    let mut k: usize = s.len();
    while k > pos
        invariant
            pos <= k <= s@.len(),
            expr_end(s@, pos as int) == expr_end_below(s@, pos as int, k as int),
        decreases k - pos,
    {
        let mut text: Vec<char> = Vec::new();
        render_range(s, pos, k, &mut text);
        proof {
            assert(text@ =~= text_of(toks_view(s@.subrange(pos as int, k as int))));
        }
        if is_expr_text(&text) {
            return k;
        }
        k = k - 1;
    }
    pos
}

} // verus!
