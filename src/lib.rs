//! A compiler for an inline UI markup language: it parses a tree of
//! elements, attributes and children from tokens and generates the
//! equivalent chain of constructor and builder-method calls.
pub mod ast;
pub mod codegen;
pub mod expr;
pub mod laws;
pub mod parser;
pub mod token;

pub use ast::{
    Attribute, Child, ComponentElement, DeferredElement, Element, ExprElement, Ident, Markup,
    NativeElement,
};
pub use parser::{ErrorKind, SyntaxError};
pub use token::{Delim, Tok, TokV};

use vstd::prelude::*;
use codegen::gen_element;
use parser::markup_spec;
use token::toks_view;

verus! {

/// Compiles the tokens of one invocation into the tokens of the expression
/// it stands for, or reports the first syntax error.
pub fn ui(input: &Vec<Tok>) -> (r: Result<Vec<Tok>, SyntaxError>)
    ensures
        match r {
            Ok(out) => markup_spec(input@, 0) is Ok && toks_view(out@) == gen_element(
                markup_spec(input@, 0)->Ok_0,
            ),
            Err(e) => markup_spec(input@, 0) == Err::<ast::ElementV, SyntaxError>(e),
        },
{
    match Markup::parse(input, 0) {
        Ok(markup) => Ok(markup.generate()),
        Err(e) => Err(e),
    }
}

} // verus!
