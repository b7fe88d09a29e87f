//! The scene-description language: scanner, parser and interpreter.

pub mod docs;
pub mod interpreter;
pub mod parser;
pub mod source;
pub mod tokenizer;

use std::rc::Rc;
use vstd::prelude::*;
use crate::openscad::interpreter::{
    are_leaves, errors_of, instances_of, openscad_interpret, InterpretError, ModuleInstanceTree,
};
use crate::openscad::parser::{openscad_parse, program_from, ParseError};
use crate::openscad::tokenizer::{
    openscad_tokenize_with_positions, spanned_tokens, TokenWithPosition,
};
use crate::text::kinds_of;

verus! {

/// An item of the syntax with the offsets, in characters, between which it
/// stands in the text.
#[derive(Debug, PartialEq)]
pub struct WithPosition<T> {
    pub item: T,
    pub start: usize,
    pub end: usize,
}

impl<T> WithPosition<T> {
    /// `item`, standing between `start` and `end`.
    pub fn new(item: T, start: usize, end: usize) -> (r: Self)
        ensures
            r.item == item,
            r.start == start,
            r.end == end,
    {
        Self { item, start, end }
    }
}

/// The views of the items of a sequence.
pub open spec fn views<T: View>(items: Seq<T>) -> Seq<T::V> {
    items.map_values(|item: T| item@)
}

impl<T: View> View for WithPosition<T> {
    type V = WithPosition<T::V>;

    open spec fn view(&self) -> WithPosition<T::V> {
        WithPosition { item: self.item@, start: self.start, end: self.end }
    }
}

/// Why a scene description gave no scene.
#[derive(Debug)]
pub enum OpenscadError {
    /// The file, named first, could not be read; the reason is given second.
    FileReadError(String, String),
    /// The text leaves the grammar at these places.
    ParseErrors(Vec<ParseError>),
    /// These statements could not be carried out.
    InterpretErrors(Vec<InterpretError>),
}

/// The instances of modules that the tokens ask for.
///
/// The tokens are parsed and the statements interpreted. Where the parser
/// finds errors, they are returned and nothing is interpreted; where the
/// interpreter finds errors, they are returned.
pub fn openscad_tokens_to_instances(tokens: Vec<TokenWithPosition>) -> (result: Result<
    Vec<Rc<ModuleInstanceTree>>,
    OpenscadError,
>)
    ensures
        ({
            let program = program_from(views(tokens@), 0);
            match result {
                Ok(trees) => {
                    &&& program.errors.len() == 0
                    &&& errors_of(program.statements).len() == 0
                    &&& are_leaves(trees@, instances_of(program.statements))
                },
                Err(OpenscadError::ParseErrors(errors)) => {
                    &&& program.errors.len() > 0
                    &&& views(errors@) == program.errors
                },
                Err(OpenscadError::InterpretErrors(errors)) => {
                    &&& program.errors.len() == 0
                    &&& errors_of(program.statements).len() > 0
                    &&& views(errors@) == errors_of(program.statements)
                },
                Err(OpenscadError::FileReadError(_, _)) => false,
            }
        }),
{
    let parse_results = openscad_parse(tokens);
    if !parse_results.errors.is_empty() {
        return Err(OpenscadError::ParseErrors(parse_results.errors));
    }
    let interpret_results = openscad_interpret(parse_results.statements);
    if !interpret_results.errors.is_empty() {
        return Err(OpenscadError::InterpretErrors(interpret_results.errors));
    }
    Ok(interpret_results.trees)
}

/// The instances of modules that the scene description `input` asks for:
/// what [`openscad_tokens_to_instances`] gives for the tokens of the text.
pub fn openscad_string_to_instances(input: &str) -> (result: Result<
    Vec<Rc<ModuleInstanceTree>>,
    OpenscadError,
>)
    requires
        input@.len() < usize::MAX,
    ensures
        ({
            let program = program_from(spanned_tokens(input@, kinds_of(input@), 0), 0);
            match result {
                Ok(trees) => {
                    &&& program.errors.len() == 0
                    &&& errors_of(program.statements).len() == 0
                    &&& are_leaves(trees@, instances_of(program.statements))
                },
                Err(OpenscadError::ParseErrors(errors)) => {
                    &&& program.errors.len() > 0
                    &&& views(errors@) == program.errors
                },
                Err(OpenscadError::InterpretErrors(errors)) => {
                    &&& program.errors.len() == 0
                    &&& errors_of(program.statements).len() > 0
                    &&& views(errors@) == errors_of(program.statements)
                },
                Err(OpenscadError::FileReadError(_, _)) => false,
            }
        }),
{
    openscad_tokens_to_instances(openscad_tokenize_with_positions(input))
}

} // verus!
