use vstd::prelude::*;
use crate::interpreter::{
    Datum,
    Failure,
    Interpreter,
    NumericTask,
    RuntimeError,
    dependable,
    failure_view,
    run_block,
};
use crate::parser::{ParseError, program};
use crate::lexer::tokens_of;

verus! {

/// How a run of a source text ended: the parse error, or else the final
/// environment and the runtime error, if there was one.
pub enum Verdict {
    Malformed(ParseError),
    Executed { env: Map<Seq<char>, Datum>, failure: Option<Failure> },
}

/// The meaning of a source text: its tokens are parsed, and the program is
/// executed in an environment that binds nothing.
pub open spec fn verdict<F: Fn(NumericTask) -> u64>(arith: &F, source: Seq<char>) -> Verdict {
    match program(tokens_of(source)) {
        Err(error) => Verdict::Malformed(error),
        Ok(trees) => Verdict::Executed {
            env: run_block(arith, trees, 0, Map::empty()).env,
            failure: run_block(arith, trees, 0, Map::empty()).failure,
        },
    }
}

/// The model of what `run` returns.
pub open spec fn verdict_view(done: Result<(Interpreter, Result<(), RuntimeError>), ParseError>) -> Verdict {
    match done {
        Err(error) => Verdict::Malformed(error),
        Ok((interpreter, result)) => Verdict::Executed { env: interpreter@, failure: failure_view(result) },
    }
}

/// Lexes, parses and executes a source text with a fresh evaluator.
pub fn run<F: Fn(NumericTask) -> u64>(input: &str, arith: &F) -> (done: Result<
    (Interpreter, Result<(), RuntimeError>),
    ParseError,
>)
    requires
        dependable(arith),
    ensures
        verdict_view(done) == verdict(arith, input@),
{
    let tokens = crate::lexer::run(input);
    match crate::parser::run(tokens) {
        Err(error) => Err(error),
        Ok(ast) => Ok(crate::interpreter::run(ast, arith)),
    }
}

/// Two runs of one source text with one arithmetic end alike: with the same
/// parse error, or with the same bindings and the same runtime error.
pub proof fn runs_agree<F: Fn(NumericTask) -> u64>(
    arith: &F,
    source: Seq<char>,
    first: Result<(Interpreter, Result<(), RuntimeError>), ParseError>,
    second: Result<(Interpreter, Result<(), RuntimeError>), ParseError>,
)
    requires
        verdict_view(first) == verdict(arith, source),
        verdict_view(second) == verdict(arith, source),
    ensures
        first is Err <==> second is Err,
        first is Err ==> first->Err_0 == second->Err_0,
        first is Ok ==> first->Ok_0.0@ == second->Ok_0.0@ && failure_view(first->Ok_0.1) == failure_view(
            second->Ok_0.1,
        ),
{
}

} // verus!
