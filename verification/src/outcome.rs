//! The tri-state parser outcome and its composition algebra.

use vstd::prelude::*;

verus! {

/// Opaque failure code: a small non-negative value with no stable meaning
/// beyond "this parsing step failed".
pub type ErrorCode = u64;

/// Code reported when a literal match or another combinator-level test fails.
pub const CODE_MISMATCH: ErrorCode = 1;

/// Code reported when a value transform handed to `map_opt` yields nothing.
pub const CODE_TRANSFORM_FAILED: ErrorCode = 2;

/// Code reported when a producer is asked for bytes after its final chunk.
pub const CODE_EXHAUSTED: ErrorCode = 3;

/// Result of applying a parsing step to an input view of type `I`, producing
/// an output of type `O`.
///
/// - `Done(remaining, output)`: the step succeeded; `remaining` is the
///   unconsumed suffix of the input view and `output` the extracted value.
/// - `Error(code)`: the step failed terminally for this attempt; no partial
///   state is retained.
/// - `Incomplete(needed)`: the input was a valid prefix but too short to
///   decide; `needed` is a lower bound on how many further bytes must be
///   appended before re-attempting the same parse. The push loop resumes such
///   a parse by carrying the whole view forward and re-applying the parser to
///   the extended input, so feeding `chunk1 ++ chunk2` at once and feeding
///   `chunk1`, receiving `Incomplete`, then resuming with `chunk2` agree.
#[derive(Debug, PartialEq, Eq)]
pub enum Parser<I, O> {
    Done(I, O),
    Error(ErrorCode),
    Incomplete(usize),
}

/// What `flat_map` promises about its result `r`, given the outcome it was
/// applied to and the continuation `f`.
///
/// A terminal `Error` short-circuits unchanged and an `Incomplete` suspension
/// propagates unchanged; only on `Done` is control handed to `f`, whose own
/// contract then pins `r` down.
pub open spec fn flat_map_post<I, O, N, F: FnOnce(O) -> Parser<O, N>>(
    outcome: Parser<I, O>,
    f: F,
    r: Parser<O, N>,
) -> bool {
    match outcome {
        Parser::Done(_, o) => call_ensures(f, (o,), r),
        Parser::Error(e) => r == Parser::<O, N>::Error(e),
        Parser::Incomplete(n) => r == Parser::<O, N>::Incomplete(n),
    }
}

/// What `map_opt` promises about its result `r`: errors and suspensions
/// propagate unchanged, and on `Done(rem, out)` the fallible transform `f`
/// either yields a value, which is returned over the same preserved
/// remaining `rem`, or fails the parse with `CODE_TRANSFORM_FAILED`.
pub open spec fn map_opt_post<I, O, N, F: FnOnce(O) -> Option<N>>(
    outcome: Parser<I, O>,
    f: F,
    r: Parser<I, N>,
) -> bool {
    match outcome {
        Parser::Done(rem, o) => exists|fr: Option<N>|
            #[trigger] call_ensures(f, (o,), fr) && r == (match fr {
                Some(v) => Parser::<I, N>::Done(rem, v),
                None => Parser::<I, N>::Error(CODE_TRANSFORM_FAILED),
            }),
        Parser::Error(e) => r == Parser::<I, N>::Error(e),
        Parser::Incomplete(n) => r == Parser::<I, N>::Incomplete(n),
    }
}

/// Composition operators over parser outcomes.
///
/// An outcome is consumed by the next combinator in the chain, so both
/// operators take it by value. The algebra is instantiated once for outcomes
/// whose output is a byte-slice view (the carried input for the next step)
/// and once for outcomes with unit output; the observable laws are identical:
/// `Error` short-circuits, `Incomplete` propagates, and success hands control
/// to the continuation.
pub trait Mapper<I, O, N>: Sized {
    /// This outcome, as the algebra's contracts speak of it.
    spec fn outcome(&self) -> Parser<I, O>;

    /// Apply the parser continuation `f` to the output of a successful
    /// outcome; short-circuit an error and propagate a suspension.
    fn flat_map<F: FnOnce(O) -> Parser<O, N>>(self, f: F) -> (r: Parser<O, N>)
        requires
            self.outcome() matches Parser::Done(_, o) ==> call_requires(f, (o,)),
        ensures
            flat_map_post(self.outcome(), f, r),
    ;

    /// Apply the fallible value transform `f` to the output of a successful
    /// outcome, preserving the unconsumed remaining and turning a missing
    /// result into a parse failure; short-circuit an error and propagate a
    /// suspension.
    fn map_opt<F: FnOnce(O) -> Option<N>>(self, f: F) -> (r: Parser<I, N>)
        requires
            self.outcome() matches Parser::Done(_, o) ==> call_requires(f, (o,)),
        ensures
            map_opt_post(self.outcome(), f, r),
    ;
}

impl<'a, R, S, T> Mapper<R, &'a [S], T> for Parser<R, &'a [S]> {
    open spec fn outcome(&self) -> Parser<R, &'a [S]> {
        *self
    }

    fn flat_map<F: FnOnce(&'a [S]) -> Parser<&'a [S], T>>(self, f: F) -> (r: Parser<&'a [S], T>) {
        match self {
            Parser::Done(_, o) => f(o),
            Parser::Error(e) => Parser::Error(e),
            Parser::Incomplete(n) => Parser::Incomplete(n),
        }
    }

    fn map_opt<F: FnOnce(&'a [S]) -> Option<T>>(self, f: F) -> (r: Parser<R, T>) {
        match self {
            Parser::Done(rem, o) => match f(o) {
                Some(output) => Parser::Done(rem, output),
                None => Parser::Error(CODE_TRANSFORM_FAILED),
            },
            Parser::Error(e) => Parser::Error(e),
            Parser::Incomplete(n) => Parser::Incomplete(n),
        }
    }
}

impl<R, T> Mapper<R, (), T> for Parser<R, ()> {
    open spec fn outcome(&self) -> Parser<R, ()> {
        *self
    }

    fn flat_map<F: FnOnce(()) -> Parser<(), T>>(self, f: F) -> (r: Parser<(), T>) {
        match self {
            Parser::Done(_, _) => f(()),
            Parser::Error(e) => Parser::Error(e),
            Parser::Incomplete(n) => Parser::Incomplete(n),
        }
    }

    fn map_opt<F: FnOnce(()) -> Option<T>>(self, f: F) -> (r: Parser<R, T>) {
        match self {
            Parser::Done(rem, _) => match f(()) {
                Some(output) => Parser::Done(rem, output),
                None => Parser::Error(CODE_TRANSFORM_FAILED),
            },
            Parser::Error(e) => Parser::Error(e),
            Parser::Incomplete(n) => Parser::Incomplete(n),
        }
    }
}

/// Short-circuit law: a terminal `Error(e)` passes through `flat_map`
/// unchanged, whatever continuation `f` was supplied.
pub proof fn lemma_flat_map_short_circuit<I, O, N, F: FnOnce(O) -> Parser<O, N>>(
    f: F,
    e: ErrorCode,
    r: Parser<O, N>,
)
    requires
        flat_map_post(Parser::<I, O>::Error(e), f, r),
    ensures
        r == Parser::<O, N>::Error(e),
{
}

/// Short-circuit law: a terminal `Error(e)` passes through `map_opt`
/// unchanged, whatever transform `f` was supplied.
pub proof fn lemma_map_opt_short_circuit<I, O, N, F: FnOnce(O) -> Option<N>>(
    f: F,
    e: ErrorCode,
    r: Parser<I, N>,
)
    requires
        map_opt_post(Parser::<I, O>::Error(e), f, r),
    ensures
        r == Parser::<I, N>::Error(e),
{
}

/// Round-trip identity law: a successful `Done(rem, out)` followed by the
/// identity transform is returned unchanged.
pub proof fn lemma_map_opt_identity<I, O, F: FnOnce(O) -> Option<O>>(
    f: F,
    rem: I,
    out: O,
    r: Parser<I, O>,
)
    requires
        forall|x: O, fr: Option<O>| call_ensures(f, (x,), fr) ==> fr == Some(x),
        map_opt_post(Parser::<I, O>::Done(rem, out), f, r),
    ensures
        r == Parser::<I, O>::Done(rem, out),
{
}

} // verus!
