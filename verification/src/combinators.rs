//! Primitive and sequencing combinators over byte views.

use vstd::prelude::*;
use vstd::slice::slice_index_get;
use vstd::slice::slice_subrange;

use crate::outcome::CODE_MISMATCH;
use crate::outcome::Parser;

verus! {

/// Wrap a byte view as the trivial starting outcome: nothing consumed yet,
/// the whole view offered as output to the first parsing step.
pub fn begin<'a>(input: &'a [u8]) -> (p: Parser<(), &'a [u8]>)
    ensures
        p == Parser::<(), &'a [u8]>::Done((), input),
{
    Parser::Done((), input)
}

/// The view `v` begins with the whole literal `l`.
pub open spec fn starts_with(v: Seq<u8>, l: Seq<u8>) -> bool {
    l.len() <= v.len() && v.subrange(0, l.len() as int) == l
}

/// The view `v` is a strict prefix of the literal `l`: everything seen so
/// far agrees with `l`, but more bytes are needed to finish the match.
pub open spec fn strict_prefix_of(v: Seq<u8>, l: Seq<u8>) -> bool {
    v.len() < l.len() && l.subrange(0, v.len() as int) == v
}

/// Match the literal `literal` at the front of `input`.
///
/// Succeeds exactly when `input` starts with the literal, consuming exactly
/// its length and producing an empty output view; suspends with the number
/// of missing bytes exactly when `input` is a strict prefix of the literal;
/// fails otherwise.
pub fn tag<'a>(literal: &[u8], input: &'a [u8]) -> (r: Parser<&'a [u8], &'a [u8]>)
    ensures
        starts_with(input@, literal@) ==> (r matches Parser::Done(rem, out)
            && rem@ == input@.skip(literal@.len() as int)
            && out@ == Seq::<u8>::empty()),
        strict_prefix_of(input@, literal@) ==> r == Parser::<&'a [u8], &'a [u8]>::Incomplete(
            (literal@.len() - input@.len()) as usize,
        ),
        !starts_with(input@, literal@) && !strict_prefix_of(input@, literal@) ==> r
            == Parser::<&'a [u8], &'a [u8]>::Error(CODE_MISMATCH),
{
    let n = literal.len();
    let m = input.len();
    let lim = if m < n {
        m
    } else {
        n
    };
    let mut i: usize = 0;
    while i < lim
        invariant
            i <= lim,
            lim <= m,
            lim <= n,
            lim == m || lim == n,
            m == input@.len(),
            n == literal@.len(),
            forall|j: int| 0 <= j < i ==> input@[j] == literal@[j],
        decreases lim - i,
    {
        let a = *slice_index_get(input, i);
        let b = *slice_index_get(literal, i);
        if a != b {
            proof {
                if starts_with(input@, literal@) {
                    assert(input@.subrange(0, n as int)[i as int] == literal@[i as int]);
                }
                if strict_prefix_of(input@, literal@) {
                    assert(literal@.subrange(0, m as int)[i as int] == input@[i as int]);
                }
            }
            return Parser::Error(CODE_MISMATCH);
        }
        i += 1;
    }
    if m >= n {
        proof {
            assert(input@.subrange(0, n as int) =~= literal@);
            assert(input@.subrange(n as int, m as int) =~= input@.skip(n as int));
            assert(input@.subrange(0, 0) =~= Seq::<u8>::empty());
        }
        let rem = slice_subrange(input, n, m);
        let out = slice_subrange(input, 0, 0);
        Parser::Done(rem, out)
    } else {
        proof {
            assert(literal@.subrange(0, m as int) =~= input@);
        }
        Parser::Incomplete(n - m)
    }
}

/// What `compose` promises about its result `r`: some outcome `r1` of the
/// first parser on `input` was observed, an error or a suspension of it
/// propagates unchanged, and on its success the second parser ran on the
/// unconsumed remainder, its own contract pinning `r` down.
pub open spec fn compose_post<'a, O1, O2, P1, P2>(
    p1: P1,
    p2: P2,
    input: &'a [u8],
    r: Parser<&'a [u8], O2>,
) -> bool where
    P1: FnOnce(&'a [u8]) -> Parser<&'a [u8], O1>,
    P2: FnOnce(&'a [u8]) -> Parser<&'a [u8], O2>,
 {
    exists|r1: Parser<&'a [u8], O1>|
        #[trigger] call_ensures(p1, (input,), r1) && match r1 {
            Parser::Done(rem1, _) => call_ensures(p2, (rem1,), r),
            Parser::Error(e) => r == Parser::<&'a [u8], O2>::Error(e),
            Parser::Incomplete(n) => r == Parser::<&'a [u8], O2>::Incomplete(n),
        }
}

/// Run `p1` on `input`, discard its output, and run `p2` on the bytes `p1`
/// left unconsumed; an error or a suspension of `p1` short-circuits.
pub fn compose<'a, O1, O2, P1, P2>(input: &'a [u8], p1: P1, p2: P2) -> (r: Parser<&'a [u8], O2>)
    where
        P1: FnOnce(&'a [u8]) -> Parser<&'a [u8], O1>,
        P2: FnOnce(&'a [u8]) -> Parser<&'a [u8], O2>,

    requires
        call_requires(p1, (input,)),
        forall|rem1: &'a [u8], v1: O1|
            call_ensures(p1, (input,), Parser::Done(rem1, v1)) ==> call_requires(p2, (rem1,)),
    ensures
        compose_post(p1, p2, input, r),
{
    let r1 = p1(input);
    let ghost g1 = r1;
    match r1 {
        Parser::Done(rem1, _v1) => {
            let r = p2(rem1);
            proof {
                assert(call_ensures(p1, (input,), g1) && call_ensures(p2, (rem1,), r));
            }
            r
        },
        Parser::Error(e) => Parser::Error(e),
        Parser::Incomplete(n) => Parser::Incomplete(n),
    }
}

/// What `chain2` promises about its result `r`: the two sub-parsers ran in
/// order over the unconsumed remainder of the previous one, the first error
/// or suspension short-circuited the whole chain, and on success of both the
/// assembly function combined the two bound values into the final output.
pub open spec fn chain2_post<'a, O1, O2, O, P1, P2, A>(
    p1: P1,
    p2: P2,
    assemble: A,
    input: &'a [u8],
    r: Parser<&'a [u8], O>,
) -> bool where
    P1: FnOnce(&'a [u8]) -> Parser<&'a [u8], O1>,
    P2: FnOnce(&'a [u8]) -> Parser<&'a [u8], O2>,
    A: FnOnce(O1, O2) -> O,
 {
    exists|r1: Parser<&'a [u8], O1>|
        #[trigger] call_ensures(p1, (input,), r1) && match r1 {
            Parser::Done(rem1, v1) => exists|r2: Parser<&'a [u8], O2>|
                #[trigger] call_ensures(p2, (rem1,), r2) && match r2 {
                    Parser::Done(rem2, v2) => exists|out: O|
                        #[trigger] call_ensures(assemble, (v1, v2), out) && r == Parser::<
                            &'a [u8],
                            O,
                        >::Done(rem2, out),
                    Parser::Error(e) => r == Parser::<&'a [u8], O>::Error(e),
                    Parser::Incomplete(n) => r == Parser::<&'a [u8], O>::Incomplete(n),
                },
            Parser::Error(e) => r == Parser::<&'a [u8], O>::Error(e),
            Parser::Incomplete(n) => r == Parser::<&'a [u8], O>::Incomplete(n),
        }
}

/// Chain two parsers in strict left-to-right order: run `p1` on `input`, run
/// `p2` on what `p1` left unconsumed, and on success of both assemble their
/// outputs into the final value over the remainder `p2` left. The first
/// error stops the chain with that error; a suspension at either stage
/// suspends the whole chain.
pub fn chain2<'a, O1, O2, O, P1, P2, A>(
    input: &'a [u8],
    p1: P1,
    p2: P2,
    assemble: A,
) -> (r: Parser<&'a [u8], O>) where
    P1: FnOnce(&'a [u8]) -> Parser<&'a [u8], O1>,
    P2: FnOnce(&'a [u8]) -> Parser<&'a [u8], O2>,
    A: FnOnce(O1, O2) -> O,

    requires
        call_requires(p1, (input,)),
        forall|rem1: &'a [u8], v1: O1|
            call_ensures(p1, (input,), Parser::Done(rem1, v1)) ==> call_requires(p2, (rem1,)),
        forall|rem1: &'a [u8], v1: O1, rem2: &'a [u8], v2: O2|
            #[trigger] call_ensures(p1, (input,), Parser::Done(rem1, v1)) && #[trigger] call_ensures(
                p2,
                (rem1,),
                Parser::Done(rem2, v2),
            ) ==> call_requires(assemble, (v1, v2)),
    ensures
        chain2_post(p1, p2, assemble, input, r),
{
    let r1 = p1(input);
    let ghost g1 = r1;
    match r1 {
        Parser::Done(rem1, v1) => {
            let ghost gv1 = v1;
            let r2 = p2(rem1);
            let ghost g2 = r2;
            match r2 {
                Parser::Done(rem2, v2) => {
                    let ghost gv2 = v2;
                    let out = assemble(v1, v2);
                    let r = Parser::Done(rem2, out);
                    proof {
                        assert(call_ensures(p1, (input,), g1) && call_ensures(p2, (rem1,), g2)
                            && call_ensures(assemble, (gv1, gv2), out));
                    }
                    r
                },
                Parser::Error(e) => {
                    let r = Parser::<&'a [u8], O>::Error(e);
                    proof {
                        assert(call_ensures(p1, (input,), g1) && call_ensures(p2, (rem1,), g2));
                    }
                    r
                },
                Parser::Incomplete(n) => {
                    let r = Parser::<&'a [u8], O>::Incomplete(n);
                    proof {
                        assert(call_ensures(p1, (input,), g1) && call_ensures(p2, (rem1,), g2));
                    }
                    r
                },
            }
        },
        Parser::Error(e) => Parser::Error(e),
        Parser::Incomplete(n) => Parser::Incomplete(n),
    }
}

/// Chain composition law: if every outcome of `p1` on `input` is a success
/// consuming exactly `c1` bytes, and every outcome of `p2` on any view is a
/// success consuming exactly `c2` bytes, then any result the chain of the
/// two admits is a single success consuming `c1 + c2` bytes, its remainder
/// being exactly what `p2` alone leaves of the remainder of `p1`.
pub proof fn lemma_chain2_consumes<'a, O1, O2, O, P1, P2, A>(
    p1: P1,
    p2: P2,
    assemble: A,
    input: &'a [u8],
    r: Parser<&'a [u8], O>,
    c1: int,
    c2: int,
) where
    P1: FnOnce(&'a [u8]) -> Parser<&'a [u8], O1>,
    P2: FnOnce(&'a [u8]) -> Parser<&'a [u8], O2>,
    A: FnOnce(O1, O2) -> O,

    requires
        chain2_post(p1, p2, assemble, input, r),
        0 <= c1 <= input@.len(),
        0 <= c2 <= input@.len() - c1,
        forall|ret: Parser<&'a [u8], O1>| #[trigger] call_ensures(p1, (input,), ret) ==> (ret
            matches Parser::Done(rem1, _) && rem1@ == input@.skip(c1)),
        forall|i2: &'a [u8], ret: Parser<&'a [u8], O2>| #[trigger] call_ensures(p2, (i2,), ret)
            ==> (ret matches Parser::Done(rem2, _) && rem2@ == i2@.skip(c2)),
    ensures
        r matches Parser::Done(rem, _) && rem@ == input@.skip(c1 + c2),
{
    let r1 = choose|r1: Parser<&'a [u8], O1>|
        #[trigger] call_ensures(p1, (input,), r1) && match r1 {
            Parser::Done(rem1, v1) => exists|r2: Parser<&'a [u8], O2>|
                #[trigger] call_ensures(p2, (rem1,), r2) && match r2 {
                    Parser::Done(rem2, v2) => exists|out: O|
                        #[trigger] call_ensures(assemble, (v1, v2), out) && r == Parser::<
                            &'a [u8],
                            O,
                        >::Done(rem2, out),
                    Parser::Error(e) => r == Parser::<&'a [u8], O>::Error(e),
                    Parser::Incomplete(n) => r == Parser::<&'a [u8], O>::Incomplete(n),
                },
            Parser::Error(e) => r == Parser::<&'a [u8], O>::Error(e),
            Parser::Incomplete(n) => r == Parser::<&'a [u8], O>::Incomplete(n),
        };
    let rem1 = r1->Done_0;
    assert(rem1@ == input@.skip(c1));
    let v1 = r1->Done_1;
    let r2 = choose|r2: Parser<&'a [u8], O2>|
        #[trigger] call_ensures(p2, (rem1,), r2) && match r2 {
            Parser::Done(rem2, v2) => exists|out: O|
                #[trigger] call_ensures(assemble, (v1, v2), out) && r == Parser::<
                    &'a [u8],
                    O,
                >::Done(rem2, out),
            Parser::Error(e) => r == Parser::<&'a [u8], O>::Error(e),
            Parser::Incomplete(n) => r == Parser::<&'a [u8], O>::Incomplete(n),
        };
    let rem2 = r2->Done_0;
    assert(rem2@ == rem1@.skip(c2));
    assert(input@.skip(c1).skip(c2) =~= input@.skip(c1 + c2));
}

} // verus!
