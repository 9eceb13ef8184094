//! Chunked byte sources and the push loop that drives a parser over them.

use vstd::arithmetic::div_mod::lemma_fundamental_div_mod;
use vstd::arithmetic::div_mod::lemma_fundamental_div_mod_converse;
use vstd::arithmetic::div_mod::lemma_mod_bound;
use vstd::prelude::*;
use vstd::slice::slice_subrange;

use crate::outcome::CODE_EXHAUSTED;
use crate::outcome::ErrorCode;
use crate::outcome::Parser;

verus! {

/// Result of asking a source for its next chunk.
///
/// - `Eof(chunk)`: the final, possibly empty, chunk; nothing follows it.
/// - `Continue`: no bytes were available yet, but the source is not
///   exhausted; the driver retries without treating this as an error.
/// - `Data(chunk)`: a full chunk; more may follow.
/// - `ProducerError(code)`: the source failed unrecoverably.
#[derive(Debug, PartialEq, Eq)]
pub enum ProducerState<O> {
    Eof(O),
    Continue,
    Data(O),
    ProducerError(ErrorCode),
}

/// Mathematical state of a memory-backed producer: the whole backing byte
/// sequence, the chunk size, the read cursor, and whether the final chunk
/// has already been handed out.
pub struct MemModel {
    pub data: Seq<u8>,
    pub chunk: nat,
    pub cursor: nat,
    pub finished: bool,
}

/// Aggregate outcome of one run of the push loop, surfaced to the caller
/// instead of being printed: how many full chunks and final chunks were
/// offered to the parser, how long the final chunk was, how many chunk
/// parses failed, whether the parse of the final chunk failed, the
/// producer-level failure that stopped the loop if any, and how many bytes
/// the parser left unconsumed at the end.
#[derive(Clone, Copy, Debug, PartialEq, Eq)]
pub struct PushSummary {
    pub data_chunks: usize,
    pub eof_chunks: usize,
    pub eof_remainder: usize,
    pub chunk_errors: usize,
    pub eof_error: bool,
    pub producer_error: Option<ErrorCode>,
    pub unconsumed: usize,
}

/// The chunk accounting the push loop owes for a producer driven from state
/// `m` to exhaustion: one full `Data` chunk for every whole chunk size ahead
/// of the cursor, then exactly one final `Eof` chunk carrying what is left,
/// which is empty exactly when the chunk size divides the bytes ahead.
pub open spec fn push_counts(m: MemModel, s: PushSummary) -> bool {
    &&& s.producer_error is None
    &&& s.data_chunks == (m.data.len() - m.cursor) as nat / m.chunk
    &&& s.eof_chunks == 1
    &&& s.eof_remainder == (m.data.len() - m.cursor) as nat % m.chunk
}

/// `suffix` is a suffix of `v`: what a parsing step leaves unconsumed is
/// always the tail of the view it was handed, never bytes from elsewhere.
pub open spec fn is_suffix_of(suffix: Seq<u8>, v: Seq<u8>) -> bool {
    suffix.len() <= v.len() && suffix == v.skip(v.len() - suffix.len())
}

/// A memory-backed producer: a borrowed byte view handed out in fixed-size
/// chunks, followed by one final chunk with whatever is left.
pub struct MemProducer<'x> {
    buffer: &'x [u8],
    chunk_size: usize,
    index: usize,
    finished: bool,
}

impl<'x> View for MemProducer<'x> {
    type V = MemModel;

    closed spec fn view(&self) -> MemModel {
        MemModel {
            data: self.buffer@,
            chunk: self.chunk_size as nat,
            cursor: self.index as nat,
            finished: self.finished,
        }
    }
}

impl<'x> MemProducer<'x> {
    /// A memory producer is well formed when its chunk size allows progress,
    /// its cursor stays inside the buffer, and a finished producer has its
    /// cursor at the end.
    pub open spec fn wf(&self) -> bool {
        &&& self@.chunk >= 1
        &&& self@.cursor <= self@.data.len()
        &&& (self@.finished ==> self@.cursor == self@.data.len())
    }

    /// Start a producer over `buffer`, handing out `chunk_size` bytes at a
    /// time from the front.
    pub fn new(buffer: &'x [u8], chunk_size: usize) -> (p: MemProducer<'x>)
        requires
            chunk_size >= 1,
        ensures
            p.wf(),
            p@.data == buffer@,
            p@.chunk == chunk_size as nat,
            p@.cursor == 0,
            !p@.finished,
    {
        MemProducer { buffer, chunk_size, index: 0, finished: false }
    }

    /// Hand out the next chunk: a full `Data` chunk while one fits ahead of
    /// the cursor, then one final `Eof` chunk with whatever is left, possibly
    /// empty, and `ProducerError` for every call after that.
    pub fn produce(&mut self) -> (r: ProducerState<&'x [u8]>)
        requires
            old(self).wf(),
        ensures
            final(self).wf(),
            final(self)@.data == old(self)@.data,
            final(self)@.chunk == old(self)@.chunk,
            old(self)@.finished ==> final(self)@ == old(self)@ && r == ProducerState::<
                &'x [u8],
            >::ProducerError(CODE_EXHAUSTED),
            !old(self)@.finished && old(self)@.cursor + old(self)@.chunk <= old(self)@.data.len()
                ==> (!final(self)@.finished && final(self)@.cursor == old(self)@.cursor + old(
                self,
            )@.chunk && (r matches ProducerState::Data(c) && c@ == old(self)@.data.subrange(
                old(self)@.cursor as int,
                (old(self)@.cursor + old(self)@.chunk) as int,
            ))),
            !old(self)@.finished && old(self)@.cursor + old(self)@.chunk > old(self)@.data.len()
                ==> (final(self)@.finished && final(self)@.cursor == old(self)@.data.len() && (
            r matches ProducerState::Eof(c) && c@ == old(self)@.data.subrange(
                old(self)@.cursor as int,
                old(self)@.data.len() as int,
            ))),
    {
        if self.finished {
            ProducerState::ProducerError(CODE_EXHAUSTED)
        } else if self.chunk_size <= self.buffer.len() - self.index {
            let new_index = self.index + self.chunk_size;
            let res = ProducerState::Data(slice_subrange(self.buffer, self.index, new_index));
            self.index = new_index;
            res
        } else {
            let res = ProducerState::Eof(
                slice_subrange(self.buffer, self.index, self.buffer.len()),
            );
            self.index = self.buffer.len();
            self.finished = true;
            res
        }
    }

    /// Drive the parser callback `f` over this producer until the final
    /// chunk or a producer failure, folding unconsumed bytes forward.
    ///
    /// Every chunk is offered to `f` as the trivial starting outcome over
    /// the bytes carried over from earlier chunks followed by the new chunk;
    /// on success the remainder `f` left becomes the next carry, a suspension
    /// keeps the whole view carried, and a chunk-level parse failure drops
    /// the carry and is only counted: it does not stop the stream. The loop
    /// stops after the final chunk regardless of its parse outcome, or at
    /// once with a producer failure when the producer is already exhausted.
    pub fn push<O, F: Fn(Parser<(), &'x [u8]>) -> Parser<&'x [u8], O>>(&mut self, f: F) -> (s:
        PushSummary)
        requires
            old(self).wf(),
            forall|v: &'x [u8]| call_requires(f, (Parser::<(), &'x [u8]>::Done((), v),)),
            forall|v: &'x [u8], ret: Parser<&'x [u8], O>|
                call_ensures(f, (Parser::<(), &'x [u8]>::Done((), v),), ret) ==> (ret matches
                    Parser::Done(rem, _) ==> is_suffix_of(rem@, v@)),
        ensures
            final(self).wf(),
            final(self)@.data == old(self)@.data,
            final(self)@.chunk == old(self)@.chunk,
            old(self)@.finished ==> (final(self)@ == old(self)@ && s.data_chunks == 0
                && s.eof_chunks == 0 && s.eof_remainder == 0 && s.chunk_errors == 0
                && !s.eof_error && s.producer_error == Some(CODE_EXHAUSTED) && s.unconsumed == 0),
            !old(self)@.finished ==> (final(self)@.finished && final(self)@.cursor == old(
                self,
            )@.data.len() && push_counts(old(self)@, s) && s.chunk_errors <= s.data_chunks
                && s.unconsumed <= old(self)@.data.len() - old(self)@.cursor),
            !old(self)@.finished && (forall|v: &'x [u8], ret: Parser<&'x [u8], O>|
                #[trigger] call_ensures(f, (Parser::<(), &'x [u8]>::Done((), v),), ret) ==> (!(
                ret is Incomplete) && (ret matches Parser::Done(rem, _) ==> rem@.len() == 0)))
                ==> s.unconsumed == 0,
            !old(self)@.finished && (forall|v: &'x [u8], ret: Parser<&'x [u8], O>|
                #[trigger] call_ensures(f, (Parser::<(), &'x [u8]>::Done((), v),), ret)
                    ==> ret is Error) ==> (s.chunk_errors == s.data_chunks && s.eof_error
                && s.unconsumed == 0),
            !old(self)@.finished && (forall|v: &'x [u8], ret: Parser<&'x [u8], O>|
                #[trigger] call_ensures(f, (Parser::<(), &'x [u8]>::Done((), v),), ret)
                    ==> !(ret is Error)) ==> (s.chunk_errors == 0 && !s.eof_error),
    {
        if self.finished {
            return PushSummary {
                data_chunks: 0,
                eof_chunks: 0,
                eof_remainder: 0,
                chunk_errors: 0,
                eof_error: false,
                producer_error: Some(CODE_EXHAUSTED),
                unconsumed: 0,
            };
        }
        let ghost d0 = self@.data;
        let ghost k0 = self@.chunk;
        let ghost c0 = self@.cursor;
        let ghost fully = forall|v: &'x [u8], ret: Parser<&'x [u8], O>|
            #[trigger] call_ensures(f, (Parser::<(), &'x [u8]>::Done((), v),), ret) ==> (!(
            ret is Incomplete) && (ret matches Parser::Done(rem, _) ==> rem@.len() == 0));
        let ghost always_errs = forall|v: &'x [u8], ret: Parser<&'x [u8], O>|
            #[trigger] call_ensures(f, (Parser::<(), &'x [u8]>::Done((), v),), ret)
                ==> ret is Error;
        let ghost never_errs = forall|v: &'x [u8], ret: Parser<&'x [u8], O>|
            #[trigger] call_ensures(f, (Parser::<(), &'x [u8]>::Done((), v),), ret)
                ==> !(ret is Error);
        let mut data_chunks: usize = 0;
        let mut eof_chunks: usize = 0;
        let mut eof_remainder: usize = 0;
        let mut chunk_errors: usize = 0;
        let mut eof_error = false;
        let mut parse_start: usize = self.index;
        loop
            invariant_except_break
                !self@.finished,
                self@.cursor - c0 == data_chunks * k0,
                eof_chunks == 0,
                eof_remainder == 0,
                !eof_error,
            invariant
                self.wf(),
                self@.data == d0,
                self@.chunk == k0,
                c0 <= parse_start <= self@.cursor,
                chunk_errors <= data_chunks,
                fully ==> parse_start == self@.cursor,
                always_errs ==> chunk_errors == data_chunks && parse_start == self@.cursor,
                never_errs ==> chunk_errors == 0 && !eof_error,
                forall|v: &'x [u8]| call_requires(f, (Parser::<(), &'x [u8]>::Done((), v),)),
                forall|v: &'x [u8], ret: Parser<&'x [u8], O>|
                    call_ensures(f, (Parser::<(), &'x [u8]>::Done((), v),), ret) ==> (ret matches
                        Parser::Done(rem, _) ==> is_suffix_of(rem@, v@)),
                fully == (forall|v: &'x [u8], ret: Parser<&'x [u8], O>|
                    #[trigger] call_ensures(f, (Parser::<(), &'x [u8]>::Done((), v),), ret) ==> (!(
                    ret is Incomplete) && (ret matches Parser::Done(rem, _) ==> rem@.len() == 0))),
                always_errs == (forall|v: &'x [u8], ret: Parser<&'x [u8], O>|
                    #[trigger] call_ensures(f, (Parser::<(), &'x [u8]>::Done((), v),), ret)
                        ==> ret is Error),
                never_errs == (forall|v: &'x [u8], ret: Parser<&'x [u8], O>|
                    #[trigger] call_ensures(f, (Parser::<(), &'x [u8]>::Done((), v),), ret)
                        ==> !(ret is Error)),
            ensures
                self@.finished,
                self@.cursor == d0.len(),
                always_errs ==> eof_error,
                eof_chunks == 1,
                d0.len() - c0 == data_chunks * k0 + eof_remainder,
                eof_remainder < k0,
            decreases d0.len() - self@.cursor,
        {
            let state = self.produce();
            match state {
                ProducerState::ProducerError(_) => {
                    proof {
                        assert(false);
                    }
                    break ;
                },
                ProducerState::Continue => {
                    proof {
                        assert(false);
                    }
                    break ;
                },
                ProducerState::Data(_) => {
                    proof {
                        assert((data_chunks + 1) * k0 == data_chunks * k0 + k0) by (nonlinear_arith);
                        assert((data_chunks + 1) as int <= (data_chunks + 1) * k0) by (nonlinear_arith)
                            requires
                                k0 >= 1,
                        ;
                    }
                    data_chunks = data_chunks + 1;
                    let view = slice_subrange(self.buffer, parse_start, self.index);
                    let outcome = f(Parser::Done((), view));
                    match outcome {
                        Parser::Error(_) => {
                            chunk_errors = chunk_errors + 1;
                            parse_start = self.index;
                        },
                        Parser::Done(rem, _) => {
                            parse_start = self.index - rem.len();
                        },
                        Parser::Incomplete(_) => {},
                    }
                },
                ProducerState::Eof(chunk) => {
                    eof_remainder = chunk.len();
                    eof_chunks = 1;
                    let view = slice_subrange(self.buffer, parse_start, self.index);
                    let outcome = f(Parser::Done((), view));
                    match outcome {
                        Parser::Error(_) => {
                            eof_error = true;
                            parse_start = self.index;
                        },
                        Parser::Done(rem, _) => {
                            parse_start = self.index - rem.len();
                        },
                        Parser::Incomplete(_) => {},
                    }
                    break ;
                },
            }
        }
        let unconsumed = self.index - parse_start;
        proof {
            lemma_fundamental_div_mod_converse(
                d0.len() as int - c0 as int,
                k0 as int,
                data_chunks as int,
                eof_remainder as int,
            );
        }
        PushSummary {
            data_chunks,
            eof_chunks,
            eof_remainder,
            chunk_errors,
            eof_error,
            producer_error: None,
            unconsumed,
        }
    }
}

/// How many trailing bytes of a view of length `view_len` a push loop must
/// carry forward into the next chunk, given the outcome the parser returned
/// for that view: nothing after a terminal error, the remainder a success
/// left, and the whole view while the parse is suspended for more input.
pub fn carry_keep_len<'a, O>(view_len: usize, outcome: &Parser<&'a [u8], O>) -> (keep: usize)
    ensures
        outcome matches Parser::Error(_) ==> keep == 0,
        outcome matches Parser::Incomplete(_) ==> keep == view_len,
        outcome matches Parser::Done(rem, _) ==> (keep == rem@.len() || (keep == view_len
            && rem@.len() > view_len)),
        keep <= view_len,
{
    match outcome {
        Parser::Error(_) => 0,
        Parser::Incomplete(_) => view_len,
        Parser::Done(rem, _) => {
            let n = rem.len();
            if n <= view_len {
                n
            } else {
                view_len
            }
        },
    }
}

/// Before-the-final-chunk law: when the chunk size `k` does not divide the
/// buffer length `n`, the number of full `Data` chunks the push loop offers
/// over a fresh producer is exactly `(n - 1) / k`, followed by one final
/// `Eof` chunk carrying the non-empty remainder.
pub proof fn lemma_push_chunking(m: MemModel, s: PushSummary)
    requires
        m.chunk >= 1,
        m.cursor == 0,
        m.data.len() % m.chunk != 0,
        push_counts(m, s),
    ensures
        s.data_chunks == (m.data.len() - 1) as nat / m.chunk,
        s.eof_chunks == 1,
        s.eof_remainder != 0,
{
    let n = m.data.len() as int;
    let k = m.chunk as int;
    lemma_fundamental_div_mod(n, k);
    lemma_mod_bound(n, k);
    assert(0 <= n % k - 1 < k);
    assert(n == k * (n / k) + n % k);
    assert(k * (n / k) == (n / k) * k) by (nonlinear_arith);
    assert(n - 1 == (n / k) * k + (n % k - 1));
    lemma_fundamental_div_mod_converse(n - 1, k, n / k, n % k - 1);
}

/// Boundary law: when the chunk size `k` divides the buffer length exactly,
/// the push loop over a fresh producer offers every byte through full `Data`
/// chunks and then one final `Eof` chunk carrying an empty remainder: there
/// is no phantom extra `Data` chunk.
pub proof fn lemma_push_exact_boundary(m: MemModel, s: PushSummary)
    requires
        m.chunk >= 1,
        m.cursor == 0,
        m.data.len() % m.chunk == 0,
        push_counts(m, s),
    ensures
        s.data_chunks == m.data.len() / m.chunk,
        s.eof_chunks == 1,
        s.eof_remainder == 0,
{
}

} // verus!
