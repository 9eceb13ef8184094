use std::cell::Cell;

use omnom::Mapper;
use omnom::MemProducer;
use omnom::Parser;
use omnom::ProducerState;
use omnom::outcome::CODE_EXHAUSTED;

fn print<T: std::fmt::Debug>(input: T) -> Parser<T, ()> {
    println!("{:?}", input);
    Parser::Done(input, ())
}

#[test]
fn mem_producer_test() {
    let mut p = MemProducer::new("abcdefgh".as_bytes(), 4);
    assert_eq!(p.produce(), ProducerState::Data("abcd".as_bytes()));
}

#[test]
fn mem_producer_test_2() {
    let mut p = MemProducer::new("abcdefgh".as_bytes(), 8);
    let _ = p.push(|par| par.flat_map(print));
    let iterations = Cell::new(0usize);
    let mut p = MemProducer::new("abcdefghi".as_bytes(), 4);
    let _ = p.push(|par| {
        iterations.set(iterations.get() + 1);
        par.flat_map(print)
    });
    assert_eq!(iterations.get(), 3);
}

#[test]
fn mem_producer_ends_with_the_remainder() {
    let mut p = MemProducer::new("abcdefghi".as_bytes(), 4);
    assert_eq!(p.produce(), ProducerState::Data("abcd".as_bytes()));
    assert_eq!(p.produce(), ProducerState::Data("efgh".as_bytes()));
    assert_eq!(p.produce(), ProducerState::Eof("i".as_bytes()));
    assert_eq!(p.produce(), ProducerState::ProducerError(CODE_EXHAUSTED));
}

#[test]
fn mem_producer_exact_boundary_ends_with_empty_eof() {
    let mut p = MemProducer::new("abcdefgh".as_bytes(), 4);
    assert_eq!(p.produce(), ProducerState::Data("abcd".as_bytes()));
    assert_eq!(p.produce(), ProducerState::Data("efgh".as_bytes()));
    assert_eq!(p.produce(), ProducerState::Eof("".as_bytes()));
    assert_eq!(p.produce(), ProducerState::ProducerError(CODE_EXHAUSTED));
}

#[test]
fn push_counts_chunks_before_the_final_one() {
    let mut p = MemProducer::new("abcdefghi".as_bytes(), 4);
    let s = p.push(|par| par.flat_map(print));
    assert_eq!(s.data_chunks, 2);
    assert_eq!(s.eof_chunks, 1);
    assert_eq!(s.eof_remainder, 1);
    assert_eq!(s.producer_error, None);
    assert_eq!(s.chunk_errors, 0);
    assert!(!s.eof_error);
}

#[test]
fn push_exact_boundary_has_no_phantom_chunk() {
    let mut p = MemProducer::new("abcdefgh".as_bytes(), 4);
    let s = p.push(|par| par.flat_map(print));
    assert_eq!(s.data_chunks, 2);
    assert_eq!(s.eof_chunks, 1);
    assert_eq!(s.eof_remainder, 0);
}

#[test]
fn push_on_an_exhausted_producer_reports_the_failure() {
    let mut p = MemProducer::new("ab".as_bytes(), 2);
    let _ = p.push(|par| par.flat_map(print));
    let s = p.push(|par| par.flat_map(print));
    assert_eq!(s.producer_error, Some(CODE_EXHAUSTED));
    assert_eq!(s.data_chunks, 0);
    assert_eq!(s.eof_chunks, 0);
}

#[test]
fn push_carries_unconsumed_bytes_across_chunks() {
    let seen = Cell::new(0usize);
    let mut p = MemProducer::new("abcdef".as_bytes(), 4);
    let s = p.push(|par| {
        seen.set(seen.get() + 1);
        par.flat_map(|v| omnom::tag(b"abcdef", v))
    });
    assert_eq!(seen.get(), 2);
    assert_eq!(s.chunk_errors, 0);
    assert!(!s.eof_error);
    assert_eq!(s.unconsumed, 0);
}

#[test]
fn push_consuming_parser_leaves_nothing_behind() {
    let mut p = MemProducer::new("abcdefgh".as_bytes(), 3);
    let s = p.push(|par| par.flat_map(|v: &[u8]| Parser::Done(&v[v.len()..], ())));
    assert_eq!(s.unconsumed, 0);
    assert_eq!(s.data_chunks, 2);
    assert_eq!(s.eof_remainder, 2);
}

#[test]
fn push_reports_chunk_errors_and_goes_on() {
    let seen = Cell::new(0usize);
    let mut p = MemProducer::new("xxxxyy".as_bytes(), 4);
    let s = p.push(|par| {
        seen.set(seen.get() + 1);
        par.flat_map(|v| omnom::tag(b"abcd", v))
    });
    assert_eq!(seen.get(), 2);
    assert_eq!(s.data_chunks, 1);
    assert_eq!(s.chunk_errors, 1);
    assert!(s.eof_error);
    assert_eq!(s.eof_remainder, 2);
    assert_eq!(s.producer_error, None);
}

#[test]
fn carry_keep_len_follows_the_outcome() {
    let err: Parser<&[u8], ()> = Parser::Error(1);
    assert_eq!(omnom::carry_keep_len(10, &err), 0);
    let susp: Parser<&[u8], ()> = Parser::Incomplete(3);
    assert_eq!(omnom::carry_keep_len(10, &susp), 10);
    let done: Parser<&[u8], ()> = Parser::Done(b"ab", ());
    assert_eq!(omnom::carry_keep_len(10, &done), 2);
}
