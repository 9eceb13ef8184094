use std::cell::Cell;

use omnom::Mapper;
use omnom::Parser;
use omnom::outcome::CODE_MISMATCH;
use omnom::outcome::CODE_TRANSFORM_FAILED;

fn print<T: std::fmt::Debug>(input: T) -> Parser<T, ()> {
    println!("{:?}", input);
    Parser::Done(input, ())
}

fn x_abcd(i: &[u8]) -> Parser<&[u8], &[u8]> {
    omnom::tag(b"abcd", i)
}

fn ret_int(i: &[u8]) -> Parser<&[u8], isize> {
    Parser::Done(i, 1)
}

fn y(input: &[u8]) -> Parser<&[u8], isize> {
    omnom::compose(input, x_abcd, ret_int)
}

fn temp_ret_int1(i: &[u8]) -> Parser<&[u8], isize> {
    Parser::Done(i, 1)
}

fn ret_int1(i: &[u8]) -> Parser<&[u8], isize> {
    omnom::compose(i, x_abcd, temp_ret_int1)
}

fn ret_int2(i: &[u8]) -> Parser<&[u8], isize> {
    Parser::Done(i, 2)
}

#[derive(PartialEq, Eq, Debug)]
struct B {
    a: isize,
    b: isize,
}

fn f_chain(i: &[u8]) -> Parser<&[u8], B> {
    omnom::chain2(i, ret_int1, ret_int2, |aa, bb| B { a: aa, b: bb })
}

#[test]
fn flat_map_fn_test() {
    Parser::Done((), ()).flat_map(print);
}

#[test]
fn flat_map_closure_test() {
    Parser::Done((), ()).flat_map(|data| {
        println!("data: {:?}", data);
        Parser::Done(data, ())
    });
}

#[test]
fn t1() {
    let v1: Vec<u8> = vec![1, 2, 3];
    let v2: Vec<u8> = vec![4, 5, 6];
    let d = Parser::Done(v1.as_slice(), v2.as_slice());
    let res = d.flat_map(print);
    assert_eq!(res, Parser::Done(v2.as_slice(), ()));
}

#[test]
fn chain_and_ignore_test() {
    let r = Parser::Done((), "abcd".as_bytes()).flat_map(y);
    assert_eq!(r, Parser::Done("".as_bytes(), 1));
}

#[test]
fn chain_test() {
    let r = Parser::Done((), "abcde".as_bytes()).flat_map(f_chain);
    assert_eq!(r, Parser::Done("e".as_bytes(), B { a: 1, b: 2 }));
}

#[test]
fn tag_consumes_exactly_the_literal() {
    let r = omnom::tag(b"abcd", b"abcde");
    assert_eq!(r, Parser::Done(&b"e"[..], &b""[..]));
}

#[test]
fn tag_mismatch_fails() {
    let r = omnom::tag(b"abcd", b"abXd");
    assert_eq!(r, Parser::Error(CODE_MISMATCH));
    let r = omnom::tag(b"abcd", b"x");
    assert_eq!(r, Parser::Error(CODE_MISMATCH));
}

#[test]
fn tag_strict_prefix_suspends() {
    let r = omnom::tag(b"abcd", b"ab");
    assert_eq!(r, Parser::Incomplete(2));
    let r = omnom::tag(b"abcd", b"");
    assert_eq!(r, Parser::Incomplete(4));
}

#[test]
fn flat_map_error_short_circuits_without_calling_f() {
    let calls = Cell::new(0usize);
    let e: Parser<&[u8], &[u8]> = Parser::Error(7);
    let r = e.flat_map(|o| {
        calls.set(calls.get() + 1);
        Parser::Done(o, o)
    });
    assert_eq!(r, Parser::Error(7));
    assert_eq!(calls.get(), 0);
}

#[test]
fn map_opt_error_short_circuits_without_calling_f() {
    let calls = Cell::new(0usize);
    let e: Parser<&[u8], &[u8]> = Parser::Error(9);
    let r = e.map_opt(|_o| {
        calls.set(calls.get() + 1);
        Some(0usize)
    });
    assert_eq!(r, Parser::Error(9));
    assert_eq!(calls.get(), 0);
}

#[test]
fn map_opt_missing_value_becomes_parse_failure() {
    let d: Parser<&[u8], &[u8]> = Parser::Done(b"rest", b"out");
    let r = d.map_opt(|_o| None::<usize>);
    assert_eq!(r, Parser::Error(CODE_TRANSFORM_FAILED));
}

#[test]
fn map_opt_preserves_the_remaining() {
    let d: Parser<&[u8], &[u8]> = Parser::Done(b"rest", b"out");
    let r = d.map_opt(|o| Some(o.len()));
    assert_eq!(r, Parser::Done(&b"rest"[..], 3));
}

#[test]
fn incomplete_propagates_through_the_algebra() {
    let s: Parser<&[u8], &[u8]> = Parser::Incomplete(5);
    let r = s.flat_map(|o| Parser::Done(o, o));
    assert_eq!(r, Parser::Incomplete(5));
    let s: Parser<&[u8], &[u8]> = Parser::Incomplete(5);
    let r = s.map_opt(|o| Some(o));
    assert_eq!(r, Parser::Incomplete(5));
}

#[test]
fn done_round_trips_through_identity_transform() {
    let v1 = &b"remaining"[..];
    let v2 = &b"output"[..];
    let d: Parser<&[u8], &[u8]> = Parser::Done(v1, v2);
    let r = d.map_opt(|o| Some(o));
    assert_eq!(r, Parser::Done(v1, v2));
}

#[test]
fn chain_stops_at_the_first_error() {
    let r: Parser<&[u8], B> = omnom::chain2(
        b"xxxxx",
        ret_int1,
        ret_int2,
        |aa, bb| B { a: aa, b: bb },
    );
    assert_eq!(r, Parser::Error(CODE_MISMATCH));
}

#[test]
fn chain_suspends_on_a_partial_first_field() {
    let r: Parser<&[u8], B> = omnom::chain2(
        b"ab",
        ret_int1,
        ret_int2,
        |aa, bb| B { a: aa, b: bb },
    );
    assert_eq!(r, Parser::Incomplete(2));
}

#[test]
fn two_tags_consume_the_whole_input() {
    let r: Parser<&[u8], ()> = omnom::chain2(
        b"abcde",
        |i: &[u8]| omnom::tag(b"abcd", i),
        |i: &[u8]| omnom::tag(b"e", i),
        |_a: &[u8], _b: &[u8]| (),
    );
    match r {
        Parser::Done(rem, ()) => assert_eq!(rem, b""),
        _ => panic!("expected success over the whole input"),
    }
}

#[test]
fn begin_offers_the_whole_view() {
    let r = omnom::begin(b"abc");
    assert_eq!(r, Parser::Done((), &b"abc"[..]));
}
