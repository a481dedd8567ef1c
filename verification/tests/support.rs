use borink::error::{
    str_context, string_context, ContextSource, ErrorWithContext, StringContext, WrapErrorWithContext,
};
use borink::process::{process_out, ProcessError};
use borink::text::{split_chars, str_chars, to_hex, trim_end_chars};
use borink::bytes::{u128_from_le, u128_to_le, u16_from_le, u16_to_le, u64_to_le};

#[test]
fn hex_text() {
    assert_eq!(to_hex(&[0x00, 0x0f, 0xa0, 0xff]), "000fa0ff");
    assert_eq!(to_hex(&[]), "");
}

#[test]
fn process_output() {
    assert_eq!(process_out(b"hello \n\t".to_vec(), "info").unwrap(), "hello");
    match process_out(vec![b'a', 0xff], "out") {
        Err(ProcessError::Decode(c)) => assert_eq!(*c.0, "info=a\u{fffd} out"),
        _ => panic!("invalid UTF-8 is refused"),
    }
}

#[test]
fn splitting_and_trimming() {
    let parts = split_chars(&str_chars("a/b//c"), '/');
    let parts: Vec<String> = parts.into_iter().map(|p| p.into_iter().collect()).collect();
    assert_eq!(parts, vec!["a", "b", "", "c"]);
    let trimmed: String = trim_end_chars(&str_chars("x y  \n")).into_iter().collect();
    assert_eq!(trimmed, "x y");
}

#[test]
fn little_endian_bytes() {
    assert_eq!(u64_to_le(0x0102030405060708), [8, 7, 6, 5, 4, 3, 2, 1]);
    assert_eq!(u16_to_le(0x0102), [2, 1]);
    assert_eq!(u16_from_le(2, 1), 0x0102);
    let x: u128 = 0x0102030405060708090a0b0c0d0e0f10;
    assert_eq!(u128_to_le(x), x.to_le_bytes());
    assert_eq!(u128_from_le(x.to_le_bytes()), x);
}

#[test]
fn error_contexts() {
    let c = ContextSource::new("while reading", 5u8);
    assert_eq!(c.0 .0, "while reading");
    assert_eq!(c.0 .1, 5);
    let w = 7u32.with_context("ctx");
    assert_eq!(w.0 .0, "ctx");
    let r: Result<u8, u8> = Err(3);
    let mapped = r.map_err_with_context("m").unwrap_err();
    assert_eq!(mapped.0 .0, "m");
    assert_eq!(mapped.0 .1, 3);
    assert_eq!(*str_context("s").0, "s");
    assert_eq!(*string_context("t".to_owned()).0, "t");
}

#[test]
fn string_contexts_from_texts() {
    let a: StringContext = "no commit".into();
    assert_eq!(*a.0, "no commit");
    let b: StringContext = String::from("bad path").into();
    assert_eq!(*b.0, "bad path");
}
