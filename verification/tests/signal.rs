//! Tests for the day-16 signal transform.
use intcode::d16::{apply_transform, read_offset, repeat_with_offset, transform_signal};

const CYCLES: u64 = 100;
const MULTIPLIER: usize = 10_000;
const OFFSET: usize = 7;

fn parse(s: &str) -> Vec<i32> {
    s.chars().map(|c| c.to_digit(10).unwrap() as i32).collect()
}

#[test]
fn test_transform() {
    let mut s = parse("12345678");
    transform_signal(&mut s, 0);
    assert_eq!(s, parse("48226158"));
    transform_signal(&mut s, 0);
    assert_eq!(s, parse("34040438"));
    transform_signal(&mut s, 0);
    assert_eq!(s, parse("03415518"));
    transform_signal(&mut s, 0);
    assert_eq!(s, parse("01029498"));
}

#[test]
fn test_apply_transform_1() {
    let s = parse("80871224585914546619083218645595");
    let t = apply_transform(&s, CYCLES, 1, 0).unwrap();
    assert_eq!(t[..8], parse("24176176")[..]);
}

#[test]
fn test_apply_transform_2() {
    let s = parse("19617804207202209144916044189917");
    let t = apply_transform(&s, CYCLES, 1, 0).unwrap();
    assert_eq!(t[..8], parse("73745418")[..]);
}

#[test]
fn test_apply_transform_3() {
    let s = parse("69317163492948606335995924319873");
    let t = apply_transform(&s, CYCLES, 1, 0).unwrap();
    assert_eq!(t[..8], parse("52432133")[..]);
}

#[test]
fn test_transform_repeated_offset_1() {
    let s = parse("03036732577212944063491565474664");
    let t = apply_transform(&s, CYCLES, MULTIPLIER, OFFSET).unwrap();
    assert_eq!(t[..8], parse("84462026")[..]);
}

#[test]
fn test_transform_repeated_offset_2() {
    let s = parse("02935109699940807407585447034323");
    let t = apply_transform(&s, CYCLES, MULTIPLIER, OFFSET).unwrap();
    assert_eq!(t[..8], parse("78725270")[..]);
}

#[test]
fn test_transform_repeated_offset_3() {
    let s = parse("03081770884921959731165446850517");
    let t = apply_transform(&s, CYCLES, MULTIPLIER, OFFSET).unwrap();
    assert_eq!(t[..8], parse("53553731")[..]);
}

#[test]
fn test_read_offset() {
    let s = parse("0303673");
    assert_eq!(read_offset(&s, 7), 303673);
    assert_eq!(read_offset(&s, 0), 0);
}

#[test]
fn test_repeat_with_offset() {
    let s = parse("123");
    assert_eq!(repeat_with_offset(&s, 0, 0), Vec::<i32>::new());
    assert_eq!(repeat_with_offset(&s, 1, 0), parse("123"));
    assert_eq!(repeat_with_offset(&s, 3, 2), parse("3123123"));
}
