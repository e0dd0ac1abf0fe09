use rust_tcp_bench::decimal::append_decimal;
use rust_tcp_bench::decimal::append_padded;

#[test]
fn decimal_digits() {
    let mut s = String::from("n=");
    append_decimal(&mut s, 0);
    append_decimal(&mut s, 1_234_567_890);
    assert_eq!(s, "n=01234567890");
    let mut m = String::new();
    append_decimal(&mut m, u64::MAX);
    assert_eq!(m, "18446744073709551615");
}

#[test]
fn padded_digits() {
    let mut s = String::new();
    append_padded(&mut s, 7, 3);
    s.push('|');
    append_padded(&mut s, 42, 2);
    s.push('|');
    append_padded(&mut s, 12345, 2);
    s.push('|');
    append_padded(&mut s, 0, 0);
    assert_eq!(s, "007|42|12345|0");
}
