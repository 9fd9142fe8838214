use media_converter::error::ProbeError;
use media_converter::probe::{parse_duration, probe_duration};
use media_converter::process::Exit;

#[test]
fn whole_seconds() {
    assert_eq!(parse_duration("5"), Ok(5_000_000));
    assert_eq!(parse_duration("0"), Ok(0));
    assert_eq!(parse_duration("007"), Ok(7_000_000));
    assert_eq!(parse_duration("5."), Ok(5_000_000));
}

#[test]
fn fractions_of_a_second() {
    assert_eq!(parse_duration("5.000000"), Ok(5_000_000));
    assert_eq!(parse_duration("3.2"), Ok(3_200_000));
    assert_eq!(parse_duration("183.457959"), Ok(183_457_959));
    assert_eq!(parse_duration(".5"), Ok(500_000));
    assert_eq!(parse_duration("0.25"), Ok(250_000));
    assert_eq!(parse_duration("0.001"), Ok(1_000));
}

#[test]
fn rounds_to_the_nearest_microsecond() {
    assert_eq!(parse_duration("0.0000004"), Ok(0));
    assert_eq!(parse_duration("0.0000005"), Ok(1));
    assert_eq!(parse_duration("0.00000049999"), Ok(0));
    assert_eq!(parse_duration("1.2345675"), Ok(1_234_568));
    assert_eq!(parse_duration("1.2345674"), Ok(1_234_567));
    assert_eq!(parse_duration("1.23456749"), Ok(1_234_567));
    assert_eq!(parse_duration("0.9999995"), Ok(1_000_000));
    assert_eq!(parse_duration("9.9999999"), Ok(10_000_000));
}

#[test]
fn blanks_around_the_number_are_dropped() {
    assert_eq!(parse_duration("5.000000\n"), Ok(5_000_000));
    assert_eq!(parse_duration("  7 \r\n"), Ok(7_000_000));
    assert_eq!(parse_duration("\t1.5\t"), Ok(1_500_000));
    assert_eq!(parse_duration("\u{a0}2\u{2003}\u{3000}"), Ok(2_000_000));
    assert_eq!(parse_duration("\u{b}\u{c}3\u{85}\u{2028}"), Ok(3_000_000));
    assert_eq!(parse_duration("\u{200b}4"), Err(ProbeError::ParseFailed));
}

#[test]
fn what_is_no_number_fails() {
    for text in [
        "", " ", "\n", ".", "abc", "N/A", "1.2.3", "1 2", "1,5", "0x10", "5s", "1..2", "inf",
        "infinity", "+inf", "nan", "NaN", "\u{663}", "+", "-", "++1", "+-1", "- 1", "1_000", "e5",
        ".e5", "1e", "1e+", "1e-", "1e5.5", "1e5e5", "1e 5", "1f", "0b1",
    ] {
        assert_eq!(parse_duration(text), Err(ProbeError::ParseFailed), "{:?}", text);
    }
}

#[test]
fn a_plus_sign_is_taken() {
    assert_eq!(parse_duration("+1"), Ok(1_000_000));
    assert_eq!(parse_duration("+.5"), Ok(500_000));
    assert_eq!(parse_duration("+0"), Ok(0));
    assert_eq!(parse_duration(" +12.25\n"), Ok(12_250_000));
}

#[test]
fn a_minus_sign_is_taken_before_zero_only() {
    assert_eq!(parse_duration("-0"), Ok(0));
    assert_eq!(parse_duration("-0.000"), Ok(0));
    assert_eq!(parse_duration("-.0"), Ok(0));
    assert_eq!(parse_duration("-0e5"), Ok(0));
    assert_eq!(parse_duration("-1"), Err(ProbeError::ParseFailed));
    assert_eq!(parse_duration("-0.5"), Err(ProbeError::ParseFailed));
    assert_eq!(parse_duration("-0.0000001"), Err(ProbeError::ParseFailed));
    assert_eq!(parse_duration("-1e-30"), Err(ProbeError::ParseFailed));
}

#[test]
fn exponents_move_the_point() {
    assert_eq!(parse_duration("1e3"), Ok(1_000_000_000));
    assert_eq!(parse_duration("1E3"), Ok(1_000_000_000));
    assert_eq!(parse_duration("1e+3"), Ok(1_000_000_000));
    assert_eq!(parse_duration("1E+2"), Ok(100_000_000));
    assert_eq!(parse_duration("1e0"), Ok(1_000_000));
    assert_eq!(parse_duration("1e-3"), Ok(1_000));
    assert_eq!(parse_duration("1.5e2"), Ok(150_000_000));
    assert_eq!(parse_duration("123456789e-3"), Ok(123_456_789_000));
    assert_eq!(parse_duration("0.000001e6"), Ok(1_000_000));
    assert_eq!(parse_duration(".5e1"), Ok(5_000_000));
    assert_eq!(parse_duration("5.e1"), Ok(50_000_000));
    assert_eq!(parse_duration("3.2e00000000000000000000000000000000000"), Ok(3_200_000));
    assert_eq!(parse_duration("1e-0006"), Ok(1));
}

#[test]
fn exponents_round_to_the_nearest_microsecond() {
    assert_eq!(parse_duration("1e-7"), Ok(0));
    assert_eq!(parse_duration("4.9e-7"), Ok(0));
    assert_eq!(parse_duration("5e-7"), Ok(1));
    assert_eq!(parse_duration("14e-7"), Ok(1));
    assert_eq!(parse_duration("15e-7"), Ok(2));
    assert_eq!(parse_duration("25e-7"), Ok(3));
    assert_eq!(parse_duration("9e-8"), Ok(0));
    assert_eq!(parse_duration("99e-8"), Ok(1));
    assert_eq!(parse_duration("1e-400"), Ok(0));
}

#[test]
fn exponents_of_any_size() {
    assert_eq!(parse_duration("0e99999999999999999999999999999999999999999"), Ok(0));
    assert_eq!(parse_duration("0.000e+99999999999999999999999999999999999999999"), Ok(0));
    assert_eq!(
        parse_duration("1e99999999999999999999999999999999999999999"),
        Err(ProbeError::ParseFailed)
    );
    assert_eq!(parse_duration("1e-99999999999999999999999999999999999999999"), Ok(0));
    assert_eq!(parse_duration("9e-1267650600228229401496703205376"), Ok(0));
    assert_eq!(parse_duration("9e-1267650600228229401496703205377"), Ok(0));
    assert_eq!(parse_duration("10000000000000000000000000000000e-30"), Ok(10_000_000));
    assert_eq!(parse_duration("0.00000000000000000000000000001e30"), Ok(10_000_000));
    assert_eq!(parse_duration("1e13"), Ok(10_000_000_000_000_000_000));
    assert_eq!(parse_duration("1e14"), Err(ProbeError::ParseFailed));
    assert_eq!(parse_duration("2e13"), Err(ProbeError::ParseFailed));
    assert_eq!(parse_duration("18446744073709551615e-6"), Ok(u64::MAX));
    assert_eq!(parse_duration("1844674407370955161.5e-5"), Ok(u64::MAX));
    assert_eq!(parse_duration("1.8446744073709551615e13"), Ok(u64::MAX));
    assert_eq!(parse_duration("1.84467440737095516154e13"), Ok(u64::MAX));
    assert_eq!(parse_duration("1.84467440737095516155e13"), Err(ProbeError::ParseFailed));
    assert_eq!(parse_duration("1.8446744073709551616e13"), Err(ProbeError::ParseFailed));
}

#[test]
fn durations_up_to_64_bits_of_microseconds() {
    assert_eq!(parse_duration("18446744073709.551615"), Ok(u64::MAX));
    assert_eq!(parse_duration("18446744073709.5516154"), Ok(u64::MAX));
    assert_eq!(parse_duration("18446744073709.5516155"), Err(ProbeError::ParseFailed));
    assert_eq!(parse_duration("18446744073709.551616"), Err(ProbeError::ParseFailed));
    assert_eq!(parse_duration("18446744073710"), Err(ProbeError::ParseFailed));
    assert_eq!(parse_duration("18446744073709"), Ok(18_446_744_073_709_000_000));
    assert_eq!(parse_duration("18446744073709551615"), Err(ProbeError::ParseFailed));
    assert_eq!(
        parse_duration("99999999999999999999999999999999999999999999999999"),
        Err(ProbeError::ParseFailed)
    );
    assert_eq!(
        parse_duration("0.00000000000000000000000000000000000000000000000001"),
        Ok(0)
    );
    assert_eq!(parse_duration("000000000000000000000000000000000000000012.5"), Ok(12_500_000));
}

#[test]
fn a_failed_prober_gives_no_duration() {
    assert_eq!(probe_duration(Exit::Code(1), "5.0"), Err(ProbeError::ExecutionFailed));
    assert_eq!(probe_duration(Exit::Code(-1), "5.0"), Err(ProbeError::ExecutionFailed));
    assert_eq!(probe_duration(Exit::NotStarted, ""), Err(ProbeError::ExecutionFailed));
    assert_eq!(probe_duration(Exit::Unknown, "5.0"), Err(ProbeError::ExecutionFailed));
}

#[test]
fn a_successful_prober_is_read() {
    assert_eq!(probe_duration(Exit::Code(0), "3.200000\n"), Ok(3_200_000));
    assert_eq!(probe_duration(Exit::Code(0), "N/A\n"), Err(ProbeError::ParseFailed));
    assert_eq!(probe_duration(Exit::Code(0), ""), Err(ProbeError::ParseFailed));
}
