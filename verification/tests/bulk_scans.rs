use solar_front::lexer::bulk::{
    find_non_whitespace, find_token_boundaries, is_id_continue_fast, is_whitespace_fast,
    parse_decimal_digits_bulk, parse_hex_digits_bulk, parse_identifier_branchy,
    parse_identifier_bulk, skip_whitespace_branchy, skip_whitespace_bulk,
};
use std::time::Instant;

#[test]
fn test_simd_whitespace_skipping() {
    assert_eq!(skip_whitespace_bulk(b"   abc"), 3);
    assert_eq!(skip_whitespace_bulk(b"\t\n\r abc"), 4);
    assert_eq!(skip_whitespace_bulk(b"abc"), 0);

    // Test with long whitespace sequence followed by code
    let long_whitespace = " ".repeat(1000) + "function";
    assert_eq!(skip_whitespace_bulk(long_whitespace.as_bytes()), 1000);
}

#[test]
fn test_simd_identifier_parsing() {
    assert_eq!(parse_identifier_bulk(b"identifier "), 10);
    assert_eq!(parse_identifier_bulk(b"func()"), 4);
    assert_eq!(parse_identifier_bulk(b"var123;"), 6);

    // Test with long identifier
    let long_id = "a".repeat(1000) + " ";
    assert_eq!(parse_identifier_bulk(long_id.as_bytes()), 1000);
}

#[test]
fn test_simd_digit_parsing() {
    assert_eq!(parse_decimal_digits_bulk(b"123456 "), 6);
    assert_eq!(parse_decimal_digits_bulk(b"1_000_000;"), 9);
    assert_eq!(parse_hex_digits_bulk(b"deadbeef "), 8);
    assert_eq!(parse_hex_digits_bulk(b"123ABC;"), 6); // Without 0x prefix as used in practice
}

#[test]
fn test_performance_characteristics() {
    let test_input = "    ".repeat(10000) + "contract MyContract";
    let input_bytes = test_input.as_bytes();

    let start = Instant::now();
    for _ in 0..1000 {
        let _ = skip_whitespace_bulk(input_bytes);
    }
    let simd_time = start.elapsed();

    let start = Instant::now();
    for _ in 0..1000 {
        let mut pos = 0;
        while pos < input_bytes.len() && is_whitespace_fast(input_bytes[pos]) {
            pos += 1;
        }
    }
    let scalar_time = start.elapsed();

    println!(
        "SIMD: {:?}, Scalar: {:?}, Ratio: {:.2}x",
        simd_time,
        scalar_time,
        scalar_time.as_nanos() as f64 / simd_time.as_nanos() as f64
    );

    // Verify correctness
    let expected = input_bytes.iter().take_while(|&&b| is_whitespace_fast(b)).count();
    assert_eq!(skip_whitespace_bulk(input_bytes), expected);
}

#[test]
fn test_correctness_against_scalar() {
    let test_cases = [
        &b"   hello world   "[..],
        &b"\t\n\r\n  "[..],
        &b"identifier123_$"[..],
        &b"123456789"[..],
        &b"0xdeadbeef"[..],
        &b""[..],
        &b" "[..],
        &b"a"[..],
        &b"    function test() {"[..],
        &b"\t\tcontract Example {"[..],
    ];

    for &input in &test_cases {
        // Test whitespace functions match scalar
        let simd_ws = skip_whitespace_bulk(input);
        let scalar_ws = input.iter().take_while(|&&b| is_whitespace_fast(b)).count();
        assert_eq!(
            simd_ws,
            scalar_ws,
            "Whitespace mismatch for: {:?}",
            std::str::from_utf8(input).unwrap_or("invalid utf8")
        );

        // Test identifier functions match scalar
        let simd_id = parse_identifier_bulk(input);
        let scalar_id = input.iter().take_while(|&&b| is_id_continue_fast(b)).count();
        assert_eq!(
            simd_id,
            scalar_id,
            "Identifier mismatch for: {:?}",
            std::str::from_utf8(input).unwrap_or("invalid utf8")
        );
    }
}

#[test]
fn bulk_scans_at_chunk_edges() {
    // A run that ends at every offset around the chunk widths.
    for n in 0..40usize {
        let ws = " ".repeat(n) + "x";
        assert_eq!(skip_whitespace_bulk(ws.as_bytes()), n);
        let tabs = "\t".repeat(n) + "\n\r x";
        assert_eq!(skip_whitespace_bulk(tabs.as_bytes()), n + 3);
        let id = "a".repeat(n) + "-";
        assert_eq!(parse_identifier_bulk(id.as_bytes()), n);
        let dec = "7".repeat(n) + "a";
        assert_eq!(parse_decimal_digits_bulk(dec.as_bytes()), n);
        let hex = "f".repeat(n) + "g";
        assert_eq!(parse_hex_digits_bulk(hex.as_bytes()), n);
        let all = " ".repeat(n);
        assert_eq!(skip_whitespace_bulk(all.as_bytes()), n);
    }
}

#[test]
fn digits_take_underscores_but_not_letters() {
    assert_eq!(parse_decimal_digits_bulk(b"12_34ab"), 5);
    assert_eq!(parse_hex_digits_bulk(b"12_34abXY"), 7);
    assert_eq!(parse_decimal_digits_bulk(b"_"), 1);
    assert_eq!(parse_decimal_digits_bulk(b""), 0);
    assert_eq!(parse_hex_digits_bulk(b""), 0);
}

#[test]
fn find_non_whitespace_cases() {
    assert_eq!(find_non_whitespace(b""), None);
    assert_eq!(find_non_whitespace(b"   "), None);
    assert_eq!(find_non_whitespace(b"x"), Some(0));
    assert_eq!(find_non_whitespace(b" \t\r\n;"), Some(4));
}

#[test]
fn token_boundaries_are_spaces_tabs_and_line_feeds() {
    assert_eq!(find_token_boundaries(b""), Vec::<usize>::new());
    assert_eq!(find_token_boundaries(b"abc"), Vec::<usize>::new());
    assert_eq!(find_token_boundaries(b"a b\tc\nd\re"), vec![1, 3, 5]);
    assert_eq!(find_token_boundaries(b"  "), vec![0, 1]);
    assert_eq!(find_token_boundaries(b"x "), vec![1]);
}

#[test]
fn branchy_scans_agree_with_bulk_scans() {
    let inputs: [&[u8]; 6] =
        [b"", b"   x", b"          12345678 ", b"identifier_1$ rest", b"\t\n\r ", b"a"];
    for input in inputs {
        assert_eq!(skip_whitespace_branchy(input), skip_whitespace_bulk(input));
        assert_eq!(parse_identifier_branchy(input), parse_identifier_bulk(input));
    }
    assert_eq!(skip_whitespace_branchy(b"         x"), 9);
    assert_eq!(parse_identifier_branchy(b"abcdefghij-"), 10);
}
