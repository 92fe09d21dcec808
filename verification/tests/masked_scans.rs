use solar_front::lexer::simd::{
    classify_chunk_decimal_digits, classify_chunk_hex_digits, classify_chunk_id_continue,
    classify_chunk_whitespace, parse_decimal_digits_simd, parse_hex_digits_simd,
    parse_identifier_bulk, parse_identifier_simd, skip_whitespace_bulk, skip_whitespace_simd,
    SIMD_WIDTH,
};

#[test]
fn masks_have_one_bit_for_each_byte_of_the_class() {
    assert_eq!(classify_chunk_whitespace(b""), 0);
    assert_eq!(classify_chunk_whitespace(b" a\t\nb\r"), 0b101101);
    assert_eq!(classify_chunk_id_continue(b"a1_$-Z "), 0b0101111);
    assert_eq!(classify_chunk_decimal_digits(b"09_a:/"), 0b000111);
    assert_eq!(classify_chunk_hex_digits(b"09_afAFgG"), 0b001111111);
    assert_eq!(classify_chunk_whitespace(" ".repeat(32).as_bytes()), u32::MAX);
    assert_eq!(classify_chunk_whitespace((" ".repeat(31) + "x").as_bytes()), u32::MAX >> 1);
    assert_eq!(classify_chunk_whitespace(("x".to_string() + &" ".repeat(31)).as_bytes()), !1);
    assert_eq!(SIMD_WIDTH, 32);
}

#[test]
fn masked_scans_end_where_the_run_ends() {
    for n in 0..100usize {
        let ws = " \t".repeat(n) + "x  ";
        assert_eq!(skip_whitespace_simd(ws.as_bytes()), 2 * n);
        assert_eq!(skip_whitespace_bulk(ws.as_bytes()), 2 * n);
        let id = "a".repeat(n) + "-a";
        assert_eq!(parse_identifier_simd(id.as_bytes()), n);
        assert_eq!(parse_identifier_bulk(id.as_bytes()), n);
        let dec = "1_".repeat(n) + "a1";
        assert_eq!(parse_decimal_digits_simd(dec.as_bytes()), 2 * n);
        let hex = "f".repeat(n) + "g0";
        assert_eq!(parse_hex_digits_simd(hex.as_bytes()), n);
        let all = "\n".repeat(n);
        assert_eq!(skip_whitespace_simd(all.as_bytes()), n);
        assert_eq!(skip_whitespace_bulk(all.as_bytes()), n);
    }
}

#[test]
fn masked_scans_agree_with_the_unrolled_ones() {
    let inputs = ["", "   hello world   ", "identifier123_$", "0xdeadbeef", "1_000_000;", "\t\n\r\n  "];
    for input in inputs {
        let long = input.repeat(7);
        for text in [input.as_bytes(), long.as_bytes()] {
            assert_eq!(skip_whitespace_simd(text), solar_front::lexer::bulk::skip_whitespace_bulk(text));
            assert_eq!(
                parse_identifier_simd(text),
                solar_front::lexer::bulk::parse_identifier_bulk(text)
            );
            assert_eq!(
                parse_decimal_digits_simd(text),
                solar_front::lexer::bulk::parse_decimal_digits_bulk(text)
            );
            assert_eq!(
                parse_hex_digits_simd(text),
                solar_front::lexer::bulk::parse_hex_digits_bulk(text)
            );
        }
    }
}
