use caolc::frontend::FnCtx;
use caolc::literals::{decode_escape, decode_escape_checked, is_float_literal, parse_hex_u32, parse_i64};
use caolc::text::{decimal_string, push_signed_decimal};

#[test]
fn integer_literals_parse_like_std() {
    for text in ["0", "42", "-7", "+7", "007", "9223372036854775807", "-9223372036854775808"] {
        assert_eq!(parse_i64(text), text.parse::<i64>().ok(), "{text}");
    }
    for text in ["", "-", "+", "1a", " 1", "9223372036854775808", "-9223372036854775809", "--1"] {
        assert_eq!(parse_i64(text), None, "{text}");
    }
}

#[test]
fn decimal_text_reads_back_as_the_same_integer() {
    for v in [0i64, 1, -1, 10, 99, -100, i64::MAX, i64::MIN, 1234567890] {
        let mut text = String::new();
        push_signed_decimal(&mut text, v);
        assert_eq!(text, v.to_string());
        assert_eq!(parse_i64(&text), Some(v));
    }
    assert_eq!(decimal_string(0), "0");
    assert_eq!(decimal_string(u64::MAX), "18446744073709551615");
}

#[test]
fn float_literals_accepted_as_std_accepts_them() {
    let texts = [
        "1.5", "1.", ".5", "1e10", "1E-3", "+2.5e+7", "-0.0", "inf", "-Infinity", "NaN", "nan",
        "12", "1e", "e5", ".", "1.2.3", "1e1.5", "", "+", "infin", "1_0", " 1", "0x10", "1e+",
    ];
    for text in texts {
        assert_eq!(is_float_literal(text), text.parse::<f64>().is_ok(), "{text}");
    }
}

#[test]
fn hexadecimal_code_points_parse_like_from_str_radix() {
    for text in ["{1F600}", "{+a}", "{}", "{FFFFFFFF}", "{100000000}", "{-1}", "{g}"] {
        let inner = &text[1..text.len() - 1];
        assert_eq!(parse_hex_u32(text, 1, text.len() - 1), u32::from_str_radix(inner, 16).ok(), "{text}");
    }
}

#[test]
fn escape_sequences_decode_to_their_characters() {
    let cases = [
        ("\\\"", "\""),
        ("\\\\", "\\"),
        ("\\n", "\n"),
        ("\\r", "\r"),
        ("\\t", "\t"),
        ("\\0", "\0"),
        ("\\u{41}", "A"),
        ("\\u{1F600}", "\u{1F600}"),
        ("\\u{e9}", "\u{e9}"),
    ];
    for (raw, decoded) in cases {
        assert_eq!(decode_escape(raw), decoded, "{raw}");
        assert_eq!(decode_escape_checked(raw), Some(decoded.to_string()), "{raw}");
    }
}

#[test]
fn escape_sequences_outside_the_grammar_have_no_value() {
    for raw in ["\\", "\\q", "\\u{}", "\\u{D800}", "\\u{110000}", "\\u{zz}", "\\u}", "é\\n"] {
        assert_eq!(decode_escape_checked(raw), None, "{raw}");
    }
}

#[test]
fn fresh_temporaries_are_numbered_in_order() {
    let known = vec!["main".to_string()];
    let mut ctx = FnCtx::new(&known);
    assert_eq!(ctx.fresh_tmp(), "__caolc_table_tmp_0");
    assert_eq!(ctx.fresh_tmp(), "__caolc_table_tmp_1");
    assert_eq!(ctx.tmp_counter, 2);
    assert!(ctx.is_known(&"main".to_string()));
    assert!(!ctx.is_known(&"other".to_string()));
}

#[test]
fn many_fresh_temporaries_never_repeat() {
    let known: Vec<String> = vec![];
    let mut ctx = FnCtx::new(&known);
    let mut seen = std::collections::HashSet::new();
    for _ in 0..1000 {
        assert!(seen.insert(ctx.fresh_tmp()));
    }
    assert_eq!(ctx.tmp_counter, 1000);
}
