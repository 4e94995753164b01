use gen_gps_data::number::is_float;

#[test]
fn plain_numbers_are_floats() {
    for text in ["0", "37", "37.0", "127.001", "-3.14", "+3.14", "5.", ".5", "-.5", "+5.", "007", "0.000001"] {
        assert!(is_float(text), "{:?}", text);
    }
}

#[test]
fn numbers_with_exponents_are_floats() {
    for text in ["2.5E10", "2.5e10", "2.5E-10", "1e+5", "1.e5", ".5e0", "-1e-1", "12e34"] {
        assert!(is_float(text), "{:?}", text);
    }
}

#[test]
fn names_of_special_values_are_floats() {
    for text in ["inf", "-inf", "+infinity", "NaN", "nan", "INF", "Infinity", "iNfInItY", "+NAN", "-nan"] {
        assert!(is_float(text), "{:?}", text);
    }
}

#[test]
fn texts_without_a_digit_are_no_floats() {
    for text in ["", "+", "-", ".", "+.", "e", "e5", ".e5", "-e5", "abc", "north"] {
        assert!(!is_float(text), "{:?}", text);
    }
}

#[test]
fn broken_exponents_are_no_floats() {
    for text in ["1e", "1e+", "1e-", "1e1.5", "1e5e5", "1ee5", "1e 5", "1e++5"] {
        assert!(!is_float(text), "{:?}", text);
    }
}

#[test]
fn other_notations_are_no_floats() {
    for text in ["1.2.3", "1,5", " 1", "1 ", "1_000", "0x10", "1f64", "++1", "--1", "+-1", "１", "37.0N", "infinit", "infinityy", "in", "na", "nann", "+ inf"] {
        assert!(!is_float(text), "{:?}", text);
    }
}

#[test]
fn is_float_agrees_with_the_standard_library_on_short_texts() {
    let alphabet = ['0', '7', '.', 'e', 'E', '+', '-', 'i', 'n', 'f', 'a', ' '];
    let mut texts = vec![String::new()];
    assert_eq!(is_float(""), "".parse::<f64>().is_ok());
    for _ in 0..5 {
        let mut longer = Vec::with_capacity(texts.len() * alphabet.len());
        for text in &texts {
            for c in alphabet {
                let mut next = text.clone();
                next.push(c);
                longer.push(next);
            }
        }
        for text in &longer {
            assert_eq!(is_float(text), text.parse::<f64>().is_ok(), "{:?}", text);
        }
        texts = longer;
    }
}

#[test]
fn is_float_agrees_with_the_standard_library_on_long_words() {
    let heads = ["", "+", "-", "1", "."];
    let words = ["inf", "INF", "Inf", "infinity", "INFINITY", "InFiNiTy", "nan", "NAN", "NaN", "infinit", "infinite", "infinityx", "nanx", "infx", "ınf", "İnf", "ｉｎｆ"];
    let tails = ["", "0", "e5", " "];
    for head in heads {
        for word in words {
            for tail in tails {
                let text = format!("{}{}{}", head, word, tail);
                assert_eq!(is_float(&text), text.parse::<f64>().is_ok(), "{:?}", text);
            }
        }
    }
}

#[test]
fn is_float_agrees_with_the_standard_library_on_written_numbers() {
    let values = [0.0_f64, 37.0, 127.001, -33.8688, 151.2093, 1e-7, 6.02214076e23, f64::MAX, f64::MIN_POSITIVE, f64::INFINITY, f64::NEG_INFINITY, f64::NAN];
    for value in values {
        for text in [format!("{}", value), format!("{:e}", value), format!("{:E}", value), format!("{:.6}", value), format!("{:+}", value)] {
            assert!(text.parse::<f64>().is_ok());
            assert!(is_float(&text), "{:?}", text);
        }
    }
}

#[test]
fn is_float_agrees_with_the_standard_library_on_very_long_numbers() {
    let digits = "1234567890".repeat(100);
    let texts = [
        digits.clone(),
        format!("-{}.{}", digits, digits),
        format!(".{}e-{}", digits, digits),
        format!("{}E+{}", digits, digits),
        "1e99999999999999999999999".to_string(),
        "1e-99999999999999999999999".to_string(),
        format!("{}e", digits),
        format!("{}.{}.", digits, digits),
    ];
    for text in texts {
        assert_eq!(is_float(&text), text.parse::<f64>().is_ok(), "{:?}", text);
    }
    assert!(is_float(&digits));
    assert!(!is_float(&format!("{}e", digits)));
}
