use greptimedb_wide_metrics::number::is_number;

#[test]
fn numbers_are_recognized() {
    for text in [
        "0", "7", "007", "3.14", "-3.14", "+3.14", "2.5E10", "2.5e10", "2.5E-10", "2.5e+10", "5.",
        ".5", "-.5", "5.e3", ".5e3", "inf", "-inf", "+infinity", "NaN", "-nan", "iNfInItY",
        "1e999999999999999999999", "0000000000000000000000000000000000000000.1",
    ] {
        assert!(is_number(text), "{text}");
        assert!(text.parse::<f64>().is_ok(), "{text}");
    }
}

#[test]
fn other_texts_are_not() {
    for text in [
        "", "+", "-", ".", "+.", "e5", ".e5", "1e", "1e+", "1e5.0", "1.2.3", "1..2", "--1", "+-1",
        " 1", "1 ", "1_000", "1,5", "0x10", "node1", "in", "infi", "infinit", "infinityy", "nano",
        "na", "1f", "1.5f64", "\u{661}", "i\u{307}nf", "１",
    ] {
        assert!(!is_number(text), "{text}");
        assert!(text.parse::<f64>().is_err(), "{text}");
    }
}

#[test]
fn agrees_with_parsing_on_short_texts() {
    let letters = ['0', '9', '.', 'e', 'E', '+', '-', 'i', 'n', 'f', 'a', ' '];
    let mut texts: Vec<String> = vec![String::new()];
    for _ in 0..5 {
        let mut longer: Vec<String> = vec![];
        for text in &texts {
            assert_eq!(is_number(text), text.parse::<f64>().is_ok(), "{text:?}");
            for letter in letters {
                longer.push(format!("{text}{letter}"));
            }
        }
        texts = longer;
    }
}
