use noises::float_text::is_float_literal;

#[test]
fn float_literals_by_grammar() {
    for text in [
        "0", "1.", ".5", "0.2", "+1", "-1.5e10", "1e5", "1E-5", "2.5e+3", "inf", "-INF",
        "Infinity", "+iNfInItY", "nan", "NaN", "-nan", "007", "1.e3",
    ] {
        assert!(is_float_literal(text), "{text}");
    }
    for text in [
        "", ".", "+", "-", "e5", "1e", "1e+", "1..2", "1.2.3", " 1", "1 ", "0x10", "infin",
        "nana", "1_000", "--1", "+-1", ".e1", "1e1.5", "١",
    ] {
        assert!(!is_float_literal(text), "{text}");
    }
}

#[test]
fn float_literals_agree_with_std_parse() {
    let pieces = ["", "+", "-", "1", "23", ".", "e", "E", "i", "n", "f", "a", "0", " ", "x"];
    let mut checked = 0;
    for a in pieces {
        for b in pieces {
            for c in pieces {
                for d in pieces {
                    let text = format!("{a}{b}{c}{d}");
                    assert_eq!(
                        is_float_literal(&text),
                        text.parse::<f32>().is_ok(),
                        "{text:?}"
                    );
                    checked += 1;
                }
            }
        }
    }
    assert_eq!(checked, 15 * 15 * 15 * 15);
    for text in ["infinity", "INFINITY", "-Infinity", "nAn", "in", "inff", "+inf", "1.5E+07"] {
        assert_eq!(is_float_literal(text), text.parse::<f32>().is_ok(), "{text}");
    }
}
