use stuck::text::{characters, trim};

#[test]
fn characters_are_taken_one_by_one() {
    assert_eq!(characters(""), Vec::<char>::new());
    assert_eq!(characters("aé€😀"), vec!['a', 'é', '€', '😀']);
}

#[test]
fn trim_takes_white_space_from_both_ends() {
    assert_eq!(trim(""), "");
    assert_eq!(trim("   "), "");
    assert_eq!(trim("abc"), "abc");
    assert_eq!(trim("  a b\tc \r\n"), "a b\tc");
    assert_eq!(trim("\u{a0}\u{2003}x\u{3000}\u{85}\u{2028}"), "x");
    assert_eq!(trim("\u{200b}x"), "\u{200b}x");
}

#[test]
fn trim_agrees_with_the_standard_library() {
    for code in 0..0x3100u32 {
        if let Some(c) = char::from_u32(code) {
            let text = format!("{}x{}", c, c);
            assert_eq!(trim(&text), text.trim());
        }
    }
}

#[test]
fn number_texts() {
    for text in [
        "0", "7", "12", "3.14", "7.", ".5", "+1", "-1", "1e5", "1E5", "1e+5", "1e-5", "1.e5",
        ".5e5", "inf", "+inf", "-inf", "INF", "Infinity", "-infinity", "nan", "NaN", "+NAN",
        "0.1e-300", "00012",
    ] {
        assert!(stuck::text::reads_number(text), "{}", text);
    }
    for text in [
        "", " ", "+", "-", ".", "e", "e5", "1e", "1e+", "+.", "-.e1", "1 ", " 1", "1_0", "0x10",
        "1.2.3", "1..2", "infi", "infinit", "infinityy", "na", "nann", "i", "1f", "--1", "+-1",
        "1e5.0", "1e1e1", "٣", "½",
    ] {
        assert!(!stuck::text::reads_number(text), "{}", text);
    }
}

#[test]
fn number_texts_are_what_the_standard_library_reads() {
    let alphabet = [
        '0', '7', '.', '+', '-', 'e', 'E', 'i', 'n', 'f', 'a', 't', 'y', 'I', 'N', 'F', 'A', 'x',
        ' ',
    ];
    let mut texts = vec![String::new()];
    let mut from = 0;
    for _ in 0..4 {
        let to = texts.len();
        for index in from..to {
            for c in alphabet {
                let mut text = texts[index].clone();
                text.push(c);
                texts.push(text);
            }
        }
        from = to;
    }
    assert_eq!(texts.len(), 1 + 19 + 19 * 19 + 19 * 19 * 19 + 19 * 19 * 19 * 19);
    for text in &texts {
        assert_eq!(stuck::text::reads_number(text), text.parse::<f64>().is_ok(), "{:?}", text);
    }
    for text in ["infinity", "INFINITY", "-Infinity", "+iNfInItY", "infinitx", "1.5e+10", "1.5e+1x"] {
        assert_eq!(stuck::text::reads_number(text), text.parse::<f64>().is_ok(), "{:?}", text);
    }
}
