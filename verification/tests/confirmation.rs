use batch_renamer::confirm::{is_affirmative, is_yes_word, trim};

#[test]
fn yes_in_any_case_is_affirmative() {
    for answer in ["y", "Y", "yes", "YES", "Yes", "yEs", "yeS"] {
        assert!(is_affirmative(answer), "{answer:?}");
    }
}

#[test]
fn whitespace_around_the_answer_is_ignored() {
    for answer in ["y\n", "yes\r\n", "  y", "y  ", "\t YES \t\n", "\u{a0}y\u{3000}", "\n\ny\n\n"] {
        assert!(is_affirmative(answer), "{answer:?}");
    }
}

#[test]
fn anything_else_declines() {
    for answer in [
        "", "\n", "   ", "n", "N", "no", "nope", "yess", "ye", "yy", "y es", "y e s", "yes!", "ok",
        "true", "1", "да", "ｙ", "ÿ", "y\u{301}", "yes yes", "\"y\"",
    ] {
        assert!(!is_affirmative(answer), "{answer:?}");
    }
}

#[test]
fn yes_word_is_exact() {
    assert!(is_yes_word("y"));
    assert!(is_yes_word("yes"));
    for word in ["", "Y", "YES", "Yes", " y", "y ", "yes\n", "yse", "n", "yes.", "eys"] {
        assert!(!is_yes_word(word), "{word:?}");
    }
}

#[test]
fn trim_takes_whitespace_from_both_ends_only() {
    assert_eq!(trim("  a b  "), "a b");
    assert_eq!(trim("\t\r\n x \u{2003}\u{a0}"), "x");
    assert_eq!(trim("x"), "x");
    assert_eq!(trim(""), "");
    assert_eq!(trim(" \n\t"), "");
    assert_eq!(trim("\u{200b}y"), "\u{200b}y");
}

#[test]
fn trim_agrees_with_the_standard_library() {
    let texts = [
        "", " ", "a", " a", "a ", " a b ", "\n\ta\u{85}", "\u{1680}x\u{2028}\u{2029}", "\u{feff}x",
        "\u{1c}x\u{1f}",
    ];
    for text in texts {
        assert_eq!(trim(text), text.trim(), "{text:?}");
    }
}
