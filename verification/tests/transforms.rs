use batch_renamer::command::Command;
use batch_renamer::text::chars_of;
use batch_renamer::transform::{
    add_prefix, add_suffix, regex_replace, remove_string, replace_string, rewritten_or_unchanged,
};

fn literal_cases() -> Vec<(&'static str, &'static str, &'static str)> {
    vec![
        ("", "", ""),
        ("", "", "x"),
        ("", "a", "x"),
        ("abc", "", "-"),
        ("abc", "", ""),
        ("abc", "b", ""),
        ("abc", "abc", "x"),
        ("abc", "abcd", "x"),
        ("aaa", "aa", "b"),
        ("aaaa", "aa", "b"),
        ("aabb", "ab", ""),
        ("abab", "ab", "ba"),
        ("a.b.c", ".", ".."),
        ("photo (1).jpg", " (1)", ""),
        ("IMG_001_IMG.png", "IMG", "pic"),
        ("naïve café.txt", "é", "e"),
        ("日本語のファイル.txt", "の", "_"),
        ("日本語", "", "·"),
        ("xxhelloxx", "x", "yy"),
        ("mississippi", "ss", "s"),
        ("mississippi", "issi", "I"),
    ]
}

#[test]
fn replace_agrees_with_the_standard_library() {
    for (name, old, new) in literal_cases() {
        let expected = name.replace(old, new);
        assert_eq!(replace_string(name, old, new), expected, "{name:?} {old:?} {new:?}");
    }
}

/// Every text over `alphabet` of at most `max` characters.
fn short_texts(alphabet: &[char], max: usize) -> Vec<String> {
    let mut texts = vec![String::new()];
    let mut last = vec![String::new()];
    for _ in 0..max {
        let mut next = Vec::new();
        for text in &last {
            for c in alphabet {
                let mut longer = text.clone();
                longer.push(*c);
                next.push(longer);
            }
        }
        texts.extend(next.iter().cloned());
        last = next;
    }
    texts
}

#[test]
fn replace_agrees_with_the_standard_library_on_all_short_texts() {
    let names = short_texts(&['a', 'b', 'é'], 5);
    let patterns = short_texts(&['a', 'b', 'é'], 2);
    for name in &names {
        for old in &patterns {
            for new in ["", "a", "ba", "x", "éé"] {
                assert_eq!(replace_string(name, old, new), name.replace(old.as_str(), new));
            }
        }
    }
}

#[test]
fn remove_agrees_with_the_standard_library() {
    for (name, pattern, _) in literal_cases() {
        assert_eq!(remove_string(name, pattern), name.replace(pattern, ""), "{name:?} {pattern:?}");
    }
}

#[test]
fn remove_deletes_every_occurrence() {
    assert_eq!(remove_string("IMG_001_IMG.png", "IMG"), "_001_.png");
    assert_eq!(remove_string("copy of copy of a.txt", "copy of "), "a.txt");
    assert_eq!(remove_string("a.txt", "zzz"), "a.txt");
}

#[test]
fn remove_scans_from_the_left_without_overlap() {
    assert_eq!(remove_string("aaa", "aa"), "a");
    assert_eq!(remove_string("ababa", "aba"), "ba");
}

#[test]
fn remove_may_leave_an_occurrence_that_it_created() {
    assert_eq!(remove_string("aabb", "ab"), "ab");
}

#[test]
fn remove_of_one_character_leaves_none_of_it() {
    for name in ["a_b__c_.txt", "____", "", "no underscore", "_"] {
        assert!(!remove_string(name, "_").contains('_'));
    }
}

#[test]
fn remove_of_the_empty_pattern_changes_nothing() {
    assert_eq!(remove_string("file.txt", ""), "file.txt");
    assert_eq!(remove_string("", ""), "");
}

#[test]
fn replace_exchanges_every_occurrence() {
    assert_eq!(replace_string("a.txt", "a", "x"), "x.txt");
    assert_eq!(replace_string("b.txt", "a", "x"), "b.txt");
    assert_eq!(replace_string("2023-01-02", "-", "_"), "2023_01_02");
}

#[test]
fn replace_puts_new_wherever_old_stood() {
    let renamed = replace_string("old_report_old.txt", "old", "new");
    assert_eq!(renamed, "new_report_new.txt");
    assert!(renamed.contains("new"));
    assert!(!renamed.contains("old"));
}

#[test]
fn replace_with_unrelated_characters_leaves_no_old() {
    for name in ["aabb", "abab", "ab", "xaby", "aab", "abb", ""] {
        assert!(!replace_string(name, "ab", "-").contains("ab"));
    }
}

#[test]
fn replace_without_overlap_leaves_no_old() {
    for name in ["ab", "aab", "abb", "aabb", "abab", "xabyab", "a", "b", "", "xaab", "abxay"] {
        for new in ["xay", "_", "ccc", "yax"] {
            assert!(!replace_string(name, "ab", new).contains("ab"), "{name:?} {new:?}");
        }
    }
}

#[test]
fn replace_with_overlap_may_leave_old() {
    assert_eq!(replace_string("aab", "ab", "b"), "ab");
    assert_eq!(replace_string("ab", "ab", "xabx"), "xabx");
    assert_eq!(replace_string("aab", "ab", "ba"), "aba");
    assert_eq!(replace_string("abb", "ab", "a"), "ab");
}

#[test]
fn replace_changes_the_name_exactly_where_old_occurs_and_new_differs() {
    let names = ["", "a", "ab", "ba", "aab", "abab", "xyz", "a.b", "b.a"];
    let pairs = [("ab", "ab"), ("ab", "ba"), ("ab", ""), ("ab", "abc"), ("a", "b"), ("z", "zz")];
    for name in names {
        for (old, new) in pairs {
            let changed = replace_string(name, old, new) != name;
            assert_eq!(changed, name.contains(old) && old != new, "{name:?} {old:?} {new:?}");
        }
    }
}

#[test]
fn remove_shortens_the_name_exactly_where_the_pattern_occurs() {
    for name in ["", "a", "ab", "aab", "abab", "xyz"] {
        let renamed = remove_string(name, "ab");
        assert!(renamed.len() <= name.len());
        assert_eq!(renamed.len() < name.len(), name.contains("ab"));
    }
}

#[test]
fn replace_of_the_empty_pattern_sets_new_around_every_character() {
    assert_eq!(replace_string("abc", "", "-"), "-a-b-c-");
    assert_eq!(replace_string("", "", "-"), "-");
}

#[test]
fn replace_does_not_scan_what_it_has_put() {
    assert_eq!(replace_string("aa", "a", "aa"), "aaaa");
    assert_eq!(replace_string("abc", "b", "bb"), "abbc");
}

#[test]
fn add_prefix_goes_before_the_whole_name() {
    assert_eq!(add_prefix("file.txt", "new_"), "new_file.txt");
    assert_eq!(add_prefix(".hidden", "x"), "x.hidden");
    assert_eq!(add_prefix("file.txt", ""), "file.txt");
    assert_eq!(add_prefix("", "p"), "p");
}

#[test]
fn add_prefix_starts_with_the_prefix_and_adds_the_lengths() {
    let cases = [("n", "p"), ("file.txt", "2024_"), ("", ""), ("ü.txt", "é_"), ("a", "")];
    for (name, prefix) in cases {
        let renamed = add_prefix(name, prefix);
        assert!(renamed.starts_with(prefix));
        assert_eq!(renamed.len(), prefix.len() + name.len());
        assert_eq!(renamed.chars().count(), prefix.chars().count() + name.chars().count());
    }
}

#[test]
fn add_suffix_goes_before_the_extension() {
    assert_eq!(add_suffix("file.txt", "_v2"), "file_v2.txt");
}

#[test]
fn add_suffix_goes_to_the_end_without_a_dot() {
    assert_eq!(add_suffix("README", "_old"), "README_old");
    assert_eq!(add_suffix("", "_old"), "_old");
}

#[test]
fn add_suffix_splits_at_the_last_dot() {
    assert_eq!(add_suffix("archive.tar.gz", "_v2"), "archive.tar_v2.gz");
    assert_eq!(add_suffix("a.b.c.d", "-"), "a.b.c-.d");
}

#[test]
fn add_suffix_treats_a_leading_dot_as_the_separator() {
    assert_eq!(add_suffix(".bashrc", "_old"), "_old.bashrc");
    assert_eq!(add_suffix(".config.toml", "_old"), ".config_old.toml");
}

#[test]
fn add_suffix_with_a_trailing_dot() {
    assert_eq!(add_suffix("file.", "_x"), "file_x.");
    assert_eq!(add_suffix(".", "_x"), "_x.");
}

#[test]
fn add_suffix_adds_the_lengths() {
    for (name, suffix) in [("file.txt", "_v2"), ("README", ""), ("日本.語", "é"), ("", "")] {
        let renamed = add_suffix(name, suffix);
        assert_eq!(renamed.len(), name.len() + suffix.len());
        assert_eq!(renamed != name, !suffix.is_empty());
    }
}

#[test]
fn add_suffix_counts_characters_not_bytes() {
    assert_eq!(add_suffix("日本語.txt", "_新"), "日本語_新.txt");
    assert_eq!(add_suffix("é.è", "ê"), "éê.è");
}

#[test]
fn regex_replace_rewrites_matches() {
    assert_eq!(regex_replace("img001.png", "^img", "photo"), "photo001.png");
    assert_eq!(regex_replace("img_img.png", "^img", "photo"), "photo_img.png");
    assert_eq!(regex_replace("a1b22c333", "[0-9]+", "#"), "a#b#c#");
    assert_eq!(regex_replace("notes.txt", "^img", "photo"), "notes.txt");
}

#[test]
fn regex_replace_expands_capture_groups() {
    assert_eq!(regex_replace("2024-03.log", r"(\d+)-(\d+)", "$2-$1"), "03-2024.log");
    let swapped = regex_replace("john smith", r"(?P<first>\w+) (?P<last>\w+)", "${last}_$first");
    assert_eq!(swapped, "smith_john");
}

#[test]
fn regex_replace_with_an_invalid_pattern_changes_nothing() {
    for name in ["img001.png", "", "[", "a[b", "日本語.txt"] {
        assert_eq!(regex_replace(name, "[", "photo"), name);
        assert_eq!(regex_replace(name, "(unclosed", "x"), name);
        assert_eq!(regex_replace(name, "a{2,1}", "x"), name);
    }
}

#[test]
fn rewritten_or_unchanged_takes_the_rewrite_where_there_is_one() {
    assert_eq!(rewritten_or_unchanged("a.txt", Some(String::from("b.txt"))), "b.txt");
    assert_eq!(rewritten_or_unchanged("a.txt", Some(String::new())), "");
    assert_eq!(rewritten_or_unchanged("a.txt", None), "a.txt");
}

#[test]
fn command_applies_its_own_transformation() {
    let name = "img_a.b.txt";
    assert_eq!(Command::Remove { pattern: "img_".into() }.apply(name), "a.b.txt");
    assert_eq!(Command::Replace { old: ".".into(), new: "-".into() }.apply(name), "img_a-b-txt");
    assert_eq!(Command::AddPrefix { prefix: "x_".into() }.apply(name), "x_img_a.b.txt");
    assert_eq!(Command::AddSuffix { suffix: "_x".into() }.apply(name), "img_a.b_x.txt");
    assert_eq!(
        Command::RegexReplace { pattern: "^img".into(), replacement: "photo".into() }.apply(name),
        "photo_a.b.txt"
    );
    assert_eq!(
        Command::RegexReplace { pattern: "[".into(), replacement: "photo".into() }.apply(name),
        name
    );
}

#[test]
fn transformations_are_deterministic() {
    let command = Command::RegexReplace { pattern: "(a+)".into(), replacement: "<$1>".into() };
    assert_eq!(command.apply("baaad"), command.apply("baaad"));
    assert_eq!(command.apply("baaad"), "b<aaa>d");
}

#[test]
fn chars_of_lists_the_characters_in_order() {
    assert_eq!(chars_of("aé日.x"), vec!['a', 'é', '日', '.', 'x']);
    assert_eq!(chars_of(""), Vec::<char>::new());
}
