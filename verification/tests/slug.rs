use site_compiler::slug::{
    is_normal_form, join_words, normalise_title_for_url, split_words, strip_hyphens,
    underscore_words,
};
use site_compiler::text::{is_whitespace, to_chars, trim};

#[test]
fn slug_of_a_hyphenated_title() {
    assert_eq!(normalise_title_for_url("My-Post Title"), "mypost_title");
    assert_eq!(normalise_title_for_url("My - Post Title"), "my_post_title");
}

#[test]
fn slug_of_a_title_with_a_spaced_hyphen() {
    assert_eq!(normalise_title_for_url("My Post - Draft"), "my_post_draft");
}

#[test]
fn slug_is_its_own_slug() {
    for title in ["My-Post Title", "  A  b\tC-d ", "", "-", "already_normal", "Ünï cÖde"] {
        let once = normalise_title_for_url(title);
        assert_eq!(normalise_title_for_url(&once), once);
    }
    assert_eq!(normalise_title_for_url("my_post_title"), "my_post_title");
}

#[test]
fn slug_of_titles_without_words() {
    assert_eq!(normalise_title_for_url(""), "");
    assert_eq!(normalise_title_for_url(" \t\n "), "");
    assert_eq!(normalise_title_for_url("---"), "");
    assert_eq!(normalise_title_for_url(" - - "), "");
}

#[test]
fn slug_lowers_letters_beyond_ascii() {
    assert_eq!(normalise_title_for_url("ÄÖÜ Straße"), "äöü_straße");
    assert_eq!(normalise_title_for_url("ΟΔΟΣ"), "οδος");
}

#[test]
fn slug_splits_at_every_kind_of_white_space() {
    assert_eq!(normalise_title_for_url("a\u{a0}b\u{2003}c\u{3000}d\r\ne"), "a_b_c_d_e");
    assert_eq!(normalise_title_for_url("a\u{200b}b"), "a\u{200b}b");
}

#[test]
fn shape_keeps_the_case() {
    assert_eq!(underscore_words("My-Post Title"), "MyPost_Title");
    assert_eq!(underscore_words("  One   Two  "), "One_Two");
    assert_eq!(underscore_words("a-b - c"), "ab_c");
}

#[test]
fn shaping_twice_is_shaping_once() {
    for title in ["My-Post Title", " x - y ", "--", "One"] {
        let once = underscore_words(title);
        assert_eq!(underscore_words(&once), once);
    }
}

#[test]
fn hyphens_are_removed_and_nothing_else() {
    assert_eq!(strip_hyphens(&to_chars("-a--b-")), vec!['a', 'b']);
    assert_eq!(strip_hyphens(&to_chars("a_b \u{2010}")), to_chars("a_b \u{2010}"));
}

#[test]
fn words_are_the_runs_between_white_space() {
    assert_eq!(
        split_words(&to_chars("  one two\n\nthree ")),
        vec![to_chars("one"), to_chars("two"), to_chars("three")]
    );
    assert!(split_words(&to_chars(" \t ")).is_empty());
    assert!(split_words(&to_chars("")).is_empty());
    assert_eq!(split_words(&to_chars("x")), vec![vec!['x']]);
}

#[test]
fn words_are_joined_with_the_separator_between() {
    assert_eq!(join_words(&vec![to_chars("a"), to_chars("bc")], '_'), "a_bc");
    assert_eq!(join_words(&vec![to_chars("a")], '_'), "a");
    assert_eq!(join_words(&vec![], '_'), "");
    assert_eq!(join_words(&vec![vec![], vec![]], '+'), "+");
}

#[test]
fn white_space_is_what_the_standard_library_takes_for_it() {
    for code in 0..=0x10FFFFu32 {
        if let Some(c) = char::from_u32(code) {
            assert_eq!(is_whitespace(c), c.is_whitespace(), "U+{:04X}", code);
        }
    }
}

#[test]
fn trim_removes_white_space_at_both_ends_only() {
    assert_eq!(trim("  a b  "), "a b");
    assert_eq!(trim("\n\t\u{a0}x\u{2028}"), "x");
    assert_eq!(trim("x"), "x");
    assert_eq!(trim(""), "");
    assert_eq!(trim(" \r\n "), "");
    for text in [" a ", "\u{3000}é \u{85}", "no space", "\u{200b} zero width \u{200b}"] {
        assert_eq!(trim(text), text.trim());
    }
}

#[test]
fn a_string_gives_its_characters() {
    let chars = to_chars("héllo");
    assert_eq!(chars, vec!['h', 'é', 'l', 'l', 'o']);
    assert!(to_chars("").is_empty());
}

#[test]
fn normal_form_is_plain_and_lower_case() {
    assert!(is_normal_form("my_post_title"));
    assert!(is_normal_form(""));
    assert!(is_normal_form("straße_42"));
    assert!(!is_normal_form("My_Post"));
    assert!(!is_normal_form("my post"));
    assert!(!is_normal_form("my-post"));
    assert!(!is_normal_form("my\u{a0}post"));
    assert!(!is_normal_form("ÄPFEL"));
}

#[test]
fn a_title_in_normal_form_is_its_own_slug() {
    for title in ["my_post_title", "", "a", "äöü_1"] {
        assert!(is_normal_form(title));
        assert_eq!(normalise_title_for_url(title), title);
    }
    for title in ["My-Post Title", "  A  b\tC-d ", "Ünï cÖde", "ΟΔΟΣ"] {
        assert!(is_normal_form(&normalise_title_for_url(title)));
    }
}
