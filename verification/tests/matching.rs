use soulseek_rs::edit_distance::levenshtein;
use soulseek_rs::md5::{hex, md5, token_of};
use soulseek_rs::punctuation::punctuation;
use soulseek_rs::text::{
    after_last_chars, append_str, before_last_chars, collapse_chars, decimal_chars, find_chars,
    from_chars, lines_chars, parse_number, replace_chars, signed_decimal_chars, split_chars,
    strip_prefix_chars, to_chars, trim_chars, NumberError,
};
use soulseek_rs::text_match::{
    duration_score, duration_score_ms, normalize_str, similarity, tidy_str, Score,
};

fn value(s: Score) -> f64 {
    1.0 - s.lost as f64 / s.out_of as f64
}

fn text(cs: &Vec<char>) -> String {
    from_chars(cs)
}

#[test]
fn similarity_identical() {
    assert!((value(similarity("hello", "hello")) - 1.0).abs() < 1e-10);
}

#[test]
fn similarity_empty() {
    assert!((value(similarity("", "")) - 1.0).abs() < 1e-10);
}

#[test]
fn similarity_one_edit() {
    let s = value(similarity("kitten", "sitten"));
    assert!((s - (1.0 - 1.0 / 6.0)).abs() < 1e-10);
}

#[test]
fn similarity_counts_bytes_of_the_longer_text() {
    // One of three characters differs, and the longer text has four bytes.
    assert_eq!(similarity("abc", "ab\u{e9}"), Score { lost: 1, out_of: 4 });
    assert_eq!(similarity("", "abc"), Score { lost: 3, out_of: 3 });
}

#[test]
fn similarity_is_the_same_both_ways() {
    assert_eq!(similarity("sunday", "saturday"), similarity("saturday", "sunday"));
}

#[test]
fn normalize_strips_parens() {
    assert_eq!(normalize_str("Song (feat. Artist)"), "song");
    assert_eq!(normalize_str("Album [Deluxe Edition]"), "album");
}

#[test]
fn normalize_lowercases_and_trims() {
    assert_eq!(normalize_str("  Hello   WORLD  "), "hello world");
}

#[test]
fn normalize_composes() {
    assert_eq!(normalize_str("Cafe\u{301}"), "caf\u{e9}");
}

#[test]
fn normalize_drops_punctuation() {
    assert_eq!(normalize_str("Stop!"), normalize_str("Stop"));
    assert_eq!(normalize_str("Stop!"), "stop");
    assert_eq!(normalize_str("Don't - Look, \u{201c}Back\u{201d}\u{2026}"), "dont look back");
    assert_eq!(normalize_str("\u{bf}Qu\u{e9}?"), "qu\u{e9}");
    assert_eq!(normalize_str("a ] b )"), "a b");
    assert_eq!(normalize_str("Stop\u{ff01} \u{300c}Now\u{300d}\u{301c}\u{ff5b}x"), "stop nowx");
    assert_eq!(normalize_str("\u{61f}a\u{30fb}b\u{964}"), "ab");
    let whole = similarity(&normalize_str("Stop!"), &normalize_str("stop"));
    assert_eq!(whole.lost, 0);
}

#[test]
fn normal_form_of_ascii_text() {
    let s = "It's  (feat. X)\tTime [Live] - to STOP!";
    let once = normalize_str(s);
    assert_eq!(once, "its time to stop");
    assert_eq!(normalize_str(&once), once);
    assert_eq!(normalize_str(&s.to_ascii_uppercase()), once);
    assert_eq!(normalize_str(&format!("  {s} ")), once);
}

#[test]
fn normal_form_has_no_capitals() {
    let r = normalize_str("\u{c9}COLE \u{212a}ELVIN \u{130}Z");
    assert!(r.chars().all(|c| !c.is_ascii_uppercase()), "{r}");
    assert!(r.starts_with("\u{e9}cole kelvin"), "{r}");
}

#[test]
fn marks_and_letters() {
    for c in ['!', '~', '\u{bf}', '\u{2014}', '\u{2026}', '\u{3001}', '\u{ff1f}', '\u{10101}'] {
        assert!(punctuation(c), "{c}");
    }
    for c in [' ', 'a', 'Z', '0', '\u{e9}', '\u{4e00}', '\u{ff21}', '\u{1f600}'] {
        assert!(!punctuation(c), "{c}");
    }
}

#[test]
fn white_space_of_unicode() {
    let spaces = [
        0x9, 0xd, 0x20, 0x85, 0xa0, 0x1680, 0x2000, 0x200a, 0x2028, 0x2029, 0x202f, 0x205f, 0x3000,
    ];
    for c in spaces {
        let c = char::from_u32(c).unwrap();
        assert_eq!(trim_chars(&vec![c, 'x', c]), vec!['x']);
    }
    for c in [0x8, 0xe, 0x180e, 0x200b, 0x2060, 0xfeff] {
        let c = char::from_u32(c).unwrap();
        assert_eq!(trim_chars(&vec![c, 'x']), vec![c, 'x']);
    }
}

#[test]
fn tidying_again_changes_nothing() {
    let once = tidy_str("a (b) c [d");
    assert_eq!(once, "a c");
    assert_eq!(tidy_str(&once), once);
}

#[test]
fn duration_score_thresholds() {
    assert!((value(duration_score(100, 100, 5, 30)) - 1.0).abs() < 1e-10);
    assert!((value(duration_score(105, 100, 5, 30)) - 1.0).abs() < 1e-10);
    assert!((value(duration_score(130, 100, 5, 30)) - 0.0).abs() < 1e-10);
    let mid = value(duration_score(117, 100, 5, 30));
    assert!((mid - (1.0 - 12.0 / 25.0)).abs() < 1e-10);
}

#[test]
fn duration_score_is_symmetric() {
    let a = value(duration_score(120, 100, 2, 30));
    let b = value(duration_score(100, 120, 2, 30));
    assert!((a - b).abs() < 1e-10);
}

#[test]
fn duration_score_ms_rounds_to_seconds() {
    assert!((value(duration_score_ms(100_500, 100_000, 2, 30)) - 1.0).abs() < 1e-10);
}

#[test]
fn duration_score_ms_takes_negative_times_for_nought() {
    assert_eq!(duration_score_ms(-5_000, 0, 2, 30), Score { lost: 0, out_of: 1 });
    assert_eq!(duration_score_ms(-5_000, 30_000, 2, 30), Score { lost: 1, out_of: 1 });
}

#[test]
fn edit_distances() {
    assert_eq!(levenshtein("kitten", "sitting"), 3);
    assert_eq!(levenshtein("", "abc"), 3);
    assert_eq!(levenshtein("abc", "abc"), 0);
    assert_eq!(levenshtein("flaw", "lawn"), 2);
    assert_eq!(levenshtein("lawn", "flaw"), 2);
    assert!(levenshtein("ab", "cd") <= levenshtein("ab", "xy") + levenshtein("xy", "cd"));
}

#[test]
fn digests() {
    assert_eq!(md5(""), "d41d8cd98f00b204e9800998ecf8427e");
    assert_eq!(md5("abc"), "900150983cd24fb0d6963f7d28e17f72");
    assert_eq!(
        md5("The quick brown fox jumps over the lazy dog"),
        "9e107d9d372bb6826bd81d3542a419d6"
    );
    assert_eq!(
        md5("12345678901234567890123456789012345678901234567890123456789012345678901234567890"),
        "57edf4a22be3c955ac49da2e2107b67a"
    );
}

#[test]
fn token_is_the_first_five_digits() {
    assert_eq!(token_of("abc"), 0x90015);
    assert_eq!(token_of(""), 0xd41d8);
}

#[test]
fn hexadecimal_text() {
    assert_eq!(hex(&vec![0, 15, 16, 255]), "000f10ff");
}

#[test]
fn white_space_at_the_ends_goes() {
    assert_eq!(text(&trim_chars(&to_chars(" \t a b\u{a0}\n"))), "a b");
    assert_eq!(text(&trim_chars(&to_chars("   "))), "");
    let once = trim_chars(&to_chars("  x  "));
    assert_eq!(trim_chars(&once), once);
}

#[test]
fn parts_join_to_the_whole() {
    let parts = split_chars(&to_chars("a\\b\\\\c"), '\\');
    let texts: Vec<String> = parts.iter().map(text).collect();
    assert_eq!(texts, vec!["a", "b", "", "c"]);
    assert_eq!(texts.join("\\"), "a\\b\\\\c");
    assert_eq!(split_chars(&to_chars(""), '\\').len(), 1);
}

#[test]
fn runs_of_white_space_become_one_space() {
    assert_eq!(text(&collapse_chars(&to_chars("  a \n b  "))), "a b");
}

#[test]
fn before_and_after_the_last() {
    assert_eq!(text(&before_last_chars(&to_chars("a.b.c"), '.')), "a.b");
    assert_eq!(text(&after_last_chars(&to_chars("a.b.c"), '.')), "c");
    assert_eq!(text(&before_last_chars(&to_chars("abc"), '.')), "abc");
    assert_eq!(text(&after_last_chars(&to_chars("abc"), '.')), "abc");
}

#[test]
fn finding_and_replacing() {
    assert_eq!(find_chars(&to_chars("abcbc"), &to_chars("bc")), Some(1));
    assert_eq!(find_chars(&to_chars("abc"), &to_chars("x")), None);
    assert_eq!(text(&replace_chars(&to_chars("aaa"), &to_chars("aa"), &to_chars("b"))), "ba");
    assert_eq!(append_str("a", "b"), "ab");
}

#[test]
fn numbers_are_written_and_read_back() {
    assert_eq!(text(&decimal_chars(0)), "0");
    assert_eq!(text(&decimal_chars(u64::MAX)), "18446744073709551615");
    assert_eq!(text(&signed_decimal_chars(-42)), "-42");
    assert_eq!(text(&signed_decimal_chars(i32::MIN)), "-2147483648");
    assert_eq!(parse_number(&decimal_chars(1234), 0xffff_ffff), Ok(1234));
}

#[test]
fn numbers_that_are_none() {
    assert_eq!(parse_number(&to_chars(""), 255), Err(NumberError::Empty));
    assert_eq!(parse_number(&to_chars("12a"), 255), Err(NumberError::InvalidDigit));
    assert_eq!(parse_number(&to_chars("256"), 255), Err(NumberError::TooLarge));
    assert_eq!(parse_number(&to_chars("255"), 255), Ok(255));
    assert_eq!(NumberError::Empty.message(), "cannot parse integer from empty string");
    assert_eq!(NumberError::InvalidDigit.message(), "invalid digit found in string");
    assert_eq!(NumberError::TooLarge.message(), "number too large to fit in target type");
}

#[test]
fn lines_of_a_text() {
    let lines: Vec<String> = lines_chars(&to_chars("a\r\nb\n\nc")).iter().map(text).collect();
    assert_eq!(lines, vec!["a", "b", "", "c"]);
}

#[test]
fn prefixes() {
    assert_eq!(
        strip_prefix_chars(&to_chars("KEY=v"), &to_chars("KEY=")).map(|r| text(&r)),
        Some("v".to_string())
    );
    assert!(strip_prefix_chars(&to_chars("KE"), &to_chars("KEY=")).is_none());
}
