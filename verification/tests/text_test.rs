use nitroterm::text::{
    answer_is_yes, byte_prefix_exec, chars_of, dec_exec, first_line_exec, first_word_exec,
    lines_exec, parse_u32_exec, parse_u64_exec, replace_exec, sort_texts, split_text, string_of,
    text_contains, text_eq, trim_end_matches_exec, trim_text,
};

fn texts(v: Vec<Vec<char>>) -> Vec<String> {
    v.iter().map(|c| c.iter().collect()).collect()
}

#[test]
fn splitting_like_str_split() {
    assert_eq!(texts(split_text("a.b..c", ".")), vec!["a", "b", "", "c"]);
    assert_eq!(texts(split_text("", ",")), vec![""]);
    assert_eq!(texts(split_text("x::y", "::")), vec!["x", "y"]);
}

#[test]
fn lines_like_str_lines() {
    assert_eq!(texts(lines_exec(&chars_of("one\r\ntwo\n\nthree\n"))), vec!["one", "two", "", "three"]);
    assert!(lines_exec(&chars_of("")).is_empty());
    assert_eq!(string_of(&first_line_exec(&chars_of("title\nbody"))), "title");
    assert_eq!(string_of(&first_line_exec(&chars_of(""))), "");
}

#[test]
fn trimming_and_words() {
    assert_eq!(string_of(&trim_text("  \t hi there \n")), "hi there");
    assert_eq!(first_word_exec(&chars_of("  make  it so")).map(|w| string_of(&w)), Some("make".to_string()));
    assert_eq!(first_word_exec(&chars_of("   ")), None);
    assert_eq!(string_of(&trim_end_matches_exec(&chars_of("repo.git.git"), &chars_of(".git"))), "repo");
}

#[test]
fn replacing_and_searching() {
    assert_eq!(string_of(&replace_exec(&chars_of("a/b/c"), &chars_of("/"), &chars_of("-"))), "a-b-c");
    assert!(text_contains("release notes", "notes"));
    assert!(!text_contains("release", "notes"));
    assert!(text_eq("same", "same"));
    assert!(!text_eq("same", "Same"));
}

#[test]
fn numbers_are_read_and_written() {
    assert_eq!(parse_u32_exec(&chars_of("42")), Some(42));
    assert_eq!(parse_u32_exec(&chars_of("+7")), Some(7));
    assert_eq!(parse_u32_exec(&chars_of("4294967296")), None);
    assert_eq!(parse_u32_exec(&chars_of("")), None);
    assert_eq!(parse_u32_exec(&chars_of("-1")), None);
    assert_eq!(parse_u64_exec(&chars_of("18446744073709551615")), Some(u64::MAX));
    assert_eq!(parse_u64_exec(&chars_of("1 2")), None);
    assert_eq!(string_of(&dec_exec(0)), "0");
    assert_eq!(string_of(&dec_exec(1200)), "1200");
}

#[test]
fn sorting_texts() {
    let sorted = sort_texts(vec![chars_of("tr"), chars_of("de"), chars_of("es"), chars_of("de")]);
    assert_eq!(texts(sorted), vec!["de", "de", "es", "tr"]);
}

#[test]
fn byte_prefixes_stop_at_whole_characters() {
    assert_eq!(string_of(&byte_prefix_exec(&chars_of("abcdef"), 3)), "abc");
    assert_eq!(string_of(&byte_prefix_exec(&chars_of("çay"), 2)), "ç");
}

#[test]
fn yes_answers() {
    assert!(answer_is_yes("y"));
    assert!(answer_is_yes("YES"));
    assert!(!answer_is_yes("no"));
    assert!(!answer_is_yes(" y"));
}
