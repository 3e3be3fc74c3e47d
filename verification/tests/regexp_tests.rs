use vo_lang::regexp::{
    find_all_string, find_string, find_string_index, find_string_submatch, limit_matches, match_bytes, match_string,
    quote_meta, replace_all_literal_string, replace_all_string, split_string, submatch_texts,
};

#[test]
fn matching() {
    assert_eq!(match_string("a+b", "xxaab"), (true, true));
    assert_eq!(match_string("^a", "ba"), (false, true));
    assert_eq!(match_string("(", "x"), (false, false));
    assert_eq!(match_bytes("é", "café".as_bytes()), (true, true));
    assert_eq!(match_bytes("a", &[0xff, 0x61]), (false, true));
    assert_eq!(match_bytes("[", b"a"), (false, false));
}

#[test]
fn finding() {
    assert_eq!(find_string("[0-9]+", "ab123cd45"), "123");
    assert_eq!(find_string("z", "abc"), "");
    assert_eq!(find_string("(", "abc"), "");
    assert_eq!(find_string_index("[0-9]+", "ab123cd45"), (2, 5));
    assert_eq!(find_string_index("z", "abc"), (-1, -1));
    assert_eq!(find_string_index("(", "abc"), (-1, -1));
    assert_eq!(find_all_string("[0-9]", "a1b2c3", -1), vec!["1", "2", "3"]);
    assert_eq!(find_all_string("[0-9]", "a1b2c3", 2), vec!["1", "2"]);
    assert_eq!(find_all_string("[0-9]", "a1b2c3", 0), Vec::<String>::new());
    assert_eq!(find_all_string("[0-9]", "a1b2c3", 10), vec!["1", "2", "3"]);
    assert_eq!(find_all_string("(", "a1", -1), Vec::<String>::new());
}

#[test]
fn limiting_matches() {
    let all = vec!["a".to_string(), "b".to_string(), "c".to_string()];
    assert_eq!(limit_matches(all.clone(), -1), all);
    assert_eq!(limit_matches(all.clone(), 0), Vec::<String>::new());
    assert_eq!(limit_matches(all.clone(), 2), vec!["a", "b"]);
    assert_eq!(limit_matches(all.clone(), 5), all);
}

#[test]
fn replacing() {
    assert_eq!(replace_all_string("a(b)", "xabyab", "[$1]"), "x[b]y[b]");
    assert_eq!(replace_all_literal_string("a(b)", "xabyab", "[$1]"), "x[$1]y[$1]");
    assert_eq!(replace_all_string("q", "abc", "z"), "abc");
    assert_eq!(replace_all_string("(", "abc", "z"), "abc");
    assert_eq!(replace_all_literal_string("(", "abc", "z"), "abc");
}

#[test]
fn splitting() {
    assert_eq!(split_string(",", "a,b,c", -1), vec!["a", "b", "c"]);
    assert_eq!(split_string(",", "a,b,c", 2), vec!["a", "b,c"]);
    assert_eq!(split_string(",", "a,b,c", 0), Vec::<String>::new());
    assert_eq!(split_string("(", "a,b", -1), vec!["a,b"]);
}

#[test]
fn submatches() {
    assert_eq!(find_string_submatch("(a)(x)?(b)", "zab"), vec!["ab", "a", "", "b"]);
    assert_eq!(find_string_submatch("q", "zab"), Vec::<String>::new());
    assert_eq!(find_string_submatch("(", "zab"), Vec::<String>::new());
    assert_eq!(submatch_texts(Some(vec![Some("x".to_string()), None])), vec!["x", ""]);
    assert_eq!(submatch_texts(None), Vec::<String>::new());
}

#[test]
fn quoting() {
    assert_eq!(quote_meta("a.b*c"), "a\\.b\\*c");
    assert_eq!(quote_meta("plain"), "plain");
}

#[test]
fn quote_meta_escapes_exactly_the_meta_characters() {
    assert_eq!(quote_meta("#&-~"), "\\#\\&\\-\\~");
    assert_eq!(quote_meta("%/!e"), "%/!e");
    assert_eq!(quote_meta("\\[x]"), "\\\\\\[x\\]");
    assert_eq!(quote_meta(""), "");
}
