use vo_lang::vo_const::{eval_const_expr, parse_char_literal, parse_const_assignment, parse_const_value, split_binary_op};

#[test]
fn test_eval_const_expr() {
    assert_eq!(eval_const_expr("3000"), Some(3000));
    assert_eq!(eval_const_expr("0"), Some(0));
    assert_eq!(eval_const_expr("-1"), Some(-1));
    assert_eq!(eval_const_expr("0x1F"), Some(31));
    assert_eq!(eval_const_expr("0xff"), Some(255));
    assert_eq!(eval_const_expr("1 << 3"), Some(8));
    assert_eq!(eval_const_expr("1 << 7"), Some(128));
    assert_eq!(eval_const_expr("'/'"), Some(47));
    assert_eq!(eval_const_expr("'\\n'"), Some(10));
    assert_eq!(eval_const_expr("'\\t'"), Some(9));
    assert_eq!(eval_const_expr("1 + 2"), Some(3));
    assert_eq!(eval_const_expr("10 - 3"), Some(7));
    assert_eq!(eval_const_expr("2 * 3"), Some(6));
    assert_eq!(eval_const_expr("10 / 2"), Some(5));
    assert_eq!(eval_const_expr("1 | 2"), Some(3));
    assert_eq!(eval_const_expr("3 & 1"), Some(1));
}

#[test]
fn test_parse_const_value() {
    let source = r#"
package os

const (
    codeErrInvalid    = 3000 // Invalid argument
    codeErrPermission = 3001 // Permission denied
    O_RDONLY int = 0
    O_APPEND int = 1 << 3
)

const PathSeparator = '/'
"#;
    assert_eq!(parse_const_value(source, "codeErrInvalid"), Some(3000));
    assert_eq!(parse_const_value(source, "codeErrPermission"), Some(3001));
    assert_eq!(parse_const_value(source, "O_RDONLY"), Some(0));
    assert_eq!(parse_const_value(source, "O_APPEND"), Some(8));
    assert_eq!(parse_const_value(source, "PathSeparator"), Some(47));
    assert_eq!(parse_const_value(source, "NotExist"), None);
}

#[test]
fn division_by_zero_and_empty_give_none() {
    assert_eq!(eval_const_expr("1 / 0"), None);
    assert_eq!(eval_const_expr(""), None);
    assert_eq!(eval_const_expr("   "), None);
    assert_eq!(eval_const_expr("abc"), None);
}

#[test]
fn other_literal_forms() {
    assert_eq!(eval_const_expr("0o17"), Some(15));
    assert_eq!(eval_const_expr("0b101"), Some(5));
    assert_eq!(eval_const_expr("(2 + 3)"), Some(5));
    assert_eq!(eval_const_expr("-7 / 2"), Some(-3));
    assert_eq!(eval_const_expr("16 >> 2"), Some(4));
    assert_eq!(eval_const_expr("10 - -3"), Some(13));
}

#[test]
fn char_literals() {
    assert_eq!(parse_char_literal("'a'"), Some(97));
    assert_eq!(parse_char_literal("'\\0'"), Some(0));
    assert_eq!(parse_char_literal("'\\''"), Some(39));
    assert_eq!(parse_char_literal("'ab'"), None);
    assert_eq!(parse_char_literal("''"), None);
}

#[test]
fn assignments_and_splits() {
    assert_eq!(parse_const_assignment("X int = 4 // four", "X"), Some(4));
    assert_eq!(parse_const_assignment("Y = 4", "X"), None);
    assert_eq!(split_binary_op("1 + (2 + 3)", '+'), Some(("1 ", " (2 + 3)")));
    assert_eq!(split_binary_op("'+'", '+'), None);
}
