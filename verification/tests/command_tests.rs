use closed_range::closed_range::ClosedRange;
use closed_range::command::Command;
use closed_range::decimal::{i32_to_string, parse_int};

fn args(tokens: &[&str]) -> Vec<String> {
    tokens.iter().map(|t| t.to_string()).collect()
}

#[test]
fn subset_boundary_cases() {
    let small = ClosedRange::new(5, 8).unwrap();
    let big = ClosedRange::new(1, 10).unwrap();
    let overlap = ClosedRange::new(5, 15).unwrap();
    assert!(small.is_subset(&big));
    assert!(!big.is_subset(&small));
    assert!(!big.is_subset(&overlap));
}

#[test]
fn subset_of_itself() {
    let range = ClosedRange::new(3, 7).unwrap();
    assert!(range.is_subset(&range));
}

#[test]
fn equality_exact_bounds() {
    let a = ClosedRange::new(1, 10).unwrap();
    let b = ClosedRange::new(1, 10).unwrap();
    let c = ClosedRange::new(1, 11).unwrap();
    assert!(a == b);
    assert!(!(a == c));
}

#[test]
fn queries_repeat_identically() {
    let range = ClosedRange::new(1, 10).unwrap();
    let other = ClosedRange::new(0, 20).unwrap();
    assert_eq!(range.contains(5), range.contains(5));
    assert_eq!(range.is_subset(&other), range.is_subset(&other));
    assert_eq!(range.render(), range.render());
    assert_eq!(range == other, range == other);
}

#[test]
fn render_degenerate_range() {
    let range = ClosedRange::new(4, 4).unwrap();
    assert_eq!(range.render(), "[4, 4]");
}

#[test]
fn render_negative_bounds() {
    let range = ClosedRange::new(-15, -3).unwrap();
    assert_eq!(range.render(), "[-15, -3]");
}

#[test]
fn render_extreme_bounds() {
    let range = ClosedRange::new(i32::MIN, i32::MAX).unwrap();
    assert_eq!(range.render(), "[-2147483648, 2147483647]");
}

#[test]
fn render_zero() {
    assert_eq!(i32_to_string(0), "0");
    assert_eq!(i32_to_string(100), "100");
    assert_eq!(i32_to_string(-1), "-1");
}

#[test]
fn parse_plain_numbers() {
    assert_eq!(parse_int("0").unwrap(), 0);
    assert_eq!(parse_int("12").unwrap(), 12);
    assert_eq!(parse_int("-42").unwrap(), -42);
    assert_eq!(parse_int("+7").unwrap(), 7);
    assert_eq!(parse_int("007").unwrap(), 7);
}

#[test]
fn parse_extremes() {
    assert_eq!(parse_int("2147483647").unwrap(), i32::MAX);
    assert_eq!(parse_int("-2147483648").unwrap(), i32::MIN);
    assert!(parse_int("2147483648").is_err());
    assert!(parse_int("-2147483649").is_err());
    assert!(parse_int("99999999999999999999").is_err());
}

#[test]
fn parse_rejects_malformed_tokens() {
    assert!(parse_int("").is_err());
    assert!(parse_int("-").is_err());
    assert!(parse_int("+").is_err());
    assert!(parse_int("abc").is_err());
    assert!(parse_int("1a").is_err());
    assert!(parse_int("--1").is_err());
    assert!(parse_int(" 1").is_err());
}

#[test]
fn end_to_end_display() {
    let command = Command::from_args(args(&["prog", "1", "10"])).unwrap();
    assert_eq!(command.output_line(), "[1, 10]");
}

#[test]
fn end_to_end_contains() {
    let command = Command::from_args(args(&["prog", "1", "10", "contains", "15"])).unwrap();
    assert_eq!(command.output_line(), "[1, 10] contains 15: false");
    let command = Command::from_args(args(&["prog", "1", "10", "contains", "5"])).unwrap();
    assert_eq!(command.output_line(), "[1, 10] contains 5: true");
}

#[test]
fn end_to_end_subset() {
    let command = Command::from_args(args(&["prog", "5", "10", "subset", "1", "15"])).unwrap();
    assert_eq!(command.output_line(), "[5, 10] is subset of [1, 15]: true");
    let command = Command::from_args(args(&["prog", "1", "10", "subset", "5", "8"])).unwrap();
    assert_eq!(command.output_line(), "[1, 10] is subset of [5, 8]: false");
}

#[test]
fn end_to_end_invalid_bounds() {
    let result = Command::from_args(args(&["prog", "10", "1"]));
    assert_eq!(
        result.err().unwrap(),
        "下限値が上限値より大きいため、有効な閉区間ではありません"
    );
}

#[test]
fn from_args_too_few_arguments() {
    let result = Command::from_args(args(&["prog"]));
    assert_eq!(
        result.err().unwrap(),
        "引数が不足しています。少なくとも2つの引数が必要です。"
    );
    let result = Command::from_args(args(&["prog", "1"]));
    assert!(result.is_err());
}

#[test]
fn from_args_non_numeric_bounds() {
    let result = Command::from_args(args(&["prog", "x", "10"]));
    assert_eq!(result.err().unwrap(), "下限値として無効な整数です: x");
    let result = Command::from_args(args(&["prog", "1", "y"]));
    assert_eq!(result.err().unwrap(), "上限値として無効な整数です: y");
}

#[test]
fn from_args_non_numeric_operands() {
    let result = Command::from_args(args(&["prog", "1", "10", "contains", "z"]));
    assert_eq!(result.err().unwrap(), "検査値として無効な整数です: z");
    let result = Command::from_args(args(&["prog", "1", "10", "subset", "z", "5"]));
    assert_eq!(
        result.err().unwrap(),
        "2つ目の区間の下限値として無効な整数です: z"
    );
    let result = Command::from_args(args(&["prog", "1", "10", "subset", "2", "w"]));
    assert_eq!(
        result.err().unwrap(),
        "2つ目の区間の上限値として無効な整数です: w"
    );
}

#[test]
fn from_args_missing_operands() {
    let result = Command::from_args(args(&["prog", "1", "10", "contains"]));
    assert_eq!(result.err().unwrap(), "'contains'コマンドには検査値が必要です。");
    let result = Command::from_args(args(&["prog", "1", "10", "subset", "2"]));
    assert_eq!(
        result.err().unwrap(),
        "'subset'コマンドには2つ目の区間の下限値と上限値が必要です。"
    );
}

#[test]
fn from_args_unknown_command() {
    let result = Command::from_args(args(&["prog", "1", "10", "union", "2", "3"]));
    assert_eq!(
        result.err().unwrap(),
        "未知のコマンド'union'です。'contains'または'subset'を指定してください。"
    );
}

#[test]
fn from_args_invalid_second_range() {
    let result = Command::from_args(args(&["prog", "1", "10", "subset", "9", "2"]));
    assert_eq!(
        result.err().unwrap(),
        "下限値が上限値より大きいため、有効な閉区間ではありません"
    );
}

#[test]
fn from_args_negative_bounds() {
    let command = Command::from_args(args(&["prog", "-10", "-1", "contains", "-5"])).unwrap();
    assert_eq!(command.output_line(), "[-10, -1] contains -5: true");
}
