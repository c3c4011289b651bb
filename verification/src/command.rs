//! The command-line surface: the closed, fixed set of operations the program
//! performs, how a cleaned argument vector is read into one of them, and the
//! single line of text each one produces.

use vstd::prelude::*;

use crate::closed_range::{construct_spec, invalid_range_msg, ClosedRange};
use crate::decimal::{i32_literal_val, i32_to_string, int_to_dec, is_i32_literal, parse_int};

verus! {

/// One invocation of the program: show a range, test membership of a value,
/// or test whether a target range is a subset of a container range.
pub enum Command {
    Display { range: ClosedRange },
    Contains { range: ClosedRange, value: i32 },
    Subset { target: ClosedRange, container: ClosedRange },
}

pub open spec fn too_few_args_msg() -> Seq<char> {
    "引数が不足しています。少なくとも2つの引数が必要です。"@
}

pub open spec fn bad_lower_msg(t: Seq<char>) -> Seq<char> {
    "下限値として無効な整数です: "@ + t
}

pub open spec fn bad_upper_msg(t: Seq<char>) -> Seq<char> {
    "上限値として無効な整数です: "@ + t
}

pub open spec fn bad_value_msg(t: Seq<char>) -> Seq<char> {
    "検査値として無効な整数です: "@ + t
}

pub open spec fn bad_second_lower_msg(t: Seq<char>) -> Seq<char> {
    "2つ目の区間の下限値として無効な整数です: "@ + t
}

pub open spec fn bad_second_upper_msg(t: Seq<char>) -> Seq<char> {
    "2つ目の区間の上限値として無効な整数です: "@ + t
}

pub open spec fn contains_usage_msg() -> Seq<char> {
    "'contains'コマンドには検査値が必要です。"@
}

pub open spec fn subset_usage_msg() -> Seq<char> {
    "'subset'コマンドには2つ目の区間の下限値と上限値が必要です。"@
}

pub open spec fn unknown_command_msg(cmd: Seq<char>) -> Seq<char> {
    "未知のコマンド'"@ + cmd + "'です。'contains'または'subset'を指定してください。"@
}

/// The value an `i32` numeral denotes, as an `i32`.
pub open spec fn lit_i32(t: Seq<char>) -> i32 {
    i32_literal_val(t) as i32
}

/// What reading an argument vector yields: the command it names, or the
/// message of the first error met. `args[0]` is the program name; `args[1]`
/// and `args[2]` are the bounds of the first range; an optional sub-command
/// name and its operands follow.
pub open spec fn args_outcome(args: Seq<String>) -> Result<Command, Seq<char>> {
    if args.len() < 3 {
        Err(too_few_args_msg())
    } else if !is_i32_literal(args[1]@) {
        Err(bad_lower_msg(args[1]@))
    } else if !is_i32_literal(args[2]@) {
        Err(bad_upper_msg(args[2]@))
    } else if construct_spec(lit_i32(args[1]@), lit_i32(args[2]@)) is None {
        Err(invalid_range_msg())
    } else {
        let range = construct_spec(lit_i32(args[1]@), lit_i32(args[2]@))->Some_0;
        if args.len() == 3 {
            Ok(Command::Display { range })
        } else if args[3]@ == "contains"@ {
            if args.len() >= 5 {
                if is_i32_literal(args[4]@) {
                    Ok(Command::Contains { range, value: lit_i32(args[4]@) })
                } else {
                    Err(bad_value_msg(args[4]@))
                }
            } else {
                Err(contains_usage_msg())
            }
        } else if args[3]@ == "subset"@ {
            if args.len() >= 6 {
                if !is_i32_literal(args[4]@) {
                    Err(bad_second_lower_msg(args[4]@))
                } else if !is_i32_literal(args[5]@) {
                    Err(bad_second_upper_msg(args[5]@))
                } else if construct_spec(lit_i32(args[4]@), lit_i32(args[5]@)) is None {
                    Err(invalid_range_msg())
                } else {
                    let container = construct_spec(lit_i32(args[4]@), lit_i32(args[5]@))->Some_0;
                    Ok(Command::Subset { target: range, container })
                }
            } else {
                Err(subset_usage_msg())
            }
        } else {
            Err(unknown_command_msg(args[3]@))
        }
    }
}

/// Character-for-character string equality.
fn str_eq(a: &str, b: &str) -> (r: bool)
    ensures
        r == (a@ == b@),
{
    let alen = a.unicode_len();
    let blen = b.unicode_len();
    if alen != blen {
        return false;
    }
    let mut i: usize = 0;
    while i < alen
        invariant
            i <= alen,
            alen == a@.len(),
            alen == b@.len(),
            forall|j: int| 0 <= j < i ==> a@[j] == b@[j],
        decreases alen - i,
    {
        let ca = a.get_char(i);
        let cb = b.get_char(i);
        if ca != cb {
            return false;
        }
        i = i + 1;
    }
    proof {
        assert(a@ =~= b@);
    }
    true
}

pub open spec fn bool_msg(b: bool) -> Seq<char> {
    if b {
        "true"@
    } else {
        "false"@
    }
}

fn bool_str(b: bool) -> (r: &'static str)
    ensures
        r@ == bool_msg(b),
{
    if b {
        "true"
    } else {
        "false"
    }
}

impl Command {
    /// Reads an argument vector into a command, exactly as `args_outcome`
    /// describes; on failure the returned message is the outcome's.
    pub fn from_args(args: Vec<String>) -> (r: Result<Command, String>)
        ensures
            match r {
                Ok(c) => args_outcome(args@) == Ok::<Command, Seq<char>>(c),
                Err(m) => args_outcome(args@) matches Err(em) && m@ == em,
            },
    {
        if args.len() < 3 {
            return Err(
                String::from_str("引数が不足しています。少なくとも2つの引数が必要です。"),
            );
        }
        let lower: i32 = match parse_int(args[1].as_str()) {
            Ok(v) => v,
            Err(_) => {
                return Err(
                    String::from_str("下限値として無効な整数です: ").concat(args[1].as_str()),
                );
            },
        };
        let upper: i32 = match parse_int(args[2].as_str()) {
            Ok(v) => v,
            Err(_) => {
                return Err(
                    String::from_str("上限値として無効な整数です: ").concat(args[2].as_str()),
                );
            },
        };
        let range = match ClosedRange::new(lower, upper) {
            Ok(c) => c,
            Err(m) => {
                return Err(m);
            },
        };
        if args.len() == 3 {
            return Ok(Command::Display { range });
        }
        if str_eq(args[3].as_str(), "contains") {
            if args.len() >= 5 {
                let value: i32 = match parse_int(args[4].as_str()) {
                    Ok(v) => v,
                    Err(_) => {
                        return Err(
                            String::from_str("検査値として無効な整数です: ").concat(
                                args[4].as_str(),
                            ),
                        );
                    },
                };
                Ok(Command::Contains { range, value })
            } else {
                Err(String::from_str("'contains'コマンドには検査値が必要です。"))
            }
        } else if str_eq(args[3].as_str(), "subset") {
            if args.len() >= 6 {
                let lower2: i32 = match parse_int(args[4].as_str()) {
                    Ok(v) => v,
                    Err(_) => {
                        return Err(
                            String::from_str("2つ目の区間の下限値として無効な整数です: ").concat(
                                args[4].as_str(),
                            ),
                        );
                    },
                };
                let upper2: i32 = match parse_int(args[5].as_str()) {
                    Ok(v) => v,
                    Err(_) => {
                        return Err(
                            String::from_str("2つ目の区間の上限値として無効な整数です: ").concat(
                                args[5].as_str(),
                            ),
                        );
                    },
                };
                let container = match ClosedRange::new(lower2, upper2) {
                    Ok(c) => c,
                    Err(m) => {
                        return Err(m);
                    },
                };
                Ok(Command::Subset { target: range, container })
            } else {
                Err(
                    String::from_str("'subset'コマンドには2つ目の区間の下限値と上限値が必要です。"),
                )
            }
        } else {
            Err(
                String::from_str("未知のコマンド'").concat(args[3].as_str()).concat(
                    "'です。'contains'または'subset'を指定してください。",
                ),
            )
        }
    }

    /// The single line of text a command's execution prints.
    pub open spec fn output_spec(self) -> Seq<char> {
        match self {
            Command::Display { range } => range.render_spec(),
            Command::Contains { range, value } => range.render_spec() + " contains "@ + int_to_dec(
                value as int,
            ) + ": "@ + bool_msg(range.spec_contains(value)),
            Command::Subset { target, container } => target.render_spec() + " is subset of "@
                + container.render_spec() + ": "@ + bool_msg(target.spec_is_subset(container)),
        }
    }

    /// Performs the command's query and formats its result line.
    pub fn output_line(&self) -> (r: String)
        ensures
            r@ == self.output_spec(),
    {
        match self {
            Command::Display { range } => range.render(),
            Command::Contains { range, value } => {
                let mut s = range.render();
                s.append(" contains ");
                let vs = i32_to_string(*value);
                s.append(vs.as_str());
                s.append(": ");
                s.append(bool_str(range.contains(*value)));
                proof {
                    assert(s@ =~= self.output_spec());
                }
                s
            },
            Command::Subset { target, container } => {
                let mut s = target.render();
                s.append(" is subset of ");
                let cs = container.render();
                s.append(cs.as_str());
                s.append(": ");
                s.append(bool_str(target.is_subset(container)));
                proof {
                    assert(s@ =~= self.output_spec());
                }
                s
            },
        }
    }
}

} // verus!
