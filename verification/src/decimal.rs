//! Decimal numerals: rendering a signed 32-bit integer as text and parsing
//! text back into one, each proved against a mathematical description of the
//! decimal notation.

use vstd::prelude::*;

verus! {

/// The character for a single decimal digit value.
pub open spec fn digit_char(d: nat) -> char {
    if d == 0 {
        '0'
    } else if d == 1 {
        '1'
    } else if d == 2 {
        '2'
    } else if d == 3 {
        '3'
    } else if d == 4 {
        '4'
    } else if d == 5 {
        '5'
    } else if d == 6 {
        '6'
    } else if d == 7 {
        '7'
    } else if d == 8 {
        '8'
    } else {
        '9'
    }
}

/// The decimal numeral of a natural number, most significant digit first,
/// with no leading zeros (a single '0' for zero itself).
pub open spec fn dec_rep(n: nat) -> Seq<char>
    decreases n,
{
    if n < 10 {
        seq![digit_char(n)]
    } else {
        dec_rep(n / 10) + seq![digit_char(n % 10)]
    }
}

/// The decimal numeral of an integer: a leading '-' for negative values.
pub open spec fn int_to_dec(i: int) -> Seq<char> {
    if i < 0 {
        seq!['-'] + dec_rep((-i) as nat)
    } else {
        dec_rep(i as nat)
    }
}

fn digit_str(d: u32) -> (r: &'static str)
    requires
        d < 10,
    ensures
        r@ == seq![digit_char(d as nat)],
{
    proof {
        reveal_strlit("0");
        reveal_strlit("1");
        reveal_strlit("2");
        reveal_strlit("3");
        reveal_strlit("4");
        reveal_strlit("5");
        reveal_strlit("6");
        reveal_strlit("7");
        reveal_strlit("8");
        reveal_strlit("9");
    }
    let r: &'static str = if d == 0 {
        "0"
    } else if d == 1 {
        "1"
    } else if d == 2 {
        "2"
    } else if d == 3 {
        "3"
    } else if d == 4 {
        "4"
    } else if d == 5 {
        "5"
    } else if d == 6 {
        "6"
    } else if d == 7 {
        "7"
    } else if d == 8 {
        "8"
    } else {
        "9"
    };
    proof {
        assert(r@ =~= seq![digit_char(d as nat)]);
    }
    r
}

fn push_digits(n: u32, out: &mut String)
    ensures
        final(out)@ == old(out)@ + dec_rep(n as nat),
    decreases n,
{
    if n >= 10 {
        push_digits(n / 10, out);
    }
    let d: u32 = n % 10;
    out.append(digit_str(d));
    proof {
        if n >= 10 {
            assert((n / 10) as nat == n as nat / 10);
            assert(d as nat == n as nat % 10);
            assert(out@ =~= old(out)@ + dec_rep(n as nat));
        } else {
            assert(d == n);
            assert(out@ =~= old(out)@ + dec_rep(n as nat));
        }
    }
}

/// The decimal text of a signed 32-bit integer.
pub fn i32_to_string(v: i32) -> (r: String)
    ensures
        r@ == int_to_dec(v as int),
{
    let mut s = String::new();
    if v < 0 {
        s.append("-");
        proof {
            reveal_strlit("-");
            assert(s@ =~= seq!['-']);
        }
        let mag: u32 = (-(v as i64)) as u32;
        proof {
            assert(mag as int == -(v as int));
        }
        push_digits(mag, &mut s);
        proof {
            assert(s@ =~= seq!['-'] + dec_rep((-(v as int)) as nat));
        }
    } else {
        let mag: u32 = v as u32;
        push_digits(mag, &mut s);
        proof {
            assert(s@ =~= dec_rep((v as int) as nat));
        }
    }
    s
}

/// Whether a character is a decimal digit (code points 48 through 57).
pub open spec fn is_digit(c: char) -> bool {
    48 <= c as u32 <= 57
}

/// The numeric value of a digit character.
pub open spec fn digit_val(c: char) -> int {
    c as u32 - 48
}

/// The value of a digit string read most significant digit first.
pub open spec fn digits_val(s: Seq<char>) -> int
    decreases s.len(),
{
    if s.len() == 0 {
        0
    } else {
        digits_val(s.drop_last()) * 10 + digit_val(s.last())
    }
}

pub open spec fn all_digits(s: Seq<char>) -> bool {
    forall|i: int| 0 <= i < s.len() ==> is_digit(#[trigger] s[i])
}

/// Length of the optional sign prefix of a numeral.
pub open spec fn sign_len(s: Seq<char>) -> int {
    if s.len() > 0 && (s[0] == '-' || s[0] == '+') {
        1
    } else {
        0
    }
}

pub open spec fn is_negative_literal(s: Seq<char>) -> bool {
    s.len() > 0 && s[0] == '-'
}

/// The digits of a numeral, after the optional sign.
pub open spec fn digits_part(s: Seq<char>) -> Seq<char> {
    s.subrange(sign_len(s), s.len() as int)
}

/// Whether a character sequence is a decimal numeral whose value fits in an
/// `i32`: an optional sign, then one or more digits, with the magnitude within
/// the bound that the sign allows.
pub open spec fn is_i32_literal(s: Seq<char>) -> bool {
    &&& digits_part(s).len() > 0
    &&& all_digits(digits_part(s))
    &&& (if is_negative_literal(s) {
        digits_val(digits_part(s)) <= 0x8000_0000
    } else {
        digits_val(digits_part(s)) <= 0x7fff_ffff
    })
}

/// The value of an `i32` numeral.
pub open spec fn i32_literal_val(s: Seq<char>) -> int {
    if is_negative_literal(s) {
        -digits_val(digits_part(s))
    } else {
        digits_val(digits_part(s))
    }
}

proof fn lemma_digits_val_nonneg(s: Seq<char>)
    requires
        all_digits(s),
    ensures
        digits_val(s) >= 0,
    decreases s.len(),
{
    if s.len() > 0 {
        assert forall|i: int| 0 <= i < s.drop_last().len() implies is_digit(
            #[trigger] s.drop_last()[i],
        ) by {
            assert(s.drop_last()[i] == s[i]);
        }
        lemma_digits_val_nonneg(s.drop_last());
        assert(is_digit(s.last())) by {
            assert(s.last() == s[s.len() - 1]);
        }
    }
}

/// Reading one more digit multiplies the value so far by ten and adds it.
proof fn lemma_digits_val_step(s: Seq<char>, a: int, i: int)
    requires
        0 <= a <= i < s.len(),
    ensures
        digits_val(s.subrange(a, i + 1)) == digits_val(s.subrange(a, i)) * 10 + digit_val(s[i]),
{
    let t = s.subrange(a, i + 1);
    assert(t.drop_last() =~= s.subrange(a, i));
    assert(t.last() == s[i]);
}

/// The value of a digit string is at least the value of any prefix of it.
proof fn lemma_digits_val_prefix_le(s: Seq<char>, i: int)
    requires
        all_digits(s),
        0 <= i <= s.len(),
    ensures
        digits_val(s.subrange(0, i)) <= digits_val(s),
    decreases s.len() - i,
{
    if i == s.len() {
        assert(s.subrange(0, i) =~= s);
    } else {
        lemma_digits_val_step(s, 0, i);
        assert forall|j: int| 0 <= j < s.subrange(0, i).len() implies is_digit(
            #[trigger] s.subrange(0, i)[j],
        ) by {
            assert(s.subrange(0, i)[j] == s[j]);
        }
        lemma_digits_val_nonneg(s.subrange(0, i));
        assert(is_digit(s[i]));
        lemma_digits_val_prefix_le(s, i + 1);
    }
}

/// The message returned when a token is not an `i32` numeral.
pub open spec fn parse_error_msg() -> Seq<char> {
    "有効な整数ではありません"@
}

fn parse_error() -> (r: String)
    ensures
        r@ == parse_error_msg(),
{
    String::from_str("有効な整数ではありません")
}

/// Parses a decimal numeral into an `i32`: succeeds exactly on the tokens
/// that denote a value in the `i32` range, and returns that value.
pub fn parse_int(s: &str) -> (r: Result<i32, String>)
    ensures
        is_i32_literal(s@) ==> (r matches Ok(v) && v as int == i32_literal_val(s@)),
        !is_i32_literal(s@) ==> (r matches Err(m) && m@ == parse_error_msg()),
{
    let len = s.unicode_len();
    let mut start: usize = 0;
    let mut neg = false;
    if len > 0 {
        let c0 = s.get_char(0);
        if c0 == '-' {
            neg = true;
            start = 1;
        } else if c0 == '+' {
            start = 1;
        }
    }
    if start >= len {
        proof {
            assert(digits_part(s@).len() == 0);
        }
        return Err(parse_error());
    }
    let ghost ds = digits_part(s@);
    proof {
        assert(ds =~= s@.subrange(start as int, len as int));
    }
    let mut i: usize = start;
    let mut acc: u64 = 0;
    while i < len
        invariant
            start <= i <= len,
            len == s@.len(),
            start as int == sign_len(s@),
            neg == is_negative_literal(s@),
            ds == digits_part(s@),
            ds =~= s@.subrange(start as int, len as int),
            all_digits(s@.subrange(start as int, i as int)),
            acc as int == digits_val(s@.subrange(start as int, i as int)),
            acc <= 0x8000_0000,
        decreases len - i,
    {
        let c = s.get_char(i);
        let cu: u32 = c as u32;
        if cu < 48 || cu > 57 {
            proof {
                assert(ds[i - start as int] == s@[i as int]);
                assert(!is_digit(ds[i - start as int]));
            }
            return Err(parse_error());
        }
        let d: u32 = cu - 48;
        proof {
            lemma_digits_val_step(s@, start as int, i as int);
        }
        acc = acc * 10 + (d as u64);
        i = i + 1;
        proof {
            assert(s@.subrange(start as int, i as int) =~= s@.subrange(
                start as int,
                i as int - 1,
            ).push(s@[i as int - 1]));
        }
        if acc > 0x8000_0000 {
            proof {
                if all_digits(ds) {
                    let k = i - start as int;
                    assert(ds.subrange(0, k) =~= s@.subrange(start as int, i as int));
                    lemma_digits_val_prefix_le(ds, k);
                }
            }
            return Err(parse_error());
        }
    }
    proof {
        assert(s@.subrange(start as int, i as int) =~= ds);
    }
    if neg {
        let v: i32 = (-(acc as i64)) as i32;
        proof {
            assert(is_i32_literal(s@));
            assert(v as int == i32_literal_val(s@));
        }
        Ok(v)
    } else {
        if acc > 0x7fff_ffff {
            return Err(parse_error());
        }
        let v: i32 = acc as i32;
        Ok(v)
    }
}

} // verus!
