//! Decimal digit strings: their values, parsing and rendering.

use vstd::prelude::*;

verus! {

/// The value of `c` as a decimal digit, or `-1` if `c` is no digit.
pub open spec fn digit_val(c: char) -> int {
    if c == '0' {
        0
    } else if c == '1' {
        1
    } else if c == '2' {
        2
    } else if c == '3' {
        3
    } else if c == '4' {
        4
    } else if c == '5' {
        5
    } else if c == '6' {
        6
    } else if c == '7' {
        7
    } else if c == '8' {
        8
    } else if c == '9' {
        9
    } else {
        -1
    }
}

pub open spec fn is_digit(c: char) -> bool {
    digit_val(c) >= 0
}

pub open spec fn all_digits(s: Seq<char>) -> bool {
    forall|i: int| 0 <= i < s.len() ==> is_digit(#[trigger] s[i])
}

/// The decimal value of `s`, most significant digit first.  Only meaningful
/// when `all_digits(s)` holds.
pub open spec fn digits_value(s: Seq<char>) -> int
    decreases s.len(),
{
    if s.len() == 0 {
        0
    } else {
        digits_value(s.drop_last()) * 10 + digit_val(s.last())
    }
}

/// What parsing `s` as a non-negative 16-bit decimal number yields: the
/// digits' value when `s` is a non-empty run of digits whose value fits,
/// nothing otherwise.
pub open spec fn spec_parse_u16(s: Seq<char>) -> Option<u16> {
    if s.len() > 0 && all_digits(s) && digits_value(s) <= u16::MAX {
        Some(digits_value(s) as u16)
    } else {
        None
    }
}

/// Once a prefix of `s` reaches a positive value, the remaining characters
/// cannot bring the value of all of `s` back below it, digits or not.
proof fn lemma_digits_value_grows(s: Seq<char>, i: int)
    requires
        1 <= i <= s.len(),
        digits_value(s.take(i)) >= 1,
    ensures
        digits_value(s) >= digits_value(s.take(i)),
    decreases s.len() - i,
{
    if i == s.len() {
        assert(s.take(i) =~= s);
    } else {
        let t = s.take(i + 1);
        assert(t.drop_last() =~= s.take(i));
        assert(t.last() == s[i]);
        assert(digit_val(s[i]) >= -1);
        assert(digits_value(t) == digits_value(s.take(i)) * 10 + digit_val(s[i]));
        assert(digits_value(t) >= digits_value(s.take(i)));
        lemma_digits_value_grows(s, i + 1);
    }
}

/// The value of `c` as a decimal digit, if it is one.
pub fn digit_of(c: char) -> (r: Option<u8>)
    ensures
        match r {
            Some(d) => digit_val(c) == d as int,
            None => !is_digit(c),
        },
{
    match c {
        '0' => Some(0),
        '1' => Some(1),
        '2' => Some(2),
        '3' => Some(3),
        '4' => Some(4),
        '5' => Some(5),
        '6' => Some(6),
        '7' => Some(7),
        '8' => Some(8),
        '9' => Some(9),
        _ => None,
    }
}

/// Parses `s` as a non-negative decimal number of at most 16 bits: a
/// non-empty string of decimal digits whose value is at most `u16::MAX`.
pub fn parse_u16(s: &str) -> (r: Option<u16>)
    ensures
        r == spec_parse_u16(s@),
{
    let n = s.unicode_len();
    if n == 0 {
        return None;
    }
    let mut acc: u32 = 0;
    let mut i: usize = 0;
    while i < n
        invariant
            n == s@.len(),
            0 < n,
            0 <= i <= n,
            forall|j: int| 0 <= j < i ==> is_digit(#[trigger] s@[j]),
            acc as int == digits_value(s@.take(i as int)),
            acc <= u16::MAX,
        decreases n - i,
    {
        let c = s.get_char(i);
        match digit_of(c) {
            None => {
                assert(!is_digit(s@[i as int]));
                return None;
            },
            Some(d) => {
                let next: u32 = acc * 10 + d as u32;
                proof {
                    let t = s@.take(i + 1);
                    assert(t.drop_last() =~= s@.take(i as int));
                    assert(t.last() == s@[i as int]);
                }
                if next > u16::MAX as u32 {
                    proof {
                        lemma_digits_value_grows(s@, i + 1);
                        assert(digits_value(s@) > u16::MAX);
                    }
                    return None;
                }
                acc = next;
                i += 1;
            },
        }
    }
    proof {
        assert(s@.take(n as int) =~= s@);
    }
    Some(acc as u16)
}

/// The decimal representation of `x`, empty when `x <= 0`.
pub open spec fn dec_rep(x: int) -> Seq<char>
    decreases x,
{
    if x <= 0 {
        Seq::empty()
    } else {
        dec_rep(x / 10) + seq![digit_char(x % 10)]
    }
}

/// The digit character for a value in `0 ..= 9`.
pub open spec fn digit_char(d: int) -> char {
    if d == 0 {
        '0'
    } else if d == 1 {
        '1'
    } else if d == 2 {
        '2'
    } else if d == 3 {
        '3'
    } else if d == 4 {
        '4'
    } else if d == 5 {
        '5'
    } else if d == 6 {
        '6'
    } else if d == 7 {
        '7'
    } else if d == 8 {
        '8'
    } else {
        '9'
    }
}

/// The decimal rendering of `x`: `dec_rep(x)`, except that zero is `"0"`.
pub open spec fn spec_render_u16(x: int) -> Seq<char> {
    if x == 0 {
        seq!['0']
    } else {
        dec_rep(x)
    }
}

/// Rendering a positive number yields its digits, and parsing them back
/// recovers the number.
pub proof fn lemma_dec_rep_value(x: int)
    requires
        0 <= x,
    ensures
        all_digits(dec_rep(x)),
        digits_value(dec_rep(x)) == x,
        x >= 1 ==> dec_rep(x).len() >= 1 && dec_rep(x)[0] != '0',
    decreases x,
{
    if x <= 0 {
    } else {
        lemma_dec_rep_value(x / 10);
        let s = dec_rep(x);
        assert(s.drop_last() =~= dec_rep(x / 10));
        assert(s.last() == digit_char(x % 10));
        assert(digit_val(digit_char(x % 10)) == x % 10);
        if x / 10 >= 1 {
            assert(s[0] == dec_rep(x / 10)[0]);
        } else {
            assert(s.len() == 1);
            assert(x % 10 == x);
        }
        assert forall|i: int| 0 <= i < s.len() implies is_digit(#[trigger] s[i]) by {
            if i < s.len() - 1 {
                assert(s[i] == dec_rep(x / 10)[i]);
            }
        }
    }
}

/// Parsing the rendering of `x` gives `x` back.
pub proof fn lemma_render_parse_round_trip(x: u16)
    ensures
        spec_parse_u16(spec_render_u16(x as int)) == Some(x),
{
    if x == 0 {
        let s = seq!['0'];
        assert(s.drop_last() =~= Seq::<char>::empty());
        assert(digits_value(Seq::<char>::empty()) == 0);
        assert(s.last() == '0');
        assert(digits_value(s) == 0);
        assert(all_digits(s));
    } else {
        lemma_dec_rep_value(x as int);
    }
}

/// Renders `x` in decimal, most significant digit first, without leading
/// zeroes.
pub fn u16_to_string(x: u16) -> (r: String)
    ensures
        r@ == spec_render_u16(x as int),
{
    if x == 0 {
        let z = String::from_str("0");
        proof {
            reveal_strlit("0");
            assert(z@ =~= seq!['0']);
        }
        return z;
    }
    let mut acc = String::new();
    let mut rest: u16 = x;
    while rest > 0
        invariant
            dec_rep(rest as int) + acc@ =~= dec_rep(x as int),
        decreases rest,
    {
        let d: u16 = rest % 10;
        let digit: &str = match d {
            0 => "0",
            1 => "1",
            2 => "2",
            3 => "3",
            4 => "4",
            5 => "5",
            6 => "6",
            7 => "7",
            8 => "8",
            _ => "9",
        };
        proof {
            reveal_strlit("0");
            reveal_strlit("1");
            reveal_strlit("2");
            reveal_strlit("3");
            reveal_strlit("4");
            reveal_strlit("5");
            reveal_strlit("6");
            reveal_strlit("7");
            reveal_strlit("8");
            reveal_strlit("9");
            assert(digit@ =~= seq![digit_char(d as int)]);
        }
        let mut piece = String::from_str(digit);
        piece.append(acc.as_str());
        proof {
            assert(dec_rep(rest as int) =~= dec_rep(rest as int / 10) + seq![
                digit_char(rest as int % 10),
            ]);
            assert(dec_rep(rest as int / 10) + (seq![digit_char(rest as int % 10)] + acc@)
                =~= dec_rep(rest as int) + acc@);
        }
        acc = piece;
        rest = rest / 10;
    }
    proof {
        assert(dec_rep(0) + acc@ =~= acc@);
    }
    acc
}

} // verus!
