use crate::text::chars_to_string;
use vstd::prelude::*;

verus! {

/// Decimal digits.
pub open spec fn is_digit(c: char) -> bool {
    '0' <= c <= '9'
}

pub open spec fn all_digits(s: Seq<char>) -> bool {
    forall|i: int| 0 <= i < s.len() ==> is_digit(#[trigger] s[i])
}

pub open spec fn digit_of(c: char) -> int {
    c as int - '0' as int
}

/// The number a digit sequence denotes, most significant digit first.
pub open spec fn digits_val(s: Seq<char>) -> int
    decreases s.len(),
{
    if s.len() == 0 {
        0
    } else {
        digits_val(s.drop_last()) * 10 + digit_of(s.last())
    }
}

/// The digit character for one digit value.
pub open spec fn digit_char(d: int) -> char {
    if d == 0 {
        '0'
    } else if d == 1 {
        '1'
    } else if d == 2 {
        '2'
    } else if d == 3 {
        '3'
    } else if d == 4 {
        '4'
    } else if d == 5 {
        '5'
    } else if d == 6 {
        '6'
    } else if d == 7 {
        '7'
    } else if d == 8 {
        '8'
    } else {
        '9'
    }
}

/// The decimal rendering of a score, without leading zeros.
pub open spec fn score_digits(v: int) -> Seq<char> {
    if v < 10 {
        seq![digit_char(v)]
    } else if v < 100 {
        seq![digit_char(v / 10), digit_char(v % 10)]
    } else {
        seq![digit_char(v / 100), digit_char((v / 10) % 10), digit_char(v % 10)]
    }
}

/// The digits of a number: everything after one optional leading plus sign.
pub open spec fn digits_part(s: Seq<char>) -> Seq<char> {
    if s.len() > 0 && s[0] == '+' {
        s.drop_first()
    } else {
        s
    }
}

/// What the default score parser accepts: an optional leading plus sign,
/// then a non-empty all-digit string whose value is at most 100.
pub open spec fn parse_score_spec(s: Seq<char>) -> Option<u8> {
    let d = digits_part(s);
    if d.len() > 0 && all_digits(d) && digits_val(d) <= 100 {
        Some(digits_val(d) as u8)
    } else {
        None
    }
}

/// The default score parser: map the string to its numeric value, accepting
/// only values between 0 and 100.
pub fn parse_score_str(score: &str) -> (r: Option<u8>)
    ensures
        r == parse_score_spec(score@),
        r matches Some(v) ==> v <= 100,
{
    let v = crate::text::str_to_chars(score);
    let start: usize = if v.len() > 0 && v[0] == '+' {
        1
    } else {
        0
    };
    proof {
        if start == 1 {
            assert(digits_part(score@) =~= v@.subrange(1, v@.len() as int));
        } else {
            assert(digits_part(score@) =~= v@.subrange(0, v@.len() as int));
        }
    }
    if v.len() == start {
        return None;
    }
    // `acc` tracks the value of the digits read so far, saturated at 101 so
    // that overflow can never occur and "greater than 100" is preserved.
    let mut acc: u32 = 0;
    let mut i: usize = start;
    while i < v.len()
        invariant
            start < v@.len() == score@.len(),
            v@ == score@,
            start <= i <= v@.len(),
            digits_part(score@) == v@.subrange(start as int, v@.len() as int),
            all_digits(v@.subrange(start as int, i as int)),
            acc <= 101,
            digits_val(v@.subrange(start as int, i as int)) <= 100 ==> acc == digits_val(
                v@.subrange(start as int, i as int),
            ),
            digits_val(v@.subrange(start as int, i as int)) > 100 <==> acc == 101,
            digits_val(v@.subrange(start as int, i as int)) >= 0,
        decreases v@.len() - i,
    {
        let c = v[i];
        if !('0' <= c && c <= '9') {
            proof {
                assert(digits_part(score@)[i - start] == v@[i as int]);
                assert(!is_digit(digits_part(score@)[i - start]));
            }
            return None;
        }
        let d: u32 = (c as u32) - ('0' as u32);
        proof {
            assert(v@.subrange(start as int, i + 1).drop_last() =~= v@.subrange(
                start as int,
                i as int,
            ));
            assert(v@.subrange(start as int, i + 1).last() == v@[i as int]);
        }
        let next: u32 = acc * 10 + d;
        if next > 100 {
            acc = 101;
        } else {
            acc = next;
        }
        i = i + 1;
    }
    if acc <= 100 {
        Some(acc as u8)
    } else {
        None
    }
}

/// The default score renderer: the decimal digits of the score.
pub fn score_to_string(score: u8) -> (r: String)
    ensures
        r@ == score_digits(score as int),
{
    let mut digits: Vec<char> = Vec::new();
    if score >= 100 {
        digits.push(digit_char_exec(score / 100));
        digits.push(digit_char_exec((score / 10) % 10));
        digits.push(digit_char_exec(score % 10));
    } else if score >= 10 {
        digits.push(digit_char_exec(score / 10));
        digits.push(digit_char_exec(score % 10));
    } else {
        digits.push(digit_char_exec(score));
    }
    proof {
        assert(digits@ =~= score_digits(score as int));
    }
    chars_to_string(&digits)
}

fn digit_char_exec(d: u8) -> (r: char)
    requires
        d <= 9,
    ensures
        r == digit_char(d as int),
{
    match d {
        0 => '0',
        1 => '1',
        2 => '2',
        3 => '3',
        4 => '4',
        5 => '5',
        6 => '6',
        7 => '7',
        8 => '8',
        _ => '9',
    }
}

/// What a plain decimal number parse accepts: an optional leading plus
/// sign, then a non-empty all-digit string whose value fits the type.
pub open spec fn parse_u32_spec(s: Seq<char>) -> Option<u32> {
    let d = digits_part(s);
    if d.len() > 0 && all_digits(d) && digits_val(d) <= u32::MAX {
        Some(digits_val(d) as u32)
    } else {
        None
    }
}

/// Parse a decimal number.
pub fn parse_u32_str(s: &str) -> (r: Option<u32>)
    ensures
        r == parse_u32_spec(s@),
{
    let v = crate::text::str_to_chars(s);
    let start: usize = if v.len() > 0 && v[0] == '+' {
        1
    } else {
        0
    };
    proof {
        if start == 1 {
            assert(digits_part(s@) =~= v@.subrange(1, v@.len() as int));
        } else {
            assert(digits_part(s@) =~= v@.subrange(0, v@.len() as int));
        }
    }
    if v.len() == start {
        return None;
    }
    let cap: u64 = 0x1_0000_0000;
    let mut acc: u64 = 0;
    let mut i: usize = start;
    while i < v.len()
        invariant
            start < v@.len() == s@.len(),
            v@ == s@,
            start <= i <= v@.len(),
            digits_part(s@) == v@.subrange(start as int, v@.len() as int),
            cap == 0x1_0000_0000,
            all_digits(v@.subrange(start as int, i as int)),
            acc <= cap,
            digits_val(v@.subrange(start as int, i as int)) <= u32::MAX ==> acc == digits_val(
                v@.subrange(start as int, i as int),
            ),
            digits_val(v@.subrange(start as int, i as int)) > u32::MAX <==> acc == cap,
            digits_val(v@.subrange(start as int, i as int)) >= 0,
        decreases v@.len() - i,
    {
        let c = v[i];
        if !('0' <= c && c <= '9') {
            proof {
                assert(digits_part(s@)[i - start] == v@[i as int]);
                assert(!is_digit(digits_part(s@)[i - start]));
            }
            return None;
        }
        let dg: u64 = (c as u64) - ('0' as u64);
        proof {
            assert(v@.subrange(start as int, i + 1).drop_last() =~= v@.subrange(
                start as int,
                i as int,
            ));
            assert(v@.subrange(start as int, i + 1).last() == v@[i as int]);
        }
        let next: u64 = acc * 10 + dg;
        if next > 0xFFFF_FFFF {
            acc = cap;
        } else {
            acc = next;
        }
        i = i + 1;
    }
    if acc <= 0xFFFF_FFFF {
        Some(acc as u32)
    } else {
        None
    }
}

/// Each digit character denotes the digit it was built from.
proof fn lemma_digit_char_val(d: int)
    requires
        0 <= d <= 9,
    ensures
        digit_of(digit_char(d)) == d,
{
    assert(digit_of(digit_char(0)) == 0);
    assert(digit_of(digit_char(1)) == 1);
    assert(digit_of(digit_char(2)) == 2);
    assert(digit_of(digit_char(3)) == 3);
    assert(digit_of(digit_char(4)) == 4);
    assert(digit_of(digit_char(5)) == 5);
    assert(digit_of(digit_char(6)) == 6);
    assert(digit_of(digit_char(7)) == 7);
    assert(digit_of(digit_char(8)) == 8);
    assert(digit_of(digit_char(9)) == 9);
}

/// Rendering a score and parsing it back yields the same score: the default
/// `parse_score` is a left inverse of the default `score_to_str` on `0..=100`.
pub proof fn lemma_score_round_trip(v: u8)
    requires
        v <= 100,
    ensures
        parse_score_spec(score_digits(v as int)) == Some(v),
{
    let s = score_digits(v as int);
    assert(digits_val(Seq::<char>::empty()) == 0);
    if v < 10 {
        lemma_digit_char_val(v as int);
        assert(s =~= seq![digit_char(v as int)]);
        assert(s.drop_last() =~= Seq::<char>::empty());
        assert(digits_val(s) == digits_val(s.drop_last()) * 10 + digit_of(s.last()));
        assert(digits_val(s) == v);
    } else if v < 100 {
        let hi = v as int / 10;
        let lo = v as int % 10;
        lemma_digit_char_val(hi);
        lemma_digit_char_val(lo);
        assert(s =~= seq![digit_char(hi), digit_char(lo)]);
        assert(s.drop_last() =~= seq![digit_char(hi)]);
        assert(seq![digit_char(hi)].drop_last() =~= Seq::<char>::empty());
        let s1 = seq![digit_char(hi)];
        assert(digits_val(s1) == digits_val(s1.drop_last()) * 10 + digit_of(s1.last()));
        assert(digits_val(s) == digits_val(s.drop_last()) * 10 + digit_of(s.last()));
        assert(digits_val(s) == hi * 10 + lo);
        assert(hi * 10 + lo == v as int) by (nonlinear_arith)
            requires
                hi == (v as int) / 10,
                lo == (v as int) % 10,
                0 <= (v as int) < 100,
        ;
    } else {
        assert(v == 100);
        lemma_digit_char_val(0);
        lemma_digit_char_val(1);
        assert(s =~= seq![digit_char(1), digit_char(0), digit_char(0)]);
        assert(s.drop_last() =~= seq![digit_char(1), digit_char(0)]);
        assert(seq![digit_char(1), digit_char(0)].drop_last() =~= seq![digit_char(1)]);
        assert(seq![digit_char(1)].drop_last() =~= Seq::<char>::empty());
        let s1 = seq![digit_char(1)];
        let s2 = seq![digit_char(1), digit_char(0)];
        assert(digits_val(s1) == digits_val(s1.drop_last()) * 10 + digit_of(s1.last()));
        assert(digits_val(s2) == digits_val(s2.drop_last()) * 10 + digit_of(s2.last()));
        assert(digits_val(s) == digits_val(s.drop_last()) * 10 + digit_of(s.last()));
        assert(digits_val(s) == 100);
    }
}

} // verus!
