//! Decimal numbers as text: parsing and rendering of unsigned values.
//!
//! The accepted numeral grammar is one or more ASCII digits; parsing rejects
//! signs, spaces and anything out of range for `u64`. Rendering produces the
//! usual decimal numeral without leading zeros.

use vstd::prelude::*;
use vstd::string::*;

verus! {

/// Whether `c` is an ASCII decimal digit.
pub open spec fn is_digit_char(c: char) -> bool {
    '0' <= c && c <= '9'
}

/// The numeric value of the digit `c`.
pub open spec fn digit_val(c: char) -> nat {
    ((c as u8) - ('0' as u8)) as nat
}

/// Whether `s` is a numeral: one or more digits, nothing else.
pub open spec fn all_digits(s: Seq<char>) -> bool {
    s.len() >= 1 && forall|i: int| 0 <= i < s.len() ==> is_digit_char(s[i])
}

/// The value of the digit string `s`, most significant digit first.
pub open spec fn digits_val(s: Seq<char>) -> nat
    decreases s.len(),
{
    if s.len() == 0 {
        0
    } else {
        digits_val(s.drop_last()) * 10 + digit_val(s.last())
    }
}

/// The digit character for the value `d` (which must be below ten).
pub open spec fn digit_char(d: nat) -> char {
    if d == 0 {
        '0'
    } else if d == 1 {
        '1'
    } else if d == 2 {
        '2'
    } else if d == 3 {
        '3'
    } else if d == 4 {
        '4'
    } else if d == 5 {
        '5'
    } else if d == 6 {
        '6'
    } else if d == 7 {
        '7'
    } else if d == 8 {
        '8'
    } else {
        '9'
    }
}

/// The decimal numeral of `v`, without leading zeros.
pub open spec fn dec_str(v: nat) -> Seq<char>
    decreases v,
{
    if v < 10 {
        seq![digit_char(v)]
    } else {
        dec_str(v / 10).push(digit_char(v % 10))
    }
}

/// The value of a numeral never shrinks when digits are appended.
proof fn lemma_digits_val_prefix_le(s: Seq<char>, i: int)
    requires
        0 <= i <= s.len(),
    ensures
        digits_val(s.take(i)) <= digits_val(s),
    decreases s.len() - i,
{
    if i < s.len() {
        assert(s.take(i + 1).drop_last() =~= s.take(i));
        assert(digits_val(s.take(i + 1)) == digits_val(s.take(i)) * 10 + digit_val(
            s.take(i + 1).last(),
        ));
        lemma_digits_val_prefix_le(s, i + 1);
    } else {
        assert(s.take(i) =~= s);
    }
}

/// Every character of a decimal numeral is a digit.
pub proof fn lemma_dec_str_all_digits(v: nat)
    ensures
        all_digits(dec_str(v)),
        dec_str(v).len() >= 1,
    decreases v,
{
    if v >= 10 {
        lemma_dec_str_all_digits(v / 10);
    }
}

/// Rendering and then reading a value gives the value back.
pub proof fn lemma_dec_str_val(v: nat)
    ensures
        digits_val(dec_str(v)) == v,
    decreases v,
{
    if v < 10 {
        assert(dec_str(v) == seq![digit_char(v)]);
        assert(seq![digit_char(v)].drop_last() =~= Seq::<char>::empty());
        assert(seq![digit_char(v)].last() == digit_char(v));
        assert(digits_val(seq![digit_char(v)]) == digits_val(Seq::<char>::empty()) * 10
            + digit_val(digit_char(v)));
        assert(digit_val(digit_char(v)) == v);
    } else {
        lemma_dec_str_val(v / 10);
        assert(dec_str(v) == dec_str(v / 10).push(digit_char(v % 10)));
        assert(dec_str(v).drop_last() =~= dec_str(v / 10));
        assert(dec_str(v).last() == digit_char(v % 10));
        assert(digits_val(dec_str(v)) == digits_val(dec_str(v).drop_last()) * 10 + digit_val(
            dec_str(v).last(),
        ));
        assert(digit_val(digit_char(v % 10)) == v % 10);
        assert(digits_val(dec_str(v)) == (v / 10) * 10 + v % 10);
    }
}

/// Reads a `u64` from its decimal numeral: one or more digits, value in
/// range; anything else is rejected.
pub fn parse_u64(s: &str) -> (r: Option<u64>)
    ensures
        r is Some <==> all_digits(s@) && digits_val(s@) <= u64::MAX,
        r matches Some(v) ==> v == digits_val(s@),
{
    let n: usize = s.unicode_len();
    if n == 0 {
        return None;
    }
    let mut acc: u64 = 0;
    let mut i: usize = 0;
    proof {
        assert(s@.take(0) =~= Seq::<char>::empty());
    }
    while i < n
        invariant
            n == s@.len(),
            0 < n,
            i <= n,
            forall|k: int| 0 <= k < i ==> is_digit_char(s@[k]),
            acc == digits_val(s@.take(i as int)),
        decreases n - i,
    {
        let c = s.get_char(i);
        if !('0' <= c && c <= '9') {
            return None;
        }
        let d: u8 = (c as u8) - ('0' as u8);
        let wide: u128 = (acc as u128) * 10 + (d as u128);
        proof {
            assert(s@.take(i + 1).drop_last() =~= s@.take(i as int));
            assert(s@.take(i + 1).last() == s@[i as int]);
        }
        if wide > u64::MAX as u128 {
            proof {
                lemma_digits_val_prefix_le(s@, i + 1);
            }
            return None;
        }
        acc = wide as u64;
        i = i + 1;
    }
    proof {
        assert(s@.take(n as int) =~= s@);
    }
    Some(acc)
}

/// The one-character string of the digit `d`.
fn digit_str(d: u64) -> (r: &'static str)
    requires
        d < 10,
    ensures
        r@ == seq![digit_char(d as nat)],
{
    proof {
        reveal_strlit("0");
        reveal_strlit("1");
        reveal_strlit("2");
        reveal_strlit("3");
        reveal_strlit("4");
        reveal_strlit("5");
        reveal_strlit("6");
        reveal_strlit("7");
        reveal_strlit("8");
        reveal_strlit("9");
    }
    if d == 0 {
        "0"
    } else if d == 1 {
        "1"
    } else if d == 2 {
        "2"
    } else if d == 3 {
        "3"
    } else if d == 4 {
        "4"
    } else if d == 5 {
        "5"
    } else if d == 6 {
        "6"
    } else if d == 7 {
        "7"
    } else if d == 8 {
        "8"
    } else {
        "9"
    }
}

/// Renders `v` as its decimal numeral.
pub fn to_dec(v: u64) -> (r: String)
    ensures
        r@ == dec_str(v as nat),
    decreases v,
{
    if v < 10 {
        String::from_str(digit_str(v))
    } else {
        let mut r = to_dec(v / 10);
        r.append(digit_str(v % 10));
        proof {
            assert(dec_str((v / 10) as nat) + seq![digit_char((v % 10) as nat)] =~= dec_str(
                (v / 10) as nat,
            ).push(digit_char((v % 10) as nat)));
        }
        r
    }
}

} // verus!
