//! Validation of dial addresses.
//!
//! An address is accepted when it is a literal `IPv4:port`: four decimal
//! octets up to 255 joined by dots, a colon, and a decimal port up to 65535.
//! Octets and the port carry no leading zeros (`0` itself is allowed), no
//! signs and no spaces. Host names are not resolved here: validation is
//! restricted to literal addresses, so it needs no name service and accepts
//! exactly the grammar above.

use vstd::prelude::*;
use vstd::string::*;

use crate::numbers::{all_digits, digits_val, is_digit_char, parse_u64};
use crate::text::{all_chars_sat, lemma_split_chars_sat, split_on, split_str};

verus! {

/// Whether `s` is a decimal numeral without a leading zero, of value at most
/// `max`.
pub open spec fn valid_num_upto(s: Seq<char>, max: nat) -> bool {
    all_digits(s) && (s[0] == '0' ==> s.len() == 1) && digits_val(s) <= max
}

/// Whether `s` is one decimal octet of an IPv4 address.
pub open spec fn valid_octet(s: Seq<char>) -> bool {
    valid_num_upto(s, 255)
}

/// Whether `s` is a decimal port number.
pub open spec fn valid_port(s: Seq<char>) -> bool {
    valid_num_upto(s, 65535)
}

/// Whether `s` is a literal `IPv4:port` address.
pub open spec fn valid_addr(s: Seq<char>) -> bool {
    let cparts = split_on(s, ':');
    cparts.len() == 2 && valid_port(cparts[1]) && {
        let dparts = split_on(cparts[0], '.');
        dparts.len() == 4 && (forall|i: int| 0 <= i < 4 ==> valid_octet(#[trigger] dparts[i]))
    }
}

/// The empty string is not an address.
pub proof fn lemma_empty_not_valid_addr()
    ensures
        !valid_addr(Seq::<char>::empty()),
{
    assert(split_on(Seq::<char>::empty(), ':') == Seq::<Seq<char>>::empty().push(
        Seq::<char>::empty(),
    ));
}

/// A valid address holds only digits, dots and the colon, so it can be
/// persisted verbatim inside a quoted configuration value.
pub proof fn lemma_valid_addr_plain(s: Seq<char>)
    requires
        valid_addr(s),
    ensures
        crate::config::plain_seq(s),
{
    let cparts = split_on(s, ':');
    let host = cparts[0];
    let dparts = split_on(host, '.');
    let digit = |c: char| is_digit_char(c);
    assert forall|i: int| 0 <= i < dparts.len() implies all_chars_sat(#[trigger] dparts[i], digit)
    by {
        assert(valid_octet(dparts[i]));
    }
    lemma_split_chars_sat(host, '.', digit);
    let hostlike = |c: char| is_digit_char(c) || c == '.';
    assert forall|i: int| 0 <= i < cparts.len() implies all_chars_sat(
        #[trigger] cparts[i],
        hostlike,
    ) by {
        if i == 0 {
            assert(forall|k: int| 0 <= k < host.len() ==> host[k] == '.' || is_digit_char(host[k]));
        } else {
            assert(valid_port(cparts[1]));
        }
    }
    lemma_split_chars_sat(s, ':', hostlike);
    assert forall|i: int| 0 <= i < s.len() implies crate::config::plain_char(s[i]) by {
        assert(s[i] == ':' || is_digit_char(s[i]) || s[i] == '.');
    }
}

/// Checks one numeric field: digits only, no leading zero, value at most
/// `max`.
fn check_num_upto(s: &str, max: u64) -> (r: bool)
    ensures
        r == valid_num_upto(s@, max as nat),
{
    let n: usize = s.unicode_len();
    if n == 0 {
        return false;
    }
    if n > 1 && s.get_char(0) == '0' {
        return false;
    }
    match parse_u64(s) {
        Some(v) => v <= max,
        None => false,
    }
}

/// Whether `s` is a literal `IPv4:port` address.
pub fn is_valid_address(s: &str) -> (r: bool)
    ensures
        r == valid_addr(s@),
{
    let cparts = split_str(s, ':');
    if cparts.len() != 2 {
        return false;
    }
    if !check_num_upto(cparts[1].as_str(), 65535) {
        proof {
            assert(cparts.deep_view()[1] == cparts@[1]@);
        }
        return false;
    }
    let dparts = split_str(cparts[0].as_str(), '.');
    proof {
        assert(cparts.deep_view()[0] == cparts@[0]@);
        assert(cparts.deep_view()[1] == cparts@[1]@);
    }
    if dparts.len() != 4 {
        return false;
    }
    let mut i: usize = 0;
    while i < 4
        invariant
            i <= 4,
            dparts.len() == 4,
            dparts.deep_view() == split_on(split_on(s@, ':')[0], '.'),
            forall|k: int| 0 <= k < i ==> valid_octet(#[trigger] dparts.deep_view()[k]),
        decreases 4 - i,
    {
        if !check_num_upto(dparts[i].as_str(), 255) {
            proof {
                assert(dparts.deep_view()[i as int] == dparts@[i as int]@);
            }
            return false;
        }
        proof {
            assert(dparts.deep_view()[i as int] == dparts@[i as int]@);
        }
        i = i + 1;
    }
    true
}

} // verus!
