//! The on-disk text form of the configuration.
//!
//! The persisted document is a small key/value text, one field per line in a
//! fixed order, each line `name = value`: booleans as `true`/`false`,
//! timeouts as decimal numerals, the recent connection quoted verbatim. The
//! shape is a fragment of the usual `name = value` configuration syntax, and
//! the decoder accepts exactly what the encoder emits, so a decoded document
//! is never partially understood: anything else is rejected whole, and the
//! caller falls back to the default configuration.

use vstd::prelude::*;
use vstd::string::*;

use crate::config::{bool_str, plain_char, plain_seq, Config, ConfigV};
use crate::numbers::{
    all_digits, dec_str, digits_val, is_digit_char, lemma_dec_str_all_digits, lemma_dec_str_val,
    parse_u64, to_dec,
};
use crate::text::{has_prefix, lemma_split_line, split_on, split_str, str_eq, strip_prefix_str};

verus! {

/// The persisted text of the configuration `c`.
pub open spec fn spec_encode(c: ConfigV) -> Seq<char> {
    "wait_for_response = "@ + bool_str(c.wait_for_response) + "\n"@ + "read_timeout = "@
        + dec_str(c.read_timeout as nat) + "\n"@ + "connection_timeout = "@ + dec_str(
        c.connection_timeout as nat,
    ) + "\n"@ + "recent_connection = "@ + "\""@ + c.recent_connection + "\""@ + "\n"@
}

/// The value of a `name = value` line, when the line carries that name.
pub open spec fn line_value(line: Seq<char>, prefix: Seq<char>) -> Option<Seq<char>> {
    if has_prefix(line, prefix) {
        Some(line.skip(prefix.len() as int))
    } else {
        None
    }
}

/// The boolean a value text denotes: exactly `true` or `false`.
pub open spec fn bool_of(v: Seq<char>) -> Option<bool> {
    if v == "true"@ {
        Some(true)
    } else if v == "false"@ {
        Some(false)
    } else {
        None
    }
}

/// The `u64` a value text denotes: a decimal numeral in range.
pub open spec fn u64_of(v: Seq<char>) -> Option<u64> {
    if all_digits(v) && digits_val(v) <= u64::MAX {
        Some(digits_val(v) as u64)
    } else {
        None
    }
}

/// The string a quoted value text denotes: plain characters between two
/// quotes, taken verbatim.
pub open spec fn quoted_of(v: Seq<char>) -> Option<Seq<char>> {
    if v.len() >= 2 && v[0] == '"' && v.last() == '"' && plain_seq(
        v.subrange(1, v.len() - 1),
    ) {
        Some(v.subrange(1, v.len() - 1))
    } else {
        None
    }
}

/// The configuration a persisted document denotes, or `None` when the
/// document is not of the persisted shape: exactly four lines, in order,
/// each with its field's name and a value of its field's type.
pub open spec fn spec_decode(s: Seq<char>) -> Option<ConfigV> {
    let ls = split_on(s, '\n');
    if ls.len() != 5 || ls[4].len() != 0 {
        None
    } else {
        match line_value(ls[0], "wait_for_response = "@) {
            None => None,
            Some(v0) => match bool_of(v0) {
                None => None,
                Some(w) => match line_value(ls[1], "read_timeout = "@) {
                    None => None,
                    Some(v1) => match u64_of(v1) {
                        None => None,
                        Some(rt) => match line_value(ls[2], "connection_timeout = "@) {
                            None => None,
                            Some(v2) => match u64_of(v2) {
                                None => None,
                                Some(ct) => match line_value(ls[3], "recent_connection = "@) {
                                    None => None,
                                    Some(v3) => match quoted_of(v3) {
                                        None => None,
                                        Some(rc) => Some(
                                            ConfigV {
                                                wait_for_response: w,
                                                read_timeout: rt,
                                                connection_timeout: ct,
                                                recent_connection: rc,
                                            },
                                        ),
                                    },
                                },
                            },
                        },
                    },
                },
            },
        }
    }
}

/// Persistence round trip: decoding the encoded text of any well-formed
/// configuration yields that configuration back, field for field.
pub proof fn lemma_config_round_trip(c: ConfigV)
    requires
        c.wf(),
    ensures
        spec_decode(spec_encode(c)) == Some(c),
{
    reveal_strlit("\n");
    reveal_strlit("\"");
    reveal_strlit("wait_for_response = ");
    reveal_strlit("read_timeout = ");
    reveal_strlit("connection_timeout = ");
    reveal_strlit("recent_connection = ");
    reveal_strlit("true");
    reveal_strlit("false");
    lemma_dec_str_all_digits(c.read_timeout as nat);
    lemma_dec_str_val(c.read_timeout as nat);
    lemma_dec_str_all_digits(c.connection_timeout as nat);
    lemma_dec_str_val(c.connection_timeout as nat);
    let nl = seq!['\n'];
    assert("\n"@ =~= nl);
    let p0 = "wait_for_response = "@;
    let p1 = "read_timeout = "@;
    let p2 = "connection_timeout = "@;
    let p3 = "recent_connection = "@;
    let q = "\""@;
    let rc = c.recent_connection;
    let l0 = p0 + bool_str(c.wait_for_response);
    let l1 = p1 + dec_str(c.read_timeout as nat);
    let l2 = p2 + dec_str(c.connection_timeout as nat);
    let l3 = p3 + q + rc + q;
    let r2 = l3 + nl + Seq::<char>::empty();
    let r1 = l2 + nl + r2;
    let r0 = l1 + nl + r1;
    assert(spec_encode(c) =~= l0 + nl + r0);
    assert(forall|i: int| 0 <= i < l0.len() ==> l0[i] != '\n') by {
        assert(forall|i: int|
            0 <= i < bool_str(c.wait_for_response).len() ==> bool_str(c.wait_for_response)[i]
                != '\n');
    }
    assert(forall|i: int| 0 <= i < l1.len() ==> l1[i] != '\n') by {
        assert(forall|i: int|
            0 <= i < dec_str(c.read_timeout as nat).len() ==> is_digit_char(
                #[trigger] dec_str(c.read_timeout as nat)[i],
            ) && dec_str(c.read_timeout as nat)[i] != '\n');
    }
    assert(forall|i: int| 0 <= i < l2.len() ==> l2[i] != '\n') by {
        assert(forall|i: int|
            0 <= i < dec_str(c.connection_timeout as nat).len() ==> is_digit_char(
                #[trigger] dec_str(c.connection_timeout as nat)[i],
            ) && dec_str(c.connection_timeout as nat)[i] != '\n');
    }
    assert(forall|i: int| 0 <= i < l3.len() ==> l3[i] != '\n') by {
        assert(plain_seq(rc));
        assert(forall|i: int| 0 <= i < rc.len() ==> plain_char(#[trigger] rc[i]));
    }
    lemma_split_line(l0, r0, '\n');
    lemma_split_line(l1, r1, '\n');
    lemma_split_line(l2, r2, '\n');
    lemma_split_line(l3, Seq::<char>::empty(), '\n');
    assert(split_on(Seq::<char>::empty(), '\n') == Seq::<Seq<char>>::empty().push(
        Seq::<char>::empty(),
    ));
    let ls = split_on(spec_encode(c), '\n');
    assert(ls == seq![l0] + (seq![l1] + (seq![l2] + (seq![l3] + split_on(
        Seq::<char>::empty(),
        '\n',
    )))));
    assert(ls =~~= seq![l0, l1, l2, l3, Seq::<char>::empty()]);
    assert(ls.len() == 5 && ls[4].len() == 0);
    // line 0: the boolean
    assert(l0.subrange(0, p0.len() as int) =~= p0);
    assert(l0.skip(p0.len() as int) =~= bool_str(c.wait_for_response));
    assert(line_value(ls[0], p0) == Some(bool_str(c.wait_for_response)));
    assert(bool_of(bool_str(c.wait_for_response)) == Some(c.wait_for_response));
    // line 1: the read timeout
    assert(l1.subrange(0, p1.len() as int) =~= p1);
    assert(l1.skip(p1.len() as int) =~= dec_str(c.read_timeout as nat));
    assert(line_value(ls[1], p1) == Some(dec_str(c.read_timeout as nat)));
    assert(u64_of(dec_str(c.read_timeout as nat)) == Some(c.read_timeout));
    // line 2: the connect timeout
    assert(l2.subrange(0, p2.len() as int) =~= p2);
    assert(l2.skip(p2.len() as int) =~= dec_str(c.connection_timeout as nat));
    assert(line_value(ls[2], p2) == Some(dec_str(c.connection_timeout as nat)));
    assert(u64_of(dec_str(c.connection_timeout as nat)) == Some(c.connection_timeout));
    // line 3: the quoted recent connection
    assert(l3.subrange(0, p3.len() as int) =~= p3);
    let v3 = l3.skip(p3.len() as int);
    assert(v3 =~= q + rc + q);
    assert(line_value(ls[3], p3) == Some(v3));
    assert(v3.len() == rc.len() + 2);
    assert(v3[0] == '"');
    assert(v3.last() == '"');
    assert(v3.subrange(1, v3.len() - 1) =~= rc);
    assert(quoted_of(v3) == Some(rc));
    assert(spec_decode(spec_encode(c)) == Some(c));
}

/// Renders the configuration as its persisted text.
pub fn encode_config(c: &Config) -> (r: String)
    ensures
        r@ == spec_encode(c@),
{
    let mut r = String::from_str("wait_for_response = ");
    r.append(if c.wait_for_response { "true" } else { "false" });
    r.append("\n");
    r.append("read_timeout = ");
    let rt = to_dec(c.read_timeout);
    r.append(rt.as_str());
    r.append("\n");
    r.append("connection_timeout = ");
    let ct = to_dec(c.connection_timeout);
    r.append(ct.as_str());
    r.append("\n");
    r.append("recent_connection = ");
    r.append("\"");
    r.append(c.recent_connection.as_str());
    r.append("\"");
    r.append("\n");
    proof {
        assert(r@ =~= spec_encode(c@));
    }
    r
}

/// Reads a quoted plain value: the text between the quotes, verbatim.
fn unquote_plain(v: &str) -> (r: Option<String>)
    ensures
        r is Some <==> quoted_of(v@) is Some,
        r matches Some(rc) ==> quoted_of(v@) == Some(rc@),
{
    let n: usize = v.unicode_len();
    if n < 2 {
        return None;
    }
    if v.get_char(0) != '"' {
        return None;
    }
    if v.get_char(n - 1) != '"' {
        return None;
    }
    let mut i: usize = 1;
    while i < n - 1
        invariant
            n == v@.len(),
            2 <= n,
            1 <= i <= n - 1,
            forall|k: int| 1 <= k < i ==> plain_char(v@[k]),
        decreases n - i,
    {
        let c = v.get_char(i);
        if c == '"' || c == '\\' || c == '\n' || c == '\r' {
            proof {
                assert(v@.subrange(1, n - 1)[i - 1] == v@[i as int]);
                assert(!plain_seq(v@.subrange(1, n - 1)));
            }
            return None;
        }
        i = i + 1;
    }
    proof {
        assert forall|k: int| 0 <= k < v@.subrange(1, n - 1).len() implies plain_char(
            #[trigger] v@.subrange(1, n - 1)[k],
        ) by {
            assert(v@.subrange(1, n - 1)[k] == v@[k + 1]);
        }
    }
    Some(String::from_str(v.substring_char(1, n - 1)))
}

/// Reads a persisted document back into a configuration; a document not of
/// the persisted shape is rejected whole.
pub fn decode_config(s: &str) -> (r: Option<Config>)
    ensures
        r is Some <==> spec_decode(s@) is Some,
        r matches Some(c) ==> spec_decode(s@) == Some(c@),
{
    let ls = split_str(s, '\n');
    proof {
        assert forall|k: int| 0 <= k < ls@.len() implies #[trigger] ls@[k]@ == split_on(
            s@,
            '\n',
        )[k] by {
            assert(ls.deep_view()[k] == ls@[k]@);
        }
    }
    if ls.len() != 5 {
        return None;
    }
    if !ls[4].as_str().is_empty() {
        return None;
    }
    let v0 = match strip_prefix_str(ls[0].as_str(), "wait_for_response = ") {
        Some(v) => v,
        None => {
            return None;
        }
    };
    let w: bool = if str_eq(v0.as_str(), "true") {
        true
    } else if str_eq(v0.as_str(), "false") {
        false
    } else {
        return None;
    };
    let v1 = match strip_prefix_str(ls[1].as_str(), "read_timeout = ") {
        Some(v) => v,
        None => {
            return None;
        }
    };
    let rt = match parse_u64(v1.as_str()) {
        Some(v) => v,
        None => {
            return None;
        }
    };
    let v2 = match strip_prefix_str(ls[2].as_str(), "connection_timeout = ") {
        Some(v) => v,
        None => {
            return None;
        }
    };
    let ct = match parse_u64(v2.as_str()) {
        Some(v) => v,
        None => {
            return None;
        }
    };
    let v3 = match strip_prefix_str(ls[3].as_str(), "recent_connection = ") {
        Some(v) => v,
        None => {
            return None;
        }
    };
    let rc = match unquote_plain(v3.as_str()) {
        Some(v) => v,
        None => {
            return None;
        }
    };
    Some(
        Config {
            wait_for_response: w,
            read_timeout: rt,
            connection_timeout: ct,
            recent_connection: rc,
        },
    )
}

} // verus!
