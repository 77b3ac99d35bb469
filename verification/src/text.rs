//! Character-level text helpers: whitespace tokenization, separator
//! splitting, case-insensitive comparison and prefix stripping.
//!
//! Operator input is split into whitespace-delimited tokens; the recognized
//! whitespace characters are the ASCII ones (space, tab, carriage return,
//! line feed). Splitting on a separator keeps empty parts, as the config
//! codec needs.

use vstd::prelude::*;
use vstd::string::*;

verus! {

/// The whitespace characters that delimit tokens of operator input.
pub open spec fn is_space_char(c: char) -> bool {
    c == ' ' || c == '\t' || c == '\r' || c == '\n'
}

/// Helper for [`tokens_of`]: folds over `s` with the token built so far
/// (`cur`) and the tokens already complete (`acc`).
pub open spec fn tokens_rec(s: Seq<char>, cur: Seq<char>, acc: Seq<Seq<char>>) -> Seq<Seq<char>>
    decreases s.len(),
{
    if s.len() == 0 {
        if cur.len() == 0 {
            acc
        } else {
            acc.push(cur)
        }
    } else if is_space_char(s[0]) {
        if cur.len() == 0 {
            tokens_rec(s.drop_first(), cur, acc)
        } else {
            tokens_rec(s.drop_first(), Seq::empty(), acc.push(cur))
        }
    } else {
        tokens_rec(s.drop_first(), cur.push(s[0]), acc)
    }
}

/// The maximal runs of non-whitespace characters of `s`, in order.
pub open spec fn tokens_of(s: Seq<char>) -> Seq<Seq<char>> {
    tokens_rec(s, Seq::empty(), Seq::empty())
}

/// A line of nothing but whitespace has no tokens.
pub proof fn lemma_whitespace_has_no_tokens(s: Seq<char>)
    requires
        forall|i: int| 0 <= i < s.len() ==> is_space_char(s[i]),
    ensures
        tokens_of(s).len() == 0,
{
    lemma_tokens_rec_all_space(s, Seq::empty());
}

proof fn lemma_tokens_rec_all_space(s: Seq<char>, acc: Seq<Seq<char>>)
    requires
        forall|i: int| 0 <= i < s.len() ==> is_space_char(s[i]),
    ensures
        tokens_rec(s, Seq::empty(), acc) == acc,
    decreases s.len(),
{
    if s.len() > 0 {
        lemma_tokens_rec_all_space(s.drop_first(), acc);
    }
}

/// Every token is a nonempty run of characters.
pub proof fn lemma_tokens_nonempty(s: Seq<char>)
    ensures
        forall|i: int| 0 <= i < tokens_of(s).len() ==> tokens_of(s)[i].len() > 0,
{
    lemma_tokens_rec_nonempty(s, Seq::empty(), Seq::empty());
}

proof fn lemma_tokens_rec_nonempty(s: Seq<char>, cur: Seq<char>, acc: Seq<Seq<char>>)
    requires
        forall|i: int| 0 <= i < acc.len() ==> acc[i].len() > 0,
    ensures
        forall|i: int|
            0 <= i < tokens_rec(s, cur, acc).len() ==> tokens_rec(s, cur, acc)[i].len() > 0,
    decreases s.len(),
{
    if s.len() == 0 {
        if cur.len() > 0 {
            assert(tokens_rec(s, cur, acc) == acc.push(cur));
            assert(forall|i: int|
                0 <= i < acc.push(cur).len() ==> acc.push(cur)[i].len() > 0) by {
                assert(forall|i: int| 0 <= i < acc.len() ==> acc.push(cur)[i] == acc[i]);
                assert(acc.push(cur)[acc.len() as int] == cur);
            }
        }
    } else if is_space_char(s[0]) {
        if cur.len() == 0 {
            assert(tokens_rec(s, cur, acc) == tokens_rec(s.drop_first(), cur, acc));
            lemma_tokens_rec_nonempty(s.drop_first(), cur, acc);
        } else {
            assert(tokens_rec(s, cur, acc) == tokens_rec(
                s.drop_first(),
                Seq::empty(),
                acc.push(cur),
            ));
            assert(forall|i: int|
                0 <= i < acc.push(cur).len() ==> acc.push(cur)[i].len() > 0) by {
                assert(forall|i: int| 0 <= i < acc.len() ==> acc.push(cur)[i] == acc[i]);
                assert(acc.push(cur)[acc.len() as int] == cur);
            }
            lemma_tokens_rec_nonempty(s.drop_first(), Seq::empty(), acc.push(cur));
        }
    } else {
        assert(tokens_rec(s, cur, acc) == tokens_rec(s.drop_first(), cur.push(s[0]), acc));
        lemma_tokens_rec_nonempty(s.drop_first(), cur.push(s[0]), acc);
    }
}

/// Splits `s` into its whitespace-delimited tokens.
pub fn tokenize(s: &str) -> (r: Vec<String>)
    ensures
        r.deep_view() == tokens_of(s@),
{
    let n: usize = s.unicode_len();
    let mut r: Vec<String> = Vec::new();
    let mut i: usize = 0;
    let mut start: usize = 0;
    let mut in_token: bool = false;
    proof {
        assert(s@.skip(0) =~= s@);
        assert(r.deep_view() =~~= Seq::<Seq<char>>::empty());
    }
    while i < n
        invariant
            n == s@.len(),
            i <= n,
            in_token ==> start < i,
            in_token ==> forall|k: int| start <= k < i ==> !is_space_char(s@[k]),
            tokens_rec(
                s@.skip(i as int),
                if in_token {
                    s@.subrange(start as int, i as int)
                } else {
                    Seq::empty()
                },
                r.deep_view(),
            ) == tokens_of(s@),
        decreases n - i,
    {
        let c = s.get_char(i);
        proof {
            assert(s@.skip(i as int).drop_first() =~= s@.skip(i + 1));
            assert(s@.skip(i as int)[0] == s@[i as int]);
        }
        if c == ' ' || c == '\t' || c == '\r' || c == '\n' {
            if in_token {
                let tok = String::from_str(s.substring_char(start, i));
                let ghost prev = r.deep_view();
                r.push(tok);
                proof {
                    assert(r.deep_view() =~~= prev.push(s@.subrange(start as int, i as int)));
                }
                in_token = false;
            }
        } else {
            if !in_token {
                start = i;
                in_token = true;
                proof {
                    assert(s@.subrange(start as int, i + 1) =~= Seq::<char>::empty().push(
                        s@[i as int],
                    ));
                }
            } else {
                proof {
                    assert(s@.subrange(start as int, i + 1) =~= s@.subrange(
                        start as int,
                        i as int,
                    ).push(s@[i as int]));
                }
            }
        }
        i = i + 1;
    }
    proof {
        assert(s@.skip(n as int) =~= Seq::<char>::empty());
    }
    if in_token {
        let tok = String::from_str(s.substring_char(start, n));
        let ghost prev = r.deep_view();
        r.push(tok);
        proof {
            assert(r.deep_view() =~~= prev.push(s@.subrange(start as int, n as int)));
        }
    }
    r
}

/// Helper for [`split_on`]: folds over `s`, keeping empty parts.
pub open spec fn split_rec(s: Seq<char>, sep: char, cur: Seq<char>, acc: Seq<Seq<char>>) -> Seq<
    Seq<char>,
>
    decreases s.len(),
{
    if s.len() == 0 {
        acc.push(cur)
    } else if s[0] == sep {
        split_rec(s.drop_first(), sep, Seq::empty(), acc.push(cur))
    } else {
        split_rec(s.drop_first(), sep, cur.push(s[0]), acc)
    }
}

/// The parts of `s` between occurrences of `sep`, empty parts kept; an empty
/// `s` gives one empty part.
pub open spec fn split_on(s: Seq<char>, sep: char) -> Seq<Seq<char>> {
    split_rec(s, sep, Seq::empty(), Seq::empty())
}

/// Splits `s` on every occurrence of `sep`, keeping empty parts.
pub fn split_str(s: &str, sep: char) -> (r: Vec<String>)
    ensures
        r.deep_view() == split_on(s@, sep),
        r.len() >= 1,
{
    let n: usize = s.unicode_len();
    let mut r: Vec<String> = Vec::new();
    let mut i: usize = 0;
    let mut start: usize = 0;
    proof {
        assert(s@.skip(0) =~= s@);
        assert(s@.subrange(0, 0) =~= Seq::<char>::empty());
        assert(r.deep_view() =~~= Seq::<Seq<char>>::empty());
    }
    while i < n
        invariant
            n == s@.len(),
            start <= i <= n,
            split_rec(
                s@.skip(i as int),
                sep,
                s@.subrange(start as int, i as int),
                r.deep_view(),
            ) == split_on(s@, sep),
        decreases n - i,
    {
        let c = s.get_char(i);
        proof {
            assert(s@.skip(i as int).drop_first() =~= s@.skip(i + 1));
            assert(s@.skip(i as int)[0] == s@[i as int]);
        }
        if c == sep {
            let part = String::from_str(s.substring_char(start, i));
            let ghost prev = r.deep_view();
            r.push(part);
            proof {
                assert(r.deep_view() =~~= prev.push(s@.subrange(start as int, i as int)));
                assert(s@.subrange(i + 1, i + 1) =~= Seq::<char>::empty());
            }
            start = i + 1;
        } else {
            proof {
                assert(s@.subrange(start as int, i + 1) =~= s@.subrange(
                    start as int,
                    i as int,
                ).push(s@[i as int]));
            }
        }
        i = i + 1;
    }
    let part = String::from_str(s.substring_char(start, n));
    let ghost prev = r.deep_view();
    r.push(part);
    proof {
        assert(s@.skip(n as int) =~= Seq::<char>::empty());
        assert(r.deep_view() =~~= prev.push(s@.subrange(start as int, n as int)));
    }
    r
}

/// Folding separator-free text just extends the part being built.
proof fn lemma_split_rec_nosep(a: Seq<char>, b: Seq<char>, sep: char, cur: Seq<char>, acc: Seq<Seq<char>>)
    requires
        forall|i: int| 0 <= i < a.len() ==> a[i] != sep,
    ensures
        split_rec(a + b, sep, cur, acc) == split_rec(b, sep, cur + a, acc),
    decreases a.len(),
{
    if a.len() == 0 {
        assert(a + b =~= b);
        assert(cur + a =~= cur);
    } else {
        assert((a + b)[0] == a[0]);
        assert((a + b).drop_first() =~= a.drop_first() + b);
        lemma_split_rec_nosep(a.drop_first(), b, sep, cur.push(a[0]), acc);
        assert(cur.push(a[0]) + a.drop_first() =~= cur + a);
    }
}

/// The parts already accumulated just sit in front of the parts to come.
proof fn lemma_split_rec_acc(s: Seq<char>, sep: char, cur: Seq<char>, acc: Seq<Seq<char>>)
    ensures
        split_rec(s, sep, cur, acc) == acc + split_rec(s, sep, cur, Seq::empty()),
    decreases s.len(),
{
    if s.len() == 0 {
        assert(acc + Seq::<Seq<char>>::empty().push(cur) =~= acc.push(cur));
    } else if s[0] == sep {
        lemma_split_rec_acc(s.drop_first(), sep, Seq::empty(), acc.push(cur));
        lemma_split_rec_acc(s.drop_first(), sep, Seq::empty(), Seq::<Seq<char>>::empty().push(cur));
        assert(acc + (Seq::<Seq<char>>::empty().push(cur) + split_rec(
            s.drop_first(),
            sep,
            Seq::empty(),
            Seq::empty(),
        )) =~= acc.push(cur) + split_rec(s.drop_first(), sep, Seq::empty(), Seq::empty()));
    } else {
        lemma_split_rec_acc(s.drop_first(), sep, cur.push(s[0]), acc);
    }
}

/// Splitting text that starts with one separator-free line: the line comes
/// off whole, and the rest splits on its own.
pub proof fn lemma_split_line(l: Seq<char>, rest: Seq<char>, sep: char)
    requires
        forall|i: int| 0 <= i < l.len() ==> l[i] != sep,
    ensures
        split_on(l + seq![sep] + rest, sep) == seq![l] + split_on(rest, sep),
{
    let whole = l + seq![sep] + rest;
    assert(whole =~= l + (seq![sep] + rest));
    lemma_split_rec_nosep(l, seq![sep] + rest, sep, Seq::empty(), Seq::empty());
    assert(Seq::<char>::empty() + l =~= l);
    assert((seq![sep] + rest)[0] == sep);
    assert((seq![sep] + rest).drop_first() =~= rest);
    assert(split_rec(seq![sep] + rest, sep, l, Seq::empty()) == split_rec(
        rest,
        sep,
        Seq::empty(),
        Seq::<Seq<char>>::empty().push(l),
    ));
    lemma_split_rec_acc(rest, sep, Seq::empty(), Seq::<Seq<char>>::empty().push(l));
    assert(Seq::<Seq<char>>::empty().push(l) =~= seq![l]);
}

/// Whether every character of `t` satisfies `f`.
pub open spec fn all_chars_sat(t: Seq<char>, f: spec_fn(char) -> bool) -> bool {
    forall|i: int| 0 <= i < t.len() ==> f(t[i])
}

/// Splitting extends the accumulated parts: they stay in place, and the part
/// being built stays a prefix of the next part out.
proof fn lemma_split_rec_extends(s: Seq<char>, sep: char, cur: Seq<char>, acc: Seq<Seq<char>>)
    ensures
        split_rec(s, sep, cur, acc).len() > acc.len(),
        forall|i: int| 0 <= i < acc.len() ==> split_rec(s, sep, cur, acc)[i] == acc[i],
        has_prefix(split_rec(s, sep, cur, acc)[acc.len() as int], cur),
    decreases s.len(),
{
    if s.len() == 0 {
        assert(split_rec(s, sep, cur, acc) == acc.push(cur));
        assert(acc.push(cur)[acc.len() as int] == cur);
        assert(cur.subrange(0, cur.len() as int) =~= cur);
    } else if s[0] == sep {
        lemma_split_rec_extends(s.drop_first(), sep, Seq::empty(), acc.push(cur));
        let res = split_rec(s, sep, cur, acc);
        assert(res == split_rec(s.drop_first(), sep, Seq::empty(), acc.push(cur)));
        assert(forall|i: int| 0 <= i < acc.len() ==> acc.push(cur)[i] == acc[i]);
        assert(res[acc.len() as int] == acc.push(cur)[acc.len() as int]);
        assert(cur.subrange(0, cur.len() as int) =~= cur);
    } else {
        lemma_split_rec_extends(s.drop_first(), sep, cur.push(s[0]), acc);
        let res = split_rec(s, sep, cur, acc);
        assert(res == split_rec(s.drop_first(), sep, cur.push(s[0]), acc));
        let part = res[acc.len() as int];
        assert(has_prefix(part, cur.push(s[0])));
        assert(part.subrange(0, cur.len() as int) =~= cur) by {
            assert(forall|k: int|
                0 <= k < cur.len() ==> part[k] == part.subrange(
                    0,
                    (cur.len() + 1) as int,
                )[k] && part.subrange(0, (cur.len() + 1) as int)[k] == cur.push(s[0])[k]);
        }
    }
}

/// If every part of a split satisfies `f` character-wise, then every
/// character of the split text is the separator or satisfies `f`.
pub proof fn lemma_split_chars_sat(s: Seq<char>, sep: char, f: spec_fn(char) -> bool)
    requires
        forall|i: int|
            0 <= i < split_on(s, sep).len() ==> all_chars_sat(#[trigger] split_on(s, sep)[i], f),
    ensures
        forall|i: int| 0 <= i < s.len() ==> s[i] == sep || f(s[i]),
{
    assert forall|i: int|
        0 <= i < split_rec(s, sep, Seq::<char>::empty(), Seq::<Seq<char>>::empty()).len()
        implies all_chars_sat(
        #[trigger] split_rec(s, sep, Seq::<char>::empty(), Seq::<Seq<char>>::empty())[i],
        f,
    ) by {
        assert(split_rec(s, sep, Seq::<char>::empty(), Seq::<Seq<char>>::empty())[i] == split_on(
            s,
            sep,
        )[i]);
        assert(all_chars_sat(split_on(s, sep)[i], f));
    }
    lemma_split_rec_chars_sat(s, sep, Seq::empty(), Seq::empty(), f);
}

proof fn lemma_split_rec_chars_sat(
    s: Seq<char>,
    sep: char,
    cur: Seq<char>,
    acc: Seq<Seq<char>>,
    f: spec_fn(char) -> bool,
)
    requires
        forall|i: int|
            0 <= i < split_rec(s, sep, cur, acc).len() ==> all_chars_sat(
                #[trigger] split_rec(s, sep, cur, acc)[i],
                f,
            ),
    ensures
        forall|i: int| 0 <= i < s.len() ==> s[i] == sep || f(s[i]),
    decreases s.len(),
{
    if s.len() == 0 {
    } else if s[0] == sep {
        assert(split_rec(s, sep, cur, acc) == split_rec(
            s.drop_first(),
            sep,
            Seq::empty(),
            acc.push(cur),
        ));
        lemma_split_rec_chars_sat(s.drop_first(), sep, Seq::empty(), acc.push(cur), f);
        assert(forall|i: int| 1 <= i < s.len() ==> s[i] == s.drop_first()[i - 1]);
    } else {
        assert(split_rec(s, sep, cur, acc) == split_rec(s.drop_first(), sep, cur.push(s[0]), acc));
        lemma_split_rec_chars_sat(s.drop_first(), sep, cur.push(s[0]), acc, f);
        lemma_split_rec_extends(s.drop_first(), sep, cur.push(s[0]), acc);
        let part = split_rec(s.drop_first(), sep, cur.push(s[0]), acc)[acc.len() as int];
        assert(all_chars_sat(part, f));
        assert(part.subrange(0, (cur.len() + 1) as int)[cur.len() as int] == s[0]);
        assert(f(s[0]));
        assert(forall|i: int| 1 <= i < s.len() ==> s[i] == s.drop_first()[i - 1]);
    }
}

/// The ASCII lowercase image of one character; all others are unchanged.
pub open spec fn lower_char(c: char) -> char {
    if 'A' <= c && c <= 'Z' {
        (((c as u8) + 32) as char)
    } else {
        c
    }
}

/// The ASCII lowercase image of a character sequence.
pub open spec fn lower_seq(s: Seq<char>) -> Seq<char> {
    s.map_values(|c: char| lower_char(c))
}

/// Whether `a` and `b` are equal up to ASCII case.
pub fn eq_ignore_ascii_case(a: &str, b: &str) -> (r: bool)
    ensures
        r == (lower_seq(a@) == lower_seq(b@)),
{
    let na: usize = a.unicode_len();
    let nb: usize = b.unicode_len();
    if na != nb {
        proof {
            assert(lower_seq(a@).len() == a@.len());
            assert(lower_seq(b@).len() == b@.len());
        }
        return false;
    }
    let mut i: usize = 0;
    while i < na
        invariant
            na == a@.len() == b@.len() == nb,
            i <= na,
            forall|k: int| 0 <= k < i ==> lower_seq(a@)[k] == lower_seq(b@)[k],
        decreases na - i,
    {
        let ca = a.get_char(i);
        let cb = b.get_char(i);
        let la = if 'A' <= ca && ca <= 'Z' {
            ((ca as u8) + 32) as char
        } else {
            ca
        };
        let lb = if 'A' <= cb && cb <= 'Z' {
            ((cb as u8) + 32) as char
        } else {
            cb
        };
        if la != lb {
            proof {
                assert(lower_seq(a@)[i as int] != lower_seq(b@)[i as int]);
            }
            return false;
        }
        i = i + 1;
    }
    proof {
        assert(lower_seq(a@) =~= lower_seq(b@));
    }
    true
}

/// The tokens of `ts` joined with single spaces.
pub open spec fn join_spaced(ts: Seq<Seq<char>>) -> Seq<char>
    decreases ts.len(),
{
    if ts.len() == 0 {
        Seq::empty()
    } else if ts.len() == 1 {
        ts[0]
    } else {
        join_spaced(ts.drop_last()) + " "@ + ts.last()
    }
}

/// Joins argument tokens into one message, a single space between each.
pub fn join_tokens(args: &Vec<String>) -> (r: String)
    ensures
        r@ == join_spaced(args.deep_view()),
{
    let mut r = String::new();
    let mut i: usize = 0;
    proof {
        assert(args.deep_view().take(0) =~= Seq::<Seq<char>>::empty());
    }
    while i < args.len()
        invariant
            i <= args.len(),
            r@ == join_spaced(args.deep_view().take(i as int)),
        decreases args.len() - i,
    {
        let ghost prefix = args.deep_view().take(i as int);
        let ghost next = args.deep_view().take(i + 1);
        proof {
            assert(next.drop_last() =~= prefix);
            assert(next.last() == args.deep_view()[i as int]);
            assert(args.deep_view()[i as int] == args@[i as int]@);
        }
        if i > 0 {
            r.append(" ");
            r.append(args[i].as_str());
            proof {
                assert(r@ =~= join_spaced(prefix) + " "@ + args.deep_view()[i as int]);
            }
        } else {
            r.append(args[i].as_str());
            proof {
                assert(next =~= seq![args.deep_view()[0]]);
                assert(r@ =~= args.deep_view()[0]);
            }
        }
        i = i + 1;
    }
    proof {
        assert(args.deep_view().take(args.len() as int) =~= args.deep_view());
    }
    r
}

/// Whether `a` and `b` hold the same characters.
pub fn str_eq(a: &str, b: &str) -> (r: bool)
    ensures
        r == (a@ == b@),
{
    let na: usize = a.unicode_len();
    let nb: usize = b.unicode_len();
    if na != nb {
        return false;
    }
    let mut i: usize = 0;
    while i < na
        invariant
            na == a@.len() == b@.len() == nb,
            i <= na,
            forall|k: int| 0 <= k < i ==> a@[k] == b@[k],
        decreases na - i,
    {
        if a.get_char(i) != b.get_char(i) {
            return false;
        }
        i = i + 1;
    }
    proof {
        assert(a@ =~= b@);
    }
    true
}

/// Whether `p` is a prefix of `s`.
pub open spec fn has_prefix(s: Seq<char>, p: Seq<char>) -> bool {
    s.len() >= p.len() && s.subrange(0, p.len() as int) == p
}

/// Strips the prefix `p` from `s`, or reports that `s` does not start with it.
pub fn strip_prefix_str(s: &str, p: &str) -> (r: Option<String>)
    ensures
        r is Some <==> has_prefix(s@, p@),
        r matches Some(rest) ==> rest@ == s@.skip(p@.len() as int),
{
    let n: usize = s.unicode_len();
    let np: usize = p.unicode_len();
    if n < np {
        proof {
            assert(!has_prefix(s@, p@));
        }
        return None;
    }
    let mut i: usize = 0;
    while i < np
        invariant
            n == s@.len(),
            np == p@.len(),
            np <= n,
            i <= np,
            forall|k: int| 0 <= k < i ==> s@[k] == p@[k],
        decreases np - i,
    {
        if s.get_char(i) != p.get_char(i) {
            proof {
                assert(s@.subrange(0, np as int)[i as int] != p@[i as int]);
            }
            return None;
        }
        i = i + 1;
    }
    proof {
        assert(s@.subrange(0, np as int) =~= p@);
    }
    Some(String::from_str(s.substring_char(np, n)))
}

} // verus!
