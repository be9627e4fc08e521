//! Derivation of a sample identifier from a filename.
//!
//! A filename is split into tokens on a caller-supplied separator character
//! (empty tokens between consecutive separators are preserved), and the
//! identifier is the first `token_count` tokens re-joined with the separator.
//! Derivation demands strictly more tokens than `token_count`: the tokens
//! beyond the identifier (the read designation, the extensions) are
//! discarded, and a filename without them signals a misconfiguration.

use vstd::prelude::*;
use vstd::string::StrSliceExecFns;

use crate::matcher::chars_vec;

verus! {

/// The tokens of `s`, splitting on `sep` as a naive split does: every
/// separator ends a token, and `n` separators yield `n + 1` tokens, empty
/// ones included.
pub open spec fn split_spec(s: Seq<char>, sep: char) -> Seq<Seq<char>>
    decreases s.len(),
{
    if s.len() == 0 {
        seq![Seq::<char>::empty()]
    } else if s[0] == sep {
        seq![Seq::<char>::empty()] + split_spec(s.drop_first(), sep)
    } else {
        let rest = split_spec(s.drop_first(), sep);
        seq![seq![s[0]] + rest[0]] + rest.drop_first()
    }
}

/// The first `n` tokens of `parts`, re-joined with `sep` between them and
/// no separator at either end. Meaningful for `1 <= n <= parts.len()`.
pub open spec fn join_first(parts: Seq<Seq<char>>, sep: char, n: int) -> Seq<char>
    decreases n,
{
    if n <= 1 {
        parts[0]
    } else {
        join_first(parts, sep, n - 1) + seq![sep] + parts[n - 1]
    }
}

/// How many times `sep` occurs in `s`.
pub open spec fn count_sep(s: Seq<char>, sep: char) -> nat
    decreases s.len(),
{
    if s.len() == 0 {
        0
    } else if s[0] == sep {
        count_sep(s.drop_first(), sep) + 1
    } else {
        count_sep(s.drop_first(), sep)
    }
}

/// Splitting yields one token more than there are separators.
pub proof fn lemma_split_len(s: Seq<char>, sep: char)
    ensures
        split_spec(s, sep).len() == count_sep(s, sep) + 1,
    decreases s.len(),
{
    if s.len() == 0 {
    } else {
        lemma_split_len(s.drop_first(), sep);
    }
}

/// Appending one character adds one separator occurrence or none.
pub proof fn lemma_count_push(s: Seq<char>, sep: char, c: char)
    ensures
        count_sep(s.push(c), sep) == count_sep(s, sep) + if c == sep {
            1int
        } else {
            0int
        },
    decreases s.len(),
{
    if s.len() == 0 {
        assert(s.push(c).drop_first() =~= s);
    } else {
        assert(s.push(c).drop_first() =~= s.drop_first().push(c));
        lemma_count_push(s.drop_first(), sep, c);
    }
}

/// Separator occurrences add up across a cut of the string.
pub proof fn lemma_count_split_at(s: Seq<char>, sep: char, i: int)
    requires
        0 <= i <= s.len(),
    ensures
        count_sep(s, sep) == count_sep(s.subrange(0, i), sep) + count_sep(
            s.subrange(i, s.len() as int),
            sep,
        ),
    decreases s.len(),
{
    if i == 0 {
        assert(s.subrange(0, 0) =~= Seq::<char>::empty());
        assert(s.subrange(0, s.len() as int) =~= s);
    } else {
        let rest = s.drop_first();
        lemma_count_split_at(rest, sep, i - 1);
        assert(s.subrange(0, i).drop_first() =~= rest.subrange(0, i - 1));
        assert(s.subrange(i, s.len() as int) =~= rest.subrange(i - 1, rest.len() as int));
        assert(s.subrange(0, i).len() > 0);
        assert(s.subrange(0, i)[0] == s[0]);
    }
}

/// Joining one more token than `parts` starts with peels the head token:
/// the head, a separator, then the join of the tail.
proof fn lemma_join_cons(t: Seq<char>, tail: Seq<Seq<char>>, sep: char, n: int)
    requires
        2 <= n <= tail.len() + 1,
    ensures
        join_first(seq![t] + tail, sep, n) == t + seq![sep] + join_first(tail, sep, n - 1),
    decreases n,
{
    let parts = seq![t] + tail;
    assert(parts[0] == t);
    if n == 2 {
        assert(parts[1] == tail[0]);
        assert(join_first(parts, sep, 1) == parts[0]);
        assert(join_first(tail, sep, 1) == tail[0]);
        assert(join_first(parts, sep, 2) == parts[0] + seq![sep] + parts[1]);
    } else {
        lemma_join_cons(t, tail, sep, n - 1);
        assert(parts[n - 1] == tail[n - 2]);
        assert((t + seq![sep] + join_first(tail, sep, n - 2)) + seq![sep] + tail[n - 2] =~= t
            + seq![sep] + (join_first(tail, sep, n - 2) + seq![sep] + tail[n - 2]));
    }
}

/// Prepending a character to the head token prepends it to the join.
proof fn lemma_join_prepend_head(c: char, parts: Seq<Seq<char>>, sep: char, n: int)
    requires
        1 <= n <= parts.len(),
        parts.len() >= 1,
    ensures
        join_first(seq![seq![c] + parts[0]] + parts.drop_first(), sep, n) == seq![c] + join_first(
            parts,
            sep,
            n,
        ),
    decreases n,
{
    let grown = seq![seq![c] + parts[0]] + parts.drop_first();
    assert(grown[0] == seq![c] + parts[0]);
    if n == 1 {
    } else {
        lemma_join_prepend_head(c, parts, sep, n - 1);
        assert(grown[n - 1] == parts.drop_first()[n - 2]);
        assert(parts.drop_first()[n - 2] == parts[n - 1]);
        assert((seq![c] + join_first(parts, sep, n - 1)) + seq![sep] + parts[n - 1] =~= seq![c] + (
        join_first(parts, sep, n - 1) + seq![sep] + parts[n - 1]));
    }
}

/// The join of the first `n` tokens is the prefix of `s` that ends just
/// before the `n`-th separator occurrence (`p` is that occurrence's index:
/// a separator with exactly `n - 1` separators before it).
pub proof fn lemma_join_eq_prefix(s: Seq<char>, sep: char, n: int, p: int)
    requires
        1 <= n,
        0 <= p < s.len(),
        s[p] == sep,
        count_sep(s.subrange(0, p), sep) == n - 1,
    ensures
        join_first(split_spec(s, sep), sep, n) == s.subrange(0, p),
    decreases s.len(),
{
    lemma_split_len(s, sep);
    if p == 0 {
        assert(s.subrange(0, 0) =~= Seq::<char>::empty());
        assert(count_sep(s.subrange(0, 0), sep) == 0);
        assert(n == 1);
        assert(join_first(split_spec(s, sep), sep, 1) == split_spec(s, sep)[0]);
        assert(split_spec(s, sep)[0] =~= Seq::<char>::empty());
    } else {
        let rest = s.drop_first();
        let pre = s.subrange(0, p);
        assert(pre.len() > 0);
        assert(pre[0] == s[0]);
        assert(pre.drop_first() =~= rest.subrange(0, p - 1));
        assert(rest[p - 1] == s[p]);
        lemma_split_len(rest, sep);
        // The n-th separator of `s` lies in `rest`, so `rest` splits into
        // enough tokens for the inner join.
        lemma_count_split_at(rest, sep, p - 1);
        assert(rest.subrange(p - 1, rest.len() as int).len() > 0);
        assert(rest.subrange(p - 1, rest.len() as int)[0] == sep);
        assert(count_sep(rest.subrange(p - 1, rest.len() as int), sep) >= 1);
        if s[0] == sep {
            assert(count_sep(pre, sep) == count_sep(pre.drop_first(), sep) + 1);
            assert(count_sep(rest.subrange(0, p - 1), sep) == n - 2);
            assert(n >= 2);
            lemma_join_eq_prefix(rest, sep, n - 1, p - 1);
            let tail = split_spec(rest, sep);
            assert(split_spec(s, sep) == seq![Seq::<char>::empty()] + tail);
            assert(count_sep(rest, sep) >= n - 1);
            lemma_join_cons(Seq::<char>::empty(), tail, sep, n);
            assert(Seq::<char>::empty() + seq![sep] + rest.subrange(0, p - 1) =~= s.subrange(0, p));
        } else {
            assert(count_sep(pre, sep) == count_sep(pre.drop_first(), sep));
            assert(count_sep(rest.subrange(0, p - 1), sep) == n - 1);
            lemma_join_eq_prefix(rest, sep, n, p - 1);
            let tail = split_spec(rest, sep);
            assert(split_spec(s, sep) == seq![seq![s[0]] + tail[0]] + tail.drop_first());
            assert(count_sep(rest, sep) >= n);
            assert(tail.len() >= n + 1);
            lemma_join_prepend_head(s[0], tail, sep, n);
            assert(seq![s[0]] + rest.subrange(0, p - 1) =~= s.subrange(0, p));
        }
    }
}

/// Identifier derivation is a pure function of its inputs: any two
/// identifiers derived from the same filename, separator and token count
/// are the same string, so re-deriving is idempotent.
pub proof fn lemma_derivation_deterministic(
    s: Seq<char>,
    sep: char,
    n: int,
    id1: Seq<char>,
    id2: Seq<char>,
)
    requires
        id1 == join_first(split_spec(s, sep), sep, n),
        id2 == join_first(split_spec(s, sep), sep, n),
    ensures
        id1 == id2,
{
}

/// Derives the sample identifier: the first `len` separator-delimited
/// tokens of `names`, re-joined with `sep`. The filename must split into
/// strictly more than `len` tokens; a caller that cannot guarantee that
/// uses `build_id_checked`.
pub fn build_id(names: &str, sep: char, len: usize) -> (id: String)
    requires
        len >= 1,
        split_spec(names@, sep).len() > len as int,
    ensures
        id@ == join_first(split_spec(names@, sep), sep, len as int),
{
    let ghost s = names@;
    proof {
        lemma_split_len(s, sep);
    }
    let v = chars_vec(names);
    let n = v.len();
    let mut i: usize = 0;
    let mut seen: usize = 0;
    // Walk to the `len`-th separator occurrence; the identifier is the
    // prefix before it.
    loop
        invariant
            i <= n,
            seen < len,
            n == s.len(),
            s == names@,
            v@ == s,
            len >= 1,
            count_sep(s, sep) >= len,
            count_sep(s.subrange(0, i as int), sep) == seen,
        ensures
            i < n,
            s[i as int] == sep,
            count_sep(s.subrange(0, i as int), sep) == len - 1,
        decreases n - i,
    {
        proof {
            if i == n {
                assert(s.subrange(0, n as int) =~= s);
                assert(false);
            }
        }
        let c = v[i];
        proof {
            assert(s.subrange(0, i as int).push(s[i as int]) =~= s.subrange(0, i as int + 1));
            lemma_count_push(s.subrange(0, i as int), sep, s[i as int]);
        }
        if c == sep {
            if seen + 1 == len {
                break ;
            }
            seen += 1;
        }
        i += 1;
    }
    let prefix = names.substring_char(0, i);
    let id = prefix.to_owned();
    proof {
        lemma_join_eq_prefix(s, sep, len as int, i as int);
    }
    id
}

/// Derives the sample identifier where the filename splits into strictly
/// more than `len` tokens, and reports the precondition violation as
/// `None` instead of failing: the caller decides whether that aborts the
/// whole scan.
pub fn build_id_checked(names: &str, sep: char, len: usize) -> (r: Option<String>)
    requires
        len >= 1,
    ensures
        match r {
            Some(id) => split_spec(names@, sep).len() > len as int && id@ == join_first(
                split_spec(names@, sep),
                sep,
                len as int,
            ),
            None => split_spec(names@, sep).len() <= len as int,
        },
{
    let ghost s = names@;
    proof {
        lemma_split_len(s, sep);
    }
    let v = chars_vec(names);
    let n = v.len();
    let mut i: usize = 0;
    let mut cnt: usize = 0;
    while i < n
        invariant
            i <= n,
            n == s.len(),
            v@ == s,
            cnt <= i,
            count_sep(s.subrange(0, i as int), sep) == cnt,
        decreases n - i,
    {
        proof {
            assert(s.subrange(0, i as int).push(s[i as int]) =~= s.subrange(0, i as int + 1));
            lemma_count_push(s.subrange(0, i as int), sep, s[i as int]);
        }
        if v[i] == sep {
            cnt += 1;
        }
        i += 1;
    }
    proof {
        assert(s.subrange(0, n as int) =~= s);
    }
    if cnt >= len {
        Some(build_id(names, sep, len))
    } else {
        None
    }
}

} // verus!
