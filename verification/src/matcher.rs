//! Recognition of sequencing-read filenames.
//!
//! A filename is recognized when it contains, anywhere, a run made of: a
//! separator (`_` or `-`), a lane word (`lane` or `l`, case-insensitive)
//! followed by exactly three decimal digits, another separator (`_` or `-`),
//! and a read word (`read` or `r`, case-insensitive) followed by exactly one
//! decimal digit; and when the literal substring `gz` occurs at or after the
//! end of that run. (`gzip` begins with `gz`, so filenames naming either
//! archive form are recognized alike.)

use vstd::prelude::*;
use vstd::string::StrSliceExecFns;

verus! {

/// A run separator: underscore or hyphen.
pub open spec fn is_sep_char(c: char) -> bool {
    c == '_' || c == '-'
}

/// An ASCII decimal digit.
pub open spec fn is_digit_char(c: char) -> bool {
    ('0' as u32) <= (c as u32) && (c as u32) <= ('9' as u32)
}

/// Case-insensitive comparison against one ASCII letter.
pub open spec fn eq_ci(c: char, lo: char, up: char) -> bool {
    c == lo || c == up
}

/// Length in characters of a lane or read word: the long form (`lane`,
/// `read`) or the one-letter abbreviation (`l`, `r`).
pub open spec fn word_len(long: bool) -> int {
    if long {
        4
    } else {
        1
    }
}

/// The lane word starts at index `i`: `lane` (long) or `l` (short),
/// case-insensitive.
pub open spec fn lane_word_at(s: Seq<char>, i: int, long: bool) -> bool {
    if long {
        &&& i + 4 <= s.len()
        &&& eq_ci(s[i], 'l', 'L')
        &&& eq_ci(s[i + 1], 'a', 'A')
        &&& eq_ci(s[i + 2], 'n', 'N')
        &&& eq_ci(s[i + 3], 'e', 'E')
    } else {
        &&& i + 1 <= s.len()
        &&& eq_ci(s[i], 'l', 'L')
    }
}

/// The read word starts at index `i`: `read` (long) or `r` (short),
/// case-insensitive.
pub open spec fn read_word_at(s: Seq<char>, i: int, long: bool) -> bool {
    if long {
        &&& i + 4 <= s.len()
        &&& eq_ci(s[i], 'r', 'R')
        &&& eq_ci(s[i + 1], 'e', 'E')
        &&& eq_ci(s[i + 2], 'a', 'A')
        &&& eq_ci(s[i + 3], 'd', 'D')
    } else {
        &&& i + 1 <= s.len()
        &&& eq_ci(s[i], 'r', 'R')
    }
}

/// Index one past the last character of a run starting at `i`: separator,
/// lane word, three digits, separator, read word, one digit.
pub open spec fn run_end(i: int, lane_long: bool, read_long: bool) -> int {
    i + 6 + word_len(lane_long) + word_len(read_long)
}

/// A full lane/read run occupies `[i, run_end(i, lane_long, read_long))`.
pub open spec fn run_at(s: Seq<char>, i: int, lane_long: bool, read_long: bool) -> bool {
    let lane_start = i + 1;
    let digits_start = lane_start + word_len(lane_long);
    let sep2 = digits_start + 3;
    let read_start = sep2 + 1;
    let read_digit = read_start + word_len(read_long);
    &&& 0 <= i
    &&& run_end(i, lane_long, read_long) <= s.len()
    &&& is_sep_char(s[i])
    &&& lane_word_at(s, lane_start, lane_long)
    &&& is_digit_char(s[digits_start])
    &&& is_digit_char(s[digits_start + 1])
    &&& is_digit_char(s[digits_start + 2])
    &&& is_sep_char(s[sep2])
    &&& read_word_at(s, read_start, read_long)
    &&& is_digit_char(s[read_digit])
}

/// The literal substring `gz` starts at index `j`.
pub open spec fn gz_at(s: Seq<char>, j: int) -> bool {
    &&& 0 <= j
    &&& j + 2 <= s.len()
    &&& s[j] == 'g'
    &&& s[j + 1] == 'z'
}

/// The filename contains a lane/read run and, at or after the run's end,
/// the substring `gz`.
pub open spec fn matches_spec(s: Seq<char>) -> bool {
    exists|i: int, lane_long: bool, read_long: bool, j: int|
        #![trigger run_at(s, i, lane_long, read_long), gz_at(s, j)]
        run_at(s, i, lane_long, read_long) && gz_at(s, j) && run_end(i, lane_long, read_long) <= j
}

/// A filename holding a run and a later `gz` is recognized.
pub proof fn lemma_run_and_gz_match(s: Seq<char>, i: int, lane_long: bool, read_long: bool, j: int)
    requires
        run_at(s, i, lane_long, read_long),
        gz_at(s, j),
        run_end(i, lane_long, read_long) <= j,
    ensures
        matches_spec(s),
{
}

/// A filename with no lane/read run is never recognized, wherever `gz`
/// occurs in it.
pub proof fn lemma_no_run_no_match(s: Seq<char>)
    requires
        forall|i: int, lane_long: bool, read_long: bool| !run_at(s, i, lane_long, read_long),
    ensures
        !matches_spec(s),
{
}

/// The characters of `s`, in order, as a vector.
pub(crate) fn chars_vec(s: &str) -> (v: Vec<char>)
    ensures
        v@ == s@,
{
    let n = s.unicode_len();
    let mut v: Vec<char> = Vec::new();
    let mut i: usize = 0;
    while i < n
        invariant
            i <= n,
            n == s@.len(),
            v@ == s@.subrange(0, i as int),
        decreases n - i,
    {
        v.push(s.get_char(i));
        i += 1;
        proof {
            assert(v@ =~= s@.subrange(0, i as int));
        }
    }
    proof {
        assert(v@ =~= s@);
    }
    v
}

/// Whether a full run with the given word forms occupies `[i, ...)` of `v`.
fn run_at_exec(v: &Vec<char>, i: usize, lane_long: bool, read_long: bool) -> (b: bool)
    ensures
        b == run_at(v@, i as int, lane_long, read_long),
{
    let n = v.len();
    let lw: usize = if lane_long {
        4
    } else {
        1
    };
    let rw: usize = if read_long {
        4
    } else {
        1
    };
    let needed: usize = 6 + lw + rw;
    if n < needed || i > n - needed {
        return false;
    }
    let lane_start = i + 1;
    let digits_start = lane_start + lw;
    let sep2 = digits_start + 3;
    let read_start = sep2 + 1;
    let read_digit = read_start + rw;
    let sep1_ok = v[i] == '_' || v[i] == '-';
    let lane_ok = if lane_long {
        (v[lane_start] == 'l' || v[lane_start] == 'L') && (v[lane_start + 1] == 'a' || v[lane_start
            + 1] == 'A') && (v[lane_start + 2] == 'n' || v[lane_start + 2] == 'N') && (v[lane_start
            + 3] == 'e' || v[lane_start + 3] == 'E')
    } else {
        v[lane_start] == 'l' || v[lane_start] == 'L'
    };
    let digits_ok = is_digit_exec(v[digits_start]) && is_digit_exec(v[digits_start + 1])
        && is_digit_exec(v[digits_start + 2]);
    let sep2_ok = v[sep2] == '_' || v[sep2] == '-';
    let read_ok = if read_long {
        (v[read_start] == 'r' || v[read_start] == 'R') && (v[read_start + 1] == 'e' || v[read_start
            + 1] == 'E') && (v[read_start + 2] == 'a' || v[read_start + 2] == 'A') && (v[read_start
            + 3] == 'd' || v[read_start + 3] == 'D')
    } else {
        v[read_start] == 'r' || v[read_start] == 'R'
    };
    let digit_ok = is_digit_exec(v[read_digit]);
    sep1_ok && lane_ok && digits_ok && sep2_ok && read_ok && digit_ok
}

/// Whether `c` is an ASCII decimal digit.
fn is_digit_exec(c: char) -> (b: bool)
    ensures
        b == is_digit_char(c),
{
    let u = c as u32;
    ('0' as u32) <= u && u <= ('9' as u32)
}

/// Decides whether a filename denotes a sequencing read following the
/// lane/read convention, exactly as `matches_spec` states it.
pub fn matches_filename(fname: &str) -> (r: bool)
    ensures
        r == matches_spec(fname@),
{
    let v = chars_vec(fname);
    let ghost s = fname@;
    let n = v.len();

    // Last occurrence of the substring `gz`, if any.
    let mut last_gz: Option<usize> = None;
    let mut j: usize = 0;
    while j < n
        invariant
            j <= n,
            n == s.len(),
            v@ == s,
            match last_gz {
                None => forall|k: int| k < j ==> !gz_at(s, k),
                Some(p) => gz_at(s, p as int) && (p as int) < j && forall|k: int|
                    p < k < j ==> !gz_at(s, k),
            },
        decreases n - j,
    {
        if j + 1 < n && v[j] == 'g' && v[j + 1] == 'z' {
            last_gz = Some(j);
        }
        j += 1;
    }

    let p: usize = match last_gz {
        None => {
            proof {
                assert forall|k: int| !gz_at(s, k) by {
                    if 0 <= k < n {
                        assert(!gz_at(s, k));
                    }
                }
                assert(!matches_spec(s));
            }
            return false;
        },
        Some(p) => p,
    };
    proof {
        assert forall|k: int| k > p implies !gz_at(s, k) by {
            if p < k < n {
                assert(!gz_at(s, k));
            }
        }
    }

    let mut i: usize = 0;
    while i < n
        invariant
            i <= n,
            n == s.len(),
            s == fname@,
            v@ == s,
            gz_at(s, p as int),
            forall|k: int| k > p ==> !gz_at(s, k),
            forall|i2: int, ll: bool, rl: bool|
                i2 < i ==> !(run_at(s, i2, ll, rl) && run_end(i2, ll, rl) <= p),
        decreases n - i,
    {
        if run_at_exec(&v, i, false, false) && i + 8 <= p {
            proof {
                lemma_run_and_gz_match(s, i as int, false, false, p as int);
            }
            return true;
        } else if run_at_exec(&v, i, false, true) && i + 11 <= p {
            proof {
                lemma_run_and_gz_match(s, i as int, false, true, p as int);
            }
            return true;
        } else if run_at_exec(&v, i, true, false) && i + 11 <= p {
            proof {
                lemma_run_and_gz_match(s, i as int, true, false, p as int);
            }
            return true;
        } else if run_at_exec(&v, i, true, true) && i + 14 <= p {
            proof {
                lemma_run_and_gz_match(s, i as int, true, true, p as int);
            }
            return true;
        }
        proof {
            assert forall|ll: bool, rl: bool| !(run_at(s, i as int, ll, rl) && run_end(
                i as int,
                ll,
                rl,
            ) <= p) by {
                assert(run_end(i as int, false, false) == i + 8);
                assert(run_end(i as int, false, true) == i + 11);
                assert(run_end(i as int, true, false) == i + 11);
                assert(run_end(i as int, true, true) == i + 14);
            }
        }
        i += 1;
    }
    proof {
        assert forall|i2: int, ll: bool, rl: bool, j2: int| !(run_at(s, i2, ll, rl) && gz_at(
            s,
            j2,
        ) && run_end(i2, ll, rl) <= j2) by {
            if run_at(s, i2, ll, rl) && gz_at(s, j2) && run_end(i2, ll, rl) <= j2 {
                assert(j2 <= p);
                assert(i2 < n);
                assert(false);
            }
        }
        assert(!matches_spec(s));
    }
    false
}

} // verus!
