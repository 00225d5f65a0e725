//! Text helpers for the commit list: the canonical one-line summary of a
//! commit message — its first line, trimmed, shortened with an ellipsis when
//! it runs past fifty characters.

use vstd::prelude::*;

verus! {

/// The whitespace recognised when trimming a summary line.
pub open spec fn is_space_char(c: char) -> bool {
    c == ' ' || c == '\t' || c == '\r' || c == '\n'
}

/// The prefix of `s` before its first newline (all of `s` when it has none).
pub open spec fn first_line_of(s: Seq<char>) -> Seq<char>
    decreases s.len(),
{
    if s.len() == 0 {
        Seq::empty()
    } else if s.first() == '\n' {
        Seq::empty()
    } else {
        seq![s.first()] + first_line_of(s.drop_first())
    }
}

/// `s` without its leading whitespace.
pub open spec fn trim_front(s: Seq<char>) -> Seq<char>
    decreases s.len(),
{
    if s.len() > 0 && is_space_char(s.first()) {
        trim_front(s.drop_first())
    } else {
        s
    }
}

/// `s` without its trailing whitespace.
pub open spec fn trim_back(s: Seq<char>) -> Seq<char>
    decreases s.len(),
{
    if s.len() > 0 && is_space_char(s.last()) {
        trim_back(s.drop_last())
    } else {
        s
    }
}

/// `s` without leading and trailing whitespace.
pub open spec fn trimmed(s: Seq<char>) -> Seq<char> {
    trim_back(trim_front(s))
}

/// The one-line preview of a commit message: first line, trimmed, and cut to
/// 47 characters plus an ellipsis when longer than 50.
pub open spec fn summary_spec(message: Seq<char>) -> Seq<char> {
    let line = trimmed(first_line_of(message));
    if line.len() > 50 {
        line.take(47) + "..."@
    } else {
        line
    }
}

proof fn lemma_first_line(s: Seq<char>, k: int)
    requires
        0 <= k <= s.len(),
        forall|j: int| 0 <= j < k ==> s[j] != '\n',
        k < s.len() ==> s[k] == '\n',
    ensures
        first_line_of(s) == s.subrange(0, k),
    decreases s.len(),
{
    if k == 0 {
        assert(s.subrange(0, 0) =~= Seq::empty());
    } else {
        lemma_first_line(s.drop_first(), k - 1);
        assert(seq![s.first()] + s.drop_first().subrange(0, k - 1) =~= s.subrange(0, k));
    }
}

proof fn lemma_trim_front(s: Seq<char>, lo: int)
    requires
        0 <= lo <= s.len(),
        forall|j: int| 0 <= j < lo ==> is_space_char(s[j]),
        lo < s.len() ==> !is_space_char(s[lo]),
    ensures
        trim_front(s) == s.subrange(lo, s.len() as int),
    decreases s.len(),
{
    if lo == 0 {
        assert(s.subrange(0, s.len() as int) =~= s);
    } else {
        lemma_trim_front(s.drop_first(), lo - 1);
        assert(s.drop_first().subrange(lo - 1, s.drop_first().len() as int) =~= s.subrange(
            lo,
            s.len() as int,
        ));
    }
}

proof fn lemma_trim_back(s: Seq<char>, hi: int)
    requires
        0 <= hi <= s.len(),
        forall|j: int| hi <= j < s.len() ==> is_space_char(s[j]),
        hi > 0 ==> !is_space_char(s[hi - 1]),
    ensures
        trim_back(s) == s.subrange(0, hi),
    decreases s.len(),
{
    if hi == s.len() {
        assert(s.subrange(0, hi) =~= s);
    } else {
        lemma_trim_back(s.drop_last(), hi);
        assert(s.drop_last().subrange(0, hi) =~= s.subrange(0, hi));
    }
}

/// The one-line preview shown for a commit message.
pub fn summary_line(message: &str) -> (r: String)
    ensures
        r@ == summary_spec(message@),
{
    let n = message.unicode_len();
    let mut k: usize = 0;
    while k < n && message.get_char(k) != '\n'
        invariant
            k <= n,
            n == message@.len(),
            forall|j: int| 0 <= j < k ==> message@[j] != '\n',
        decreases n - k,
    {
        k += 1;
    }
    let line = message.substring_char(0, k);
    proof {
        lemma_first_line(message@, k as int);
    }
    let mut lo: usize = 0;
    while lo < k && is_space(line.get_char(lo))
        invariant
            lo <= k,
            k == line@.len(),
            forall|j: int| 0 <= j < lo ==> is_space_char(line@[j]),
        decreases k - lo,
    {
        lo += 1;
    }
    let mut hi: usize = k;
    while hi > lo && is_space(line.get_char(hi - 1))
        invariant
            lo <= hi <= k,
            k == line@.len(),
            forall|j: int| hi <= j < k ==> is_space_char(line@[j]),
        decreases hi,
    {
        hi -= 1;
    }
    let core = line.substring_char(lo, hi);
    proof {
        lemma_trim_front(line@, lo as int);
        if hi == lo {
            lemma_trim_back(line@.subrange(lo as int, k as int), 0);
        } else {
            lemma_trim_back(line@.subrange(lo as int, k as int), hi - lo);
        }
        assert(line@.subrange(lo as int, k as int).subrange(0, hi - lo) =~= line@.subrange(
            lo as int,
            hi as int,
        ));
        assert(trimmed(first_line_of(message@)) == core@);
    }
    let m = hi - lo;
    if m > 50 {
        let mut s = String::from_str(core.substring_char(0, 47));
        s.append("...");
        proof {
            assert(core@.subrange(0, 47) =~= core@.take(47));
        }
        s
    } else {
        String::from_str(core)
    }
}

/// Whether `c` counts as whitespace for trimming.
fn is_space(c: char) -> (r: bool)
    ensures
        r == is_space_char(c),
{
    c == ' ' || c == '\t' || c == '\r' || c == '\n'
}

} // verus!
