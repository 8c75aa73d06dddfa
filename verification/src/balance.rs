//! The bracket-balance scanner: it finds the prefix of an input that ends at
//! the first unmatched closing delimiter, counting nested delimiter pairs and
//! skipping backslash-escaped characters.

use vstd::prelude::*;

use crate::chars::{count_char, lemma_count_take_step};

verus! {

/// The scan from index `i` with `depth` opened pairs outstanding: a
/// backslash makes the following character insignificant; an opening
/// delimiter deepens the nesting; a closing delimiter at depth 0 is the
/// unmatched close and its index is the answer. An exhausted input succeeds
/// with the whole length exactly when every opened pair was closed again.
pub open spec fn balance_scan(open: char, close: char, s: Seq<char>, i: int, depth: int) -> Option<
    int,
>
    decreases s.len() - i,
{
    if i < 0 || i >= s.len() {
        if depth == 0 {
            Some(s.len() as int)
        } else {
            None
        }
    } else if s[i] == '\\' {
        if i + 2 <= s.len() {
            balance_scan(open, close, s, i + 2, depth)
        } else if depth == 0 {
            Some(s.len() as int)
        } else {
            None
        }
    } else if s[i] == open {
        balance_scan(open, close, s, i + 1, depth + 1)
    } else if s[i] == close {
        if depth == 0 {
            Some(i)
        } else {
            balance_scan(open, close, s, i + 1, depth - 1)
        }
    } else {
        balance_scan(open, close, s, i + 1, depth)
    }
}

/// Where the prefix preceding the first unmatched `close` in `s` ends, or
/// `None` when the input runs out with unclosed pairs outstanding.
pub open spec fn spec_take_until_unbalanced(open: char, close: char, s: Seq<char>) -> Option<int> {
    balance_scan(open, close, s, 0, 0)
}

fn scan_exec(open: char, close: char, s: &str, k: usize, depth: usize) -> (r: Option<usize>)
    requires
        k <= s@.len(),
        depth <= k,
    ensures
        (match r {
            Some(ix) => balance_scan(open, close, s@, k as int, depth as int) == Some(ix as int)
                && ix <= s@.len(),
            None => balance_scan(open, close, s@, k as int, depth as int) is None,
        }),
    decreases s@.len() - k,
{
    let n = s.unicode_len();
    if k >= n {
        if depth == 0 {
            Some(n)
        } else {
            None
        }
    } else {
        let c = s.get_char(k);
        if c == '\\' {
            if n - k >= 2 {
                scan_exec(open, close, s, k + 2, depth)
            } else if depth == 0 {
                Some(n)
            } else {
                None
            }
        } else if c == open {
            scan_exec(open, close, s, k + 1, depth + 1)
        } else if c == close {
            if depth == 0 {
                Some(k)
            } else {
                scan_exec(open, close, s, k + 1, depth - 1)
            }
        } else {
            scan_exec(open, close, s, k + 1, depth)
        }
    }
}

proof fn lemma_balanced_scan(open: char, close: char, s: Seq<char>, i: int, depth: int)
    requires
        open != close,
        forall|j: int| 0 <= j < s.len() ==> s[j] != '\\',
        0 <= i <= s.len(),
        depth == count_char(s.take(i), open) - count_char(s.take(i), close),
        count_char(s, open) == count_char(s, close),
        forall|j: int| 0 <= j <= s.len() ==> count_char(s.take(j), close) <= count_char(
            s.take(j),
            open,
        ),
    ensures
        balance_scan(open, close, s, i, depth) == Some(s.len() as int),
    decreases s.len() - i,
{
    if i == s.len() {
        assert(s.take(s.len() as int) =~= s);
    } else {
        lemma_count_take_step(s, open, i);
        lemma_count_take_step(s, close, i);
        if s[i] == open {
            lemma_balanced_scan(open, close, s, i + 1, depth + 1);
        } else if s[i] == close {
            assert(count_char(s.take(i + 1), close) <= count_char(s.take(i + 1), open));
            lemma_balanced_scan(open, close, s, i + 1, depth - 1);
        } else {
            lemma_balanced_scan(open, close, s, i + 1, depth);
        }
    }
}

/// Law: on an escape-free input whose opening and closing delimiters occur
/// equally often and where no prefix closes more pairs than it has opened,
/// the scanner consumes the entire input and leaves nothing over. (Equal
/// counts alone are not enough: an input whose unmatched close precedes its
/// open, such as a close followed by an open, stops the scan early.)
pub proof fn lemma_balanced_identity(open: char, close: char, s: Seq<char>)
    requires
        open != close,
        forall|j: int| 0 <= j < s.len() ==> s[j] != '\\',
        count_char(s, open) == count_char(s, close),
        forall|j: int| 0 <= j <= s.len() ==> count_char(s.take(j), close) <= count_char(
            s.take(j),
            open,
        ),
    ensures
        spec_take_until_unbalanced(open, close, s) == Some(s.len() as int),
{
    assert(s.take(0) =~= Seq::<char>::empty());
    lemma_balanced_scan(open, close, s, 0, 0);
}

proof fn lemma_scan_plain(open: char, close: char, s: Seq<char>, i: int, j: int, depth: int)
    requires
        0 <= i <= j <= s.len(),
        forall|m: int| i <= m < j ==> s[m] != open && s[m] != close && s[m] != '\\',
    ensures
        balance_scan(open, close, s, i, depth) == balance_scan(open, close, s, j, depth),
    decreases j - i,
{
    if i < j {
        lemma_scan_plain(open, close, s, i + 1, j, depth);
    }
}

/// Law: a backslash immediately before a closing delimiter escapes it, so
/// that close is never the unmatched one. Around the escaped pair stand
/// arbitrary runs free of delimiters and escapes, and the unmatched close
/// that ends the scan is the first one after them, whatever follows it.
pub proof fn lemma_escape_skipping(
    open: char,
    close: char,
    a: Seq<char>,
    b: Seq<char>,
    rest: Seq<char>,
)
    requires
        open != close,
        close != '\\',
        forall|j: int| 0 <= j < a.len() ==> a[j] != open && a[j] != close && a[j] != '\\',
        forall|j: int| 0 <= j < b.len() ==> b[j] != open && b[j] != close && b[j] != '\\',
    ensures
        spec_take_until_unbalanced(open, close, a + seq!['\\', close] + b + seq![close] + rest)
            == Some(a.len() + 2int + b.len() as int),
{
    let s = a + seq!['\\', close] + b + seq![close] + rest;
    assert forall|m: int| 0 <= m < a.len() implies s[m] != open && s[m] != close && s[m]
        != '\\' by {
        assert(s[m] == a[m]);
    }
    lemma_scan_plain(open, close, s, 0, a.len() as int, 0);
    assert(s[a.len() as int] == '\\');
    assert forall|m: int|
        a.len() + 2 <= m < a.len() + 2 + b.len() implies s[m] != open && s[m] != close && s[m]
        != '\\' by {
        assert(s[m] == b[m - a.len() - 2]);
    }
    lemma_scan_plain(open, close, s, a.len() + 2int, a.len() + 2int + b.len() as int, 0);
    assert(s[a.len() + 2int + b.len() as int] == close);
}

/// The index in `i` of the first unmatched `closing_bracket`, with nested
/// pairs counted and escaped characters skipped; the whole length when the
/// input ends with no unmatched close and no pair left open; `None`
/// otherwise. The prefix before the returned index is the scanner's output,
/// and everything from the index on (including the unmatched close) is
/// leftover input.
pub fn take_until_unbalanced(opening_bracket: char, closing_bracket: char, i: &str) -> (r: Option<
    usize,
>)
    ensures
        (match r {
            Some(ix) => spec_take_until_unbalanced(opening_bracket, closing_bracket, i@) == Some(
                ix as int,
            ) && ix <= i@.len(),
            None => spec_take_until_unbalanced(opening_bracket, closing_bracket, i@) is None,
        }),
{
    scan_exec(opening_bracket, closing_bracket, i, 0, 0)
}

} // verus!
