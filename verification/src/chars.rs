//! Character classes and low-level text scanning shared by every recognizer:
//! prefix runs of a class, substring search, and whitespace trimming. Each
//! executable routine returns exactly what its spec counterpart computes.

use vstd::prelude::*;

verus! {

/// The Unicode `White_Space` code points.
pub open spec fn is_ws(c: char) -> bool {
    ||| c == '\u{9}'
    ||| c == '\u{A}'
    ||| c == '\u{B}'
    ||| c == '\u{C}'
    ||| c == '\u{D}'
    ||| c == ' '
    ||| c == '\u{85}'
    ||| c == '\u{A0}'
    ||| c == '\u{1680}'
    ||| ('\u{2000}' <= c && c <= '\u{200A}')
    ||| c == '\u{2028}'
    ||| c == '\u{2029}'
    ||| c == '\u{202F}'
    ||| c == '\u{205F}'
    ||| c == '\u{3000}'
}

/// The four ASCII whitespace characters that separate grammar tokens
/// (space, tab, carriage return, line feed).
pub open spec fn is_multispace(c: char) -> bool {
    c == ' ' || c == '\t' || c == '\r' || c == '\n'
}

/// A character that may stand inside a word: not whitespace, and its low
/// byte is not the line-feed byte (so characters such as U+010A are also
/// excluded, matching the byte-level newline test the grammar uses).
pub open spec fn nonws_char(c: char) -> bool {
    !is_ws(c) && (c as u32) % 256 != 10
}

/// A word character: a non-whitespace character other than a comma.
pub open spec fn word_char(c: char) -> bool {
    nonws_char(c) && c != ','
}

/// The character classes whose prefix runs the grammar measures.
#[derive(Clone, Copy, Debug)]
pub enum CharClass {
    /// Unicode whitespace.
    Whitespace,
    /// The four ASCII token separators.
    Multispace,
    /// Word characters.
    Word,
    /// Characters allowed in an attribute name in the dialect that trims
    /// names: word characters other than a colon.
    AttrName,
    /// Characters allowed in an attribute name in the dialect that keeps
    /// names verbatim: anything but a colon or a backtick.
    RoamAttrName,
    /// Anything but a backtick.
    NonBacktick,
}

pub open spec fn in_class(cl: CharClass, c: char) -> bool {
    match cl {
        CharClass::Whitespace => is_ws(c),
        CharClass::Multispace => is_multispace(c),
        CharClass::Word => word_char(c),
        CharClass::AttrName => word_char(c) && c != ':',
        CharClass::RoamAttrName => c != ':' && c != '`',
        CharClass::NonBacktick => c != '`',
    }
}

/// The end of the run of class `cl` that starts at `i`: the first index at
/// or after `i` holding a character outside the class, or the length of `s`.
pub open spec fn class_run(cl: CharClass, s: Seq<char>, i: int) -> int
    decreases s.len() - i,
{
    if i < 0 || i >= s.len() || !in_class(cl, s[i]) {
        i
    } else {
        class_run(cl, s, i + 1)
    }
}

/// How many times `c` occurs in `s`.
pub open spec fn count_char(s: Seq<char>, c: char) -> int
    decreases s.len(),
{
    if s.len() == 0 {
        0
    } else {
        count_char(s.drop_last(), c) + if s.last() == c {
            1int
        } else {
            0int
        }
    }
}

pub proof fn lemma_count_take_step(s: Seq<char>, c: char, i: int)
    requires
        0 <= i < s.len(),
    ensures
        count_char(s.take(i + 1), c) == count_char(s.take(i), c) + (if s[i] == c {
            1int
        } else {
            0int
        }),
{
    assert(s.take(i + 1).drop_last() =~= s.take(i));
    assert(s.take(i + 1).last() == s[i]);
}

/// Whether `t` occurs in `s` starting at index `i`.
pub open spec fn has_prefix_at(s: Seq<char>, t: Seq<char>, i: int) -> bool {
    0 <= i && i + t.len() <= s.len() && s.subrange(i, i + t.len()) == t
}

/// The first index at or after `i` where `t` occurs in `s`.
pub open spec fn find_at(s: Seq<char>, t: Seq<char>, i: int) -> Option<int>
    decreases s.len() - i + 1,
{
    if i < 0 || i + t.len() > s.len() {
        None
    } else if has_prefix_at(s, t, i) {
        Some(i)
    } else {
        find_at(s, t, i + 1)
    }
}

pub proof fn lemma_find_at_bounds(s: Seq<char>, t: Seq<char>, i: int)
    requires
        0 <= i,
        find_at(s, t, i) is Some,
    ensures
        i <= find_at(s, t, i)->Some_0,
        find_at(s, t, i)->Some_0 + t.len() <= s.len(),
    decreases s.len() - i + 1,
{
    if i + t.len() <= s.len() && !has_prefix_at(s, t, i) {
        lemma_find_at_bounds(s, t, i + 1);
    }
}

pub proof fn lemma_find_at_hit(s: Seq<char>, t: Seq<char>, i: int)
    requires
        0 <= i,
        find_at(s, t, i) is Some,
    ensures
        has_prefix_at(s, t, find_at(s, t, i)->Some_0),
    decreases s.len() - i + 1,
{
    if i + t.len() <= s.len() && !has_prefix_at(s, t, i) {
        lemma_find_at_hit(s, t, i + 1);
    }
}

pub proof fn lemma_find_at_first(s: Seq<char>, t: Seq<char>, i: int, j: int)
    requires
        0 <= i <= j,
        has_prefix_at(s, t, j),
        forall|m: int| i <= m < j ==> !has_prefix_at(s, t, m),
    ensures
        find_at(s, t, i) == Some(j),
    decreases j - i,
{
    if i < j {
        lemma_find_at_first(s, t, i + 1, j);
    }
}

/// The start of the run of whitespace that ends just before `j`: the
/// smallest index `b <= j` such that everything in `[b, j)` is whitespace
/// and either `b == 0` or `s[b - 1]` is not whitespace.
pub open spec fn ws_end(s: Seq<char>, j: int) -> int
    decreases j,
{
    if j <= 0 || j > s.len() || !is_ws(s[j - 1]) {
        j
    } else {
        ws_end(s, j - 1)
    }
}

/// `s` with leading and trailing Unicode whitespace removed.
pub open spec fn spec_trim(s: Seq<char>) -> Seq<char> {
    let a = class_run(CharClass::Whitespace, s, 0);
    let b = ws_end(s, s.len() as int);
    if a <= b {
        s.subrange(a, b)
    } else {
        Seq::empty()
    }
}

/// Executable Unicode whitespace test.
pub fn is_ws_char(c: char) -> (r: bool)
    ensures
        r == is_ws(c),
{
    c == '\u{9}' || c == '\u{A}' || c == '\u{B}' || c == '\u{C}' || c == '\u{D}' || c == ' '
        || c == '\u{85}' || c == '\u{A0}' || c == '\u{1680}' || ('\u{2000}' <= c && c
        <= '\u{200A}') || c == '\u{2028}' || c == '\u{2029}' || c == '\u{202F}' || c == '\u{205F}'
        || c == '\u{3000}'
}

/// Executable membership test for a character class.
pub fn class_contains(cl: CharClass, c: char) -> (r: bool)
    ensures
        r == in_class(cl, c),
{
    match cl {
        CharClass::Whitespace => is_ws_char(c),
        CharClass::Multispace => c == ' ' || c == '\t' || c == '\r' || c == '\n',
        CharClass::Word => !is_ws_char(c) && (c as u32) % 256 != 10 && c != ',',
        CharClass::AttrName => !is_ws_char(c) && (c as u32) % 256 != 10 && c != ',' && c != ':',
        CharClass::RoamAttrName => c != ':' && c != '`',
        CharClass::NonBacktick => c != '`',
    }
}

/// Executable prefix run of a class, starting at `i`.
pub fn run_end(cl: CharClass, s: &str, i: usize) -> (r: usize)
    requires
        i <= s@.len(),
    ensures
        r == class_run(cl, s@, i as int),
        i <= r <= s@.len(),
    decreases s@.len() - i,
{
    if i >= s.unicode_len() || !class_contains(cl, s.get_char(i)) {
        i
    } else {
        run_end(cl, s, i + 1)
    }
}

/// Executable test that `t` occurs in `s` at index `i`.
pub fn occurs_at(s: &str, t: &str, i: usize) -> (r: bool)
    ensures
        r == has_prefix_at(s@, t@, i as int),
{
    let n = t.unicode_len();
    let sn = s.unicode_len();
    if i > sn || n > sn - i {
        proof {
            assert(!has_prefix_at(s@, t@, i as int));
        }
        return false;
    }
    let mut j: usize = 0;
    while j < n
        invariant
            j <= n,
            n == t@.len(),
            sn == s@.len(),
            i + n <= sn,
            forall|k: int| 0 <= k < j ==> s@[i + k] == t@[k],
        decreases n - j,
    {
        if s.get_char(i + j) != t.get_char(j) {
            proof {
                assert(s@.subrange(i as int, i + t@.len())[j as int] != t@[j as int]);
            }
            return false;
        }
        j += 1;
    }
    proof {
        assert(s@.subrange(i as int, i + t@.len()) =~= t@);
    }
    true
}

/// Executable search for the first occurrence of `t` in `s` at or after `i`.
pub fn find_from(s: &str, t: &str, i: usize) -> (r: Option<usize>)
    ensures
        match r {
            Some(j) => find_at(s@, t@, i as int) == Some(j as int),
            None => find_at(s@, t@, i as int) is None,
        },
{
    let n = s.unicode_len();
    let tn = t.unicode_len();
    if i > n || tn > n - i {
        return None;
    }
    if tn == 0 {
        proof {
            assert(s@.subrange(i as int, i as int) =~= t@);
        }
        return Some(i);
    }
    let mut j: usize = i;
    while j <= n - tn
        invariant
            i <= j,
            n == s@.len(),
            tn == t@.len(),
            1 <= tn <= n,
            j <= n,
            find_at(s@, t@, i as int) == find_at(s@, t@, j as int),
        decreases n - j,
    {
        if occurs_at(s, t, j) {
            return Some(j);
        }
        j += 1;
    }
    None
}

/// Executable trim: the bounds in `s` of `s` with surrounding whitespace
/// removed.
pub fn trim_bounds(s: &str) -> (r: (usize, usize))
    ensures
        r.0 <= r.1 <= s@.len(),
        spec_trim(s@) == s@.subrange(r.0 as int, r.1 as int),
{
    let n = s.unicode_len();
    let a = run_end(CharClass::Whitespace, s, 0);
    let mut b: usize = n;
    while b > 0 && is_ws_char(s.get_char(b - 1))
        invariant
            b <= n,
            n == s@.len(),
            ws_end(s@, n as int) == ws_end(s@, b as int),
        decreases b,
    {
        b -= 1;
    }
    if a <= b {
        (a, b)
    } else {
        proof {
            assert(spec_trim(s@) =~= s@.subrange(a as int, a as int));
        }
        (a, a)
    }
}

} // verus!
