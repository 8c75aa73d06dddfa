//! The incremental URL recognizer. An external automaton is fed one
//! character at a time; after each character it reports either that it may
//! still be inside a URL scheme, or the length of the longest valid URL seen
//! so far, or that it has reset. The recognizer feeds it the input in order,
//! remembers the last reported URL end, stops early on a reset, and succeeds
//! exactly when a positive end was ever reported — so trailing punctuation
//! after a URL is excluded from it.

use vstd::prelude::*;

use crate::chars::{count_char, lemma_count_take_step};

verus! {

/// What the URL automaton reports once the given characters, and no others,
/// have been fed to it in order: `-1` for a reset, `-2` while it may still
/// be inside a scheme, and `e >= 0` for the length in characters of the
/// longest valid URL seen, counted from the automaton's last reset. The
/// recognizer below stops feeding at the first reset, so for the histories
/// it builds that length is the URL's end offset in the input. The report is
/// a function of the characters alone; nothing else about its value is
/// assumed here.
pub uninterp spec fn url_report(fed: Seq<char>) -> int;

/// One report of the URL automaton, as the library reads it.
pub enum UrlStep {
    /// Possibly still inside a URL scheme.
    Scheme,
    /// The longest URL seen so far ends at this offset.
    Url(u16),
    /// The current run of characters cannot continue a URL.
    Reset,
}

#[verifier::external_type_specification]
#[verifier::external_body]
pub struct ExUrlLocator(urlocator::UrlLocator);

/// The external automaton together with the characters fed to it so far.
pub(crate) struct UrlScanner {
    loc: urlocator::UrlLocator,
    fed: Ghost<Seq<char>>,
}

impl View for UrlScanner {
    type V = Seq<char>;

    closed spec fn view(&self) -> Seq<char> {
        self.fed@
    }
}

/// Relies on urlocator::UrlLocator::new: a fresh automaton, which has been
/// fed nothing.
#[verifier::external_body]
fn locator_new() -> (r: urlocator::UrlLocator) {
    urlocator::UrlLocator::new()
}

impl UrlScanner {
    pub(crate) fn new() -> (r: UrlScanner)
        ensures
            r@ == Seq::<char>::empty(),
    {
        UrlScanner { loc: locator_new(), fed: Ghost(Seq::empty()) }
    }

    /// Relies on urlocator::UrlLocator::advance: fed one more character, the
    /// automaton reports a reset, a possible scheme, or the end offset of
    /// the longest URL seen; the report depends on the characters fed since
    /// construction alone, and a reported end never exceeds their number.
    /// The automaton counts the characters fed to it in a 16-bit counter and
    /// open parentheses and brackets in 8-bit counters, so feeding stays
    /// below those counters' ranges.
    #[verifier::external_body]
    pub(crate) fn advance(&mut self, c: char) -> (r: UrlStep)
        requires
            old(self)@.len() < 65535,
            count_char(old(self)@, '(') < 255,
            count_char(old(self)@, '[') < 255,
        ensures
            final(self)@ == old(self)@.push(c),
            (match r {
                UrlStep::Reset => url_report(old(self)@.push(c)) == -1,
                UrlStep::Scheme => url_report(old(self)@.push(c)) == -2,
                UrlStep::Url(e) => url_report(old(self)@.push(c)) == e as int && e as int <= old(
                    self,
                )@.push(c).len(),
            }),
    {
        match self.loc.advance(c) {
            urlocator::UrlLocation::Url(len, _rem) => UrlStep::Url(len),
            urlocator::UrlLocation::Scheme => UrlStep::Scheme,
            urlocator::UrlLocation::Reset => UrlStep::Reset,
        }
    }
}

/// The end offset the recognizer remembers after scanning `s` from offset
/// `i` with `last` as the last end reported so far: it stops at the first
/// reset and otherwise keeps the automaton's latest in-range URL report.
/// The scan also ends where one of the automaton's counters — a 16-bit one
/// for characters, 8-bit ones for open parentheses and brackets — would run
/// out, so it is defined for inputs of any length.
pub open spec fn url_scan(s: Seq<char>, i: int, last: int) -> int
    decreases s.len() - i,
{
    if i < 0 || i >= s.len() || i >= 65535 || count_char(s.take(i), '(') >= 255 || count_char(
        s.take(i),
        '[',
    ) >= 255 {
        last
    } else {
        let rep = url_report(s.take(i + 1));
        if rep == -1 {
            last
        } else {
            url_scan(s, i + 1, if 0 <= rep && rep <= i + 1 { rep } else { last })
        }
    }
}

/// The end offset of the URL at the start of `s`, or 0 if none is found.
pub open spec fn url_end_of(s: Seq<char>) -> int {
    url_scan(s, 0, 0)
}

/// What the raw-URL recognizer returns on `s`: the positive end offset of a
/// URL beginning at the first character, if the automaton reported one.
pub open spec fn spec_raw_url(s: Seq<char>) -> Option<int> {
    if url_end_of(s) > 0 {
        Some(url_end_of(s))
    } else {
        None
    }
}

/// The raw-URL recognizer: the number of characters of `i` that form a URL
/// starting at its first character, or `None` when there is no such URL.
pub fn raw_url(i: &str) -> (r: Option<usize>)
    ensures
        (match r {
            Some(e) => spec_raw_url(i@) == Some(e as int) && 1 <= e <= i@.len(),
            None => spec_raw_url(i@) is None,
        }),
{
    let n = i.unicode_len();
    let mut sc = UrlScanner::new();
    let mut end: usize = 0;
    let mut k: usize = 0;
    let mut pc: usize = 0;
    let mut bc: usize = 0;
    let mut done = false;
    proof {
        assert(sc@ =~= i@.take(0));
        assert(i@.take(0) =~= Seq::<char>::empty());
    }
    while !done && k < n && k < 65535 && pc < 255 && bc < 255
        invariant
            n == i@.len(),
            end <= k <= n,
            !done ==> sc@ == i@.take(k as int),
            !done ==> pc == count_char(i@.take(k as int), '('),
            !done ==> bc == count_char(i@.take(k as int), '['),
            !done ==> url_scan(i@, k as int, end as int) == url_end_of(i@),
            done ==> end as int == url_end_of(i@),
        decreases n - k, (if done { 0int } else { 1int }),
    {
        let c = i.get_char(k);
        let step = sc.advance(c);
        proof {
            assert(sc@ =~= i@.take(k + 1));
            lemma_count_take_step(i@, '(', k as int);
            lemma_count_take_step(i@, '[', k as int);
        }
        match step {
            UrlStep::Reset => {
                done = true;
            },
            UrlStep::Scheme => {
                if c == '(' {
                    pc += 1;
                }
                if c == '[' {
                    bc += 1;
                }
                k += 1;
            },
            UrlStep::Url(e) => {
                end = e as usize;
                if c == '(' {
                    pc += 1;
                }
                if c == '[' {
                    bc += 1;
                }
                k += 1;
            },
        }
    }
    proof {
        if !done {
            assert(url_scan(i@, k as int, end as int) == end);
        }
    }
    if end > 0 {
        Some(end)
    } else {
        None
    }
}

} // verus!
