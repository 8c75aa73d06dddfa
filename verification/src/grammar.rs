//! The leaf recognizers of the directive grammar. Each construct has a spec
//! function over sequences of characters giving exactly what it matches at
//! the start of an input and how many characters it consumes, and an
//! executable recognizer proved to return just that. Payloads are copied out
//! as owned strings; consumption is reported as a count of characters.

use vstd::prelude::*;

use crate::balance::{spec_take_until_unbalanced, take_until_unbalanced};
use crate::chars::{
    class_run, find_at, find_from, has_prefix_at, occurs_at, run_end, spec_trim, trim_bounds,
    CharClass,
};
use crate::expression::{ContentStyle, Expression, SpecExpr};
use crate::url::{raw_url, spec_raw_url};

verus! {

/// A word: a maximal nonempty prefix of word characters. Returns how many
/// characters it spans.
pub open spec fn spec_word(s: Seq<char>) -> Option<int> {
    let j = class_run(CharClass::Word, s, 0);
    if j > 0 {
        Some(j)
    } else {
        None
    }
}

/// A span delimited by the tags `start` and `end`: the inner text runs from
/// the end of `start` to the first occurrence of `end` after it. Returns the
/// consumed length and the inner text.
pub open spec fn spec_fenced(start: Seq<char>, end: Seq<char>, s: Seq<char>) -> Option<
    (int, Seq<char>),
> {
    if has_prefix_at(s, start, 0) {
        match find_at(s, end, start.len() as int) {
            Some(j) => Some((j + end.len(), s.subrange(start.len() as int, j))),
            None => None,
        }
    } else {
        None
    }
}

/// A double-bracket page link.
pub open spec fn spec_link(s: Seq<char>) -> Option<(int, Seq<char>)> {
    spec_fenced("[["@, "]]"@, s)
}

/// A fenced code block.
pub open spec fn spec_triple_backtick(s: Seq<char>) -> Option<(int, Seq<char>)> {
    spec_fenced("```"@, "```"@, s)
}

/// A block reference.
pub open spec fn spec_block_ref(s: Seq<char>) -> Option<(int, Seq<char>)> {
    spec_fenced("(("@, "))"@, s)
}

/// A latex span.
pub open spec fn spec_latex(s: Seq<char>) -> Option<(int, Seq<char>)> {
    spec_fenced("$$"@, "$$"@, s)
}

/// A raw HTML span.
pub open spec fn spec_raw_html(s: Seq<char>) -> Option<(int, Seq<char>)> {
    spec_fenced("@@html: "@, "@@"@, s)
}

/// An inline code span: a backtick, one or more characters none of which is
/// a backtick, and a closing backtick.
pub open spec fn spec_single_backtick(s: Seq<char>) -> Option<(int, Seq<char>)> {
    if s.len() >= 1 && s[0] == '`' {
        let j = class_run(CharClass::NonBacktick, s, 1);
        if j > 1 && j < s.len() {
            Some((j + 1, s.subrange(1, j)))
        } else {
            None
        }
    } else {
        None
    }
}

/// A markdown-style link `[title](url)`, the url part bracket-balanced.
/// Returns the consumed length, the title and the url.
pub open spec fn spec_markdown_link(s: Seq<char>) -> Option<(int, Seq<char>, Seq<char>)> {
    match spec_fenced("["@, "]"@, s) {
        Some((u1, title)) => {
            if u1 < s.len() && s[u1] == '(' {
                let rest = s.skip(u1 + 1);
                match spec_take_until_unbalanced('(', ')', rest) {
                    Some(ix) => {
                        if ix < rest.len() && rest[ix] == ')' {
                            Some((u1 + 1 + ix + 1, title, rest.take(ix)))
                        } else {
                            None
                        }
                    },
                    None => None,
                }
            } else {
                None
            }
        },
        None => None,
    }
}

/// An image `![alt](url)`.
pub open spec fn spec_image(s: Seq<char>) -> Option<(int, Seq<char>, Seq<char>)> {
    if s.len() >= 1 && s[0] == '!' {
        match spec_markdown_link(s.skip(1)) {
            Some((u, alt, url)) => Some((1 + u, alt, url)),
            None => None,
        }
    } else {
        None
    }
}

/// A page link, or else a word. Returns the consumed length and the link's
/// inner text or the word itself.
pub open spec fn spec_link_or_word(s: Seq<char>) -> Option<(int, Seq<char>)> {
    match spec_link(s) {
        Some((u, inner)) => Some((u, inner)),
        None => match spec_word(s) {
            Some(j) => Some((j, s.take(j))),
            None => None,
        },
    }
}

/// The fixed word `w`, either bare or wrapped as `[[w]]`.
pub open spec fn spec_fixed_link_or_word(w: Seq<char>, s: Seq<char>) -> Option<int> {
    if has_prefix_at(s, w, 0) {
        Some(w.len() as int)
    } else if s.len() >= w.len() + 4 && s[0] == '[' && s[1] == '[' && has_prefix_at(s, w, 2) && s[2
        + w.len() as int] == ']' && s[3 + w.len() as int] == ']' {
        Some(w.len() + 4int)
    } else {
        None
    }
}

/// A hashtag: `#` and an optional `.`, followed by a page link or a word.
/// Returns the consumed length, the tag text, and whether the dot was there.
pub open spec fn spec_hashtag(s: Seq<char>) -> Option<(int, Seq<char>, bool)> {
    if s.len() >= 1 && s[0] == '#' {
        let start: int = if s.len() >= 2 && s[1] == '.' {
            2
        } else {
            1
        };
        match spec_link_or_word(s.skip(start)) {
            Some((u, t)) => Some((start + u, t, start == 2)),
            None => None,
        }
    } else {
        None
    }
}

/// The brace form `video <url>`: the fixed word, at least one separator
/// character, then a raw URL. Returns the consumed length and the url.
pub open spec fn spec_video(t: Seq<char>) -> Option<(int, Seq<char>)> {
    match spec_fixed_link_or_word("video"@, t) {
        Some(u1) => {
            let ws = class_run(CharClass::Multispace, t, u1);
            if ws > u1 {
                match spec_raw_url(t.skip(ws)) {
                    Some(e) => Some((ws + e, t.subrange(ws, ws + e))),
                    None => None,
                }
            } else {
                None
            }
        },
        None => None,
    }
}

/// Where an embed's separator ends: one dialect puts a colon (and optional
/// spacing) after the word `embed`, the other requires spacing alone.
pub open spec fn spec_embed_sep(d: ContentStyle, t: Seq<char>, u1: int) -> Option<int> {
    if d == ContentStyle::Roam {
        if u1 < t.len() && t[u1] == ':' {
            Some(class_run(CharClass::Multispace, t, u1 + 1))
        } else {
            None
        }
    } else {
        let ws = class_run(CharClass::Multispace, t, u1);
        if ws > u1 {
            Some(ws)
        } else {
            None
        }
    }
}

/// The brace form `embed`: the fixed word, the dialect's separator, then a
/// block reference or a page link.
pub open spec fn spec_embed(d: ContentStyle, t: Seq<char>) -> Option<(int, SpecExpr)> {
    match spec_fixed_link_or_word("embed"@, t) {
        Some(u1) => match spec_embed_sep(d, t, u1) {
            Some(p) => {
                let rest = t.skip(p);
                match spec_block_ref(rest) {
                    Some((u2, id)) => Some((p + u2, SpecExpr::BlockEmbed(id))),
                    None => match spec_link(rest) {
                        Some((u2, pg)) => Some((p + u2, SpecExpr::PageEmbed(pg))),
                        None => None,
                    },
                }
            },
            None => None,
        },
        None => None,
    }
}

/// The ordered alternatives tried on the trimmed contents of a brace
/// directive. The to-do keywords are recognized in one dialect only.
pub open spec fn spec_brace_alt(d: ContentStyle, t: Seq<char>) -> Option<(int, SpecExpr)> {
    if d == ContentStyle::Roam && spec_fixed_link_or_word("TODO"@, t) is Some {
        Some((spec_fixed_link_or_word("TODO"@, t)->Some_0, SpecExpr::Todo { done: false }))
    } else if d == ContentStyle::Roam && spec_fixed_link_or_word("DOING"@, t) is Some {
        Some((spec_fixed_link_or_word("DOING"@, t)->Some_0, SpecExpr::Todo { done: false }))
    } else if d == ContentStyle::Roam && spec_fixed_link_or_word("DONE"@, t) is Some {
        Some((spec_fixed_link_or_word("DONE"@, t)->Some_0, SpecExpr::Todo { done: true }))
    } else if spec_fixed_link_or_word("table"@, t) is Some {
        Some((spec_fixed_link_or_word("table"@, t)->Some_0, SpecExpr::Table))
    } else if spec_video(t) is Some {
        Some((spec_video(t)->Some_0.0, SpecExpr::Video { url: spec_video(t)->Some_0.1 }))
    } else if spec_embed(d, t) is Some {
        spec_embed(d, t)
    } else {
        match spec_link_or_word(t) {
            Some((u, w)) => Some((u, SpecExpr::BraceDirective(w))),
            None => None,
        }
    }
}

/// The trimmed contents of a brace directive, which must be matched by one
/// alternative completely; anything else is kept as the raw trimmed text.
pub open spec fn spec_brace_contents(d: ContentStyle, t: Seq<char>) -> Option<SpecExpr> {
    match spec_brace_alt(d, t) {
        Some((u, e)) => if u == t.len() {
            Some(e)
        } else {
            None
        },
        None => None,
    }
}

/// A brace directive `{{ ... }}`: everything up to the first closing pair,
/// trimmed, then classified by [`spec_brace_contents`].
pub open spec fn spec_brace(d: ContentStyle, s: Seq<char>) -> Option<(int, SpecExpr)> {
    if has_prefix_at(s, "{{"@, 0) {
        match find_at(s, "}}"@, "{{"@.len() as int) {
            Some(j) => {
                let t = spec_trim(s.subrange("{{"@.len() as int, j));
                let e = match spec_brace_contents(d, t) {
                    Some(e) => e,
                    None => SpecExpr::BraceDirective(t),
                };
                Some((j + "}}"@.len(), e))
            },
            None => None,
        }
    } else {
        None
    }
}

/// A bare to-do keyword at the start of the input, and whether it means
/// done.
pub open spec fn spec_logseq_todo(s: Seq<char>) -> Option<(int, bool)> {
    if has_prefix_at(s, "TODO"@, 0) {
        Some(("TODO"@.len() as int, false))
    } else if has_prefix_at(s, "DOING"@, 0) {
        Some(("DOING"@.len() as int, false))
    } else if has_prefix_at(s, "NOW"@, 0) {
        Some(("NOW"@.len() as int, false))
    } else if has_prefix_at(s, "LATER"@, 0) {
        Some(("LATER"@.len() as int, false))
    } else if has_prefix_at(s, "DONE"@, 0) {
        Some(("DONE"@.len() as int, true))
    } else {
        None
    }
}

/// Recognizes a word.
pub fn word(input: &str) -> (r: Option<usize>)
    ensures
        (match r {
            Some(j) => spec_word(input@) == Some(j as int) && 1 <= j <= input@.len(),
            None => spec_word(input@) is None,
        }),
{
    let j = run_end(CharClass::Word, input, 0);
    if j > 0 {
        Some(j)
    } else {
        None
    }
}

/// Recognizes a span delimited by `start` and `end` and copies out its
/// inner text.
pub fn fenced(start: &str, end: &str, input: &str) -> (r: Option<(usize, String)>)
    ensures
        (match r {
            Some((u, inner)) => spec_fenced(start@, end@, input@) == Some((u as int, inner@))
                && u <= input@.len() && inner@.len() + start@.len() + end@.len() == u,
            None => spec_fenced(start@, end@, input@) is None,
        }),
{
    if !occurs_at(input, start, 0) {
        return None;
    }
    let n = input.unicode_len();
    let sl = start.unicode_len();
    let el = end.unicode_len();
    match find_from(input, end, sl) {
        Some(j) => {
            proof {
                crate::chars::lemma_find_at_bounds(input@, end@, sl as int);
            }
            let inner = input.substring_char(sl, j).to_owned();
            Some((j + el, inner))
        },
        None => None,
    }
}

/// Recognizes a double-bracket page link.
pub fn link(input: &str) -> (r: Option<(usize, String)>)
    ensures
        (match r {
            Some((u, inner)) => spec_link(input@) == Some((u as int, inner@)) && 1 <= u
                <= input@.len(),
            None => spec_link(input@) is None,
        }),
{
    let r = fenced("[[", "]]", input);
    proof {
        reveal_strlit("[[");
    }
    r
}

/// Recognizes a fenced code block.
pub fn triple_backtick(input: &str) -> (r: Option<(usize, String)>)
    ensures
        (match r {
            Some((u, inner)) => spec_triple_backtick(input@) == Some((u as int, inner@)) && 1 <= u
                <= input@.len(),
            None => spec_triple_backtick(input@) is None,
        }),
{
    let r = fenced("```", "```", input);
    proof {
        reveal_strlit("```");
    }
    r
}

/// Recognizes a block reference.
pub fn block_ref(input: &str) -> (r: Option<(usize, String)>)
    ensures
        (match r {
            Some((u, inner)) => spec_block_ref(input@) == Some((u as int, inner@)) && 1 <= u
                <= input@.len(),
            None => spec_block_ref(input@) is None,
        }),
{
    let r = fenced("((", "))", input);
    proof {
        reveal_strlit("((");
    }
    r
}

/// Recognizes a latex span.
pub fn latex(input: &str) -> (r: Option<(usize, String)>)
    ensures
        (match r {
            Some((u, inner)) => spec_latex(input@) == Some((u as int, inner@)) && 1 <= u
                <= input@.len(),
            None => spec_latex(input@) is None,
        }),
{
    let r = fenced("$$", "$$", input);
    proof {
        reveal_strlit("$$");
    }
    r
}

/// Recognizes a raw HTML span.
pub fn raw_html(input: &str) -> (r: Option<(usize, String)>)
    ensures
        (match r {
            Some((u, inner)) => spec_raw_html(input@) == Some((u as int, inner@)) && 1 <= u
                <= input@.len(),
            None => spec_raw_html(input@) is None,
        }),
{
    let r = fenced("@@html: ", "@@", input);
    proof {
        reveal_strlit("@@html: ");
        reveal_strlit("@@");
    }
    r
}

/// Recognizes an inline code span.
pub fn single_backtick(input: &str) -> (r: Option<(usize, String)>)
    ensures
        (match r {
            Some((u, inner)) => spec_single_backtick(input@) == Some((u as int, inner@)) && 1 <= u
                <= input@.len(),
            None => spec_single_backtick(input@) is None,
        }),
{
    let n = input.unicode_len();
    if n == 0 || input.get_char(0) != '`' {
        return None;
    }
    let j = run_end(CharClass::NonBacktick, input, 1);
    if j > 1 && j < n {
        let inner = input.substring_char(1, j).to_owned();
        Some((j + 1, inner))
    } else {
        None
    }
}

/// Recognizes a markdown-style link and copies out its title and url.
pub fn markdown_link(input: &str) -> (r: Option<(usize, String, String)>)
    ensures
        (match r {
            Some((u, title, url)) => spec_markdown_link(input@) == Some(
                (u as int, title@, url@),
            ) && 1 <= u <= input@.len(),
            None => spec_markdown_link(input@) is None,
        }),
{
    proof {
        reveal_strlit("[");
        reveal_strlit("]");
    }
    let n = input.unicode_len();
    match fenced("[", "]", input) {
        Some((u1, title)) => {
            if u1 < n && input.get_char(u1) == '(' {
                let rest = input.substring_char(u1 + 1, n);
                match take_until_unbalanced('(', ')', rest) {
                    Some(ix) => {
                        if ix < rest.unicode_len() && rest.get_char(ix) == ')' {
                            let url = rest.substring_char(0, ix).to_owned();
                            Some((u1 + 1 + ix + 1, title, url))
                        } else {
                            None
                        }
                    },
                    None => None,
                }
            } else {
                None
            }
        },
        None => None,
    }
}

/// Recognizes an image and copies out its alt text and url.
pub fn image(input: &str) -> (r: Option<(usize, String, String)>)
    ensures
        (match r {
            Some((u, alt, url)) => spec_image(input@) == Some((u as int, alt@, url@)) && 1 <= u
                <= input@.len(),
            None => spec_image(input@) is None,
        }),
{
    let n = input.unicode_len();
    if n == 0 || input.get_char(0) != '!' {
        return None;
    }
    match markdown_link(input.substring_char(1, n)) {
        Some((u, alt, url)) => Some((1 + u, alt, url)),
        None => None,
    }
}

/// Recognizes a page link or a word and copies out its text.
pub fn link_or_word(input: &str) -> (r: Option<(usize, String)>)
    ensures
        (match r {
            Some((u, t)) => spec_link_or_word(input@) == Some((u as int, t@)) && 1 <= u
                <= input@.len(),
            None => spec_link_or_word(input@) is None,
        }),
{
    match link(input) {
        Some((u, inner)) => Some((u, inner)),
        None => match word(input) {
            Some(j) => {
                let t = input.substring_char(0, j).to_owned();
                Some((j, t))
            },
            None => None,
        },
    }
}

/// Recognizes the fixed word `w`, bare or wrapped in a double-bracket link.
pub fn fixed_link_or_word(w: &str, input: &str) -> (r: Option<usize>)
    ensures
        (match r {
            Some(u) => spec_fixed_link_or_word(w@, input@) == Some(u as int) && w@.len() <= u
                <= input@.len(),
            None => spec_fixed_link_or_word(w@, input@) is None,
        }),
{
    let n = input.unicode_len();
    let wl = w.unicode_len();
    if occurs_at(input, w, 0) {
        return Some(wl);
    }
    if n >= 4 && wl <= n - 4 && input.get_char(0) == '[' && input.get_char(1) == '[' && occurs_at(
        input,
        w,
        2,
    ) && input.get_char(2 + wl) == ']' && input.get_char(3 + wl) == ']' {
        Some(wl + 4)
    } else {
        None
    }
}

/// Recognizes a hashtag and copies out its tag text.
pub fn hashtag(input: &str) -> (r: Option<(usize, String, bool)>)
    ensures
        (match r {
            Some((u, t, dot)) => spec_hashtag(input@) == Some((u as int, t@, dot)) && 1 <= u
                <= input@.len(),
            None => spec_hashtag(input@) is None,
        }),
{
    let n = input.unicode_len();
    if n == 0 || input.get_char(0) != '#' {
        return None;
    }
    let start: usize = if n >= 2 && input.get_char(1) == '.' {
        2
    } else {
        1
    };
    if start > n {
        return None;
    }
    match link_or_word(input.substring_char(start, n)) {
        Some((u, t)) => Some((start + u, t, start == 2)),
        None => None,
    }
}

/// Recognizes the brace form `video <url>`.
pub fn video_directive(t: &str) -> (r: Option<(usize, String)>)
    ensures
        (match r {
            Some((u, url)) => spec_video(t@) == Some((u as int, url@)) && u <= t@.len(),
            None => spec_video(t@) is None,
        }),
{
    let n = t.unicode_len();
    match fixed_link_or_word("video", t) {
        Some(u1) => {
            let ws = run_end(CharClass::Multispace, t, u1);
            if ws > u1 {
                match raw_url(t.substring_char(ws, n)) {
                    Some(e) => {
                        let url = t.substring_char(ws, ws + e).to_owned();
                        Some((ws + e, url))
                    },
                    None => None,
                }
            } else {
                None
            }
        },
        None => None,
    }
}

/// Recognizes the brace form `embed` of a block reference or page link.
pub fn embed_directive(d: ContentStyle, t: &str) -> (r: Option<(usize, Expression)>)
    ensures
        (match r {
            Some((u, e)) => spec_embed(d, t@) == Some((u as int, e@)) && u <= t@.len(),
            None => spec_embed(d, t@) is None,
        }),
{
    let n = t.unicode_len();
    match fixed_link_or_word("embed", t) {
        Some(u1) => {
            let p: usize = if d == ContentStyle::Roam {
                if u1 < n && t.get_char(u1) == ':' {
                    run_end(CharClass::Multispace, t, u1 + 1)
                } else {
                    return None;
                }
            } else {
                let ws = run_end(CharClass::Multispace, t, u1);
                if ws > u1 {
                    ws
                } else {
                    return None;
                }
            };
            let rest = t.substring_char(p, n);
            match block_ref(rest) {
                Some((u2, id)) => Some((p + u2, Expression::BlockEmbed(id))),
                None => match link(rest) {
                    Some((u2, pg)) => Some((p + u2, Expression::PageEmbed(pg))),
                    None => None,
                },
            }
        },
        None => None,
    }
}

/// Tries the ordered brace-directive alternatives on trimmed contents.
pub fn brace_alternatives(d: ContentStyle, t: &str) -> (r: Option<(usize, Expression)>)
    ensures
        (match r {
            Some((u, e)) => spec_brace_alt(d, t@) == Some((u as int, e@)),
            None => spec_brace_alt(d, t@) is None,
        }),
{
    if d == ContentStyle::Roam {
        match fixed_link_or_word("TODO", t) {
            Some(u) => {
                return Some((u, Expression::Todo { done: false }));
            },
            None => {},
        }
        match fixed_link_or_word("DOING", t) {
            Some(u) => {
                return Some((u, Expression::Todo { done: false }));
            },
            None => {},
        }
        match fixed_link_or_word("DONE", t) {
            Some(u) => {
                return Some((u, Expression::Todo { done: true }));
            },
            None => {},
        }
    }
    match fixed_link_or_word("table", t) {
        Some(u) => {
            return Some((u, Expression::Table));
        },
        None => {},
    }
    match video_directive(t) {
        Some((u, url)) => {
            return Some((u, Expression::Video { url }));
        },
        None => {},
    }
    match embed_directive(d, t) {
        Some((u, e)) => {
            return Some((u, e));
        },
        None => {},
    }
    match link_or_word(t) {
        Some((u, w)) => Some((u, Expression::BraceDirective(w))),
        None => None,
    }
}

/// Classifies trimmed brace contents, requiring a complete match.
pub fn brace_directive_contents(d: ContentStyle, t: &str) -> (r: Option<Expression>)
    ensures
        (match r {
            Some(e) => spec_brace_contents(d, t@) == Some(e@),
            None => spec_brace_contents(d, t@) is None,
        }),
{
    match brace_alternatives(d, t) {
        Some((u, e)) => {
            if u == t.unicode_len() {
                Some(e)
            } else {
                None
            }
        },
        None => None,
    }
}

/// Recognizes a brace directive `{{ ... }}`.
pub fn brace_directive(d: ContentStyle, input: &str) -> (r: Option<(usize, Expression)>)
    ensures
        (match r {
            Some((u, e)) => spec_brace(d, input@) == Some((u as int, e@)) && 1 <= u
                <= input@.len(),
            None => spec_brace(d, input@) is None,
        }),
{
    proof {
        reveal_strlit("{{");
        reveal_strlit("}}");
    }
    if !occurs_at(input, "{{", 0) {
        return None;
    }
    let n = input.unicode_len();
    let tl = "{{".unicode_len();
    match find_from(input, "}}", tl) {
        Some(j) => {
            proof {
                crate::chars::lemma_find_at_bounds(input@, "}}"@, tl as int);
            }
            let inner = input.substring_char(tl, j);
            let (a, b) = trim_bounds(inner);
            let trimmed = inner.substring_char(a, b);
            let e = match brace_directive_contents(d, trimmed) {
                Some(e) => e,
                None => Expression::BraceDirective(trimmed.to_owned()),
            };
            let el = "}}".unicode_len();
            Some((j + el, e))
        },
        None => None,
    }
}

/// Recognizes a bare to-do keyword at the start of the input.
pub fn logseq_todo(input: &str) -> (r: Option<(usize, bool)>)
    ensures
        (match r {
            Some((u, done)) => spec_logseq_todo(input@) == Some((u as int, done)) && 1 <= u
                <= input@.len(),
            None => spec_logseq_todo(input@) is None,
        }),
{
    proof {
        reveal_strlit("TODO");
        reveal_strlit("DOING");
        reveal_strlit("NOW");
        reveal_strlit("LATER");
        reveal_strlit("DONE");
    }
    if occurs_at(input, "TODO", 0) {
        Some(("TODO".unicode_len(), false))
    } else if occurs_at(input, "DOING", 0) {
        Some(("DOING".unicode_len(), false))
    } else if occurs_at(input, "NOW", 0) {
        Some(("NOW".unicode_len(), false))
    } else if occurs_at(input, "LATER", 0) {
        Some(("LATER".unicode_len(), false))
    } else if occurs_at(input, "DONE", 0) {
        Some(("DONE".unicode_len(), true))
    } else {
        None
    }
}

} // verus!
