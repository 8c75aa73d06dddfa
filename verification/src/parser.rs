//! The inline scanner and the block classifier. The scanner walks the input
//! looking for the first position where any directive matches, splits off
//! the skipped prefix as literal text, and recurses into nested styled
//! spans; the block classifier first tries the whole-block forms. The spec
//! functions here define the whole grammar's result; `parse` is proved to
//! return exactly it, for every input and both dialects.

use vstd::prelude::*;

use crate::chars::{class_run, has_prefix_at, occurs_at, run_end, CharClass};
use crate::expression::{
    lemma_view_exprs_concat, lemma_view_exprs_push, view_exprs, ContentStyle, Expression, SpecExpr,
};
use crate::grammar::{
    block_ref, brace_directive, hashtag, image, latex, link, logseq_todo, markdown_link, raw_html,
    single_backtick, spec_block_ref, spec_brace, spec_fenced, spec_hashtag, spec_image, spec_latex,
    spec_link, spec_logseq_todo, spec_markdown_link, spec_raw_html, spec_single_backtick,
    spec_triple_backtick, triple_backtick,
};
use crate::url::{raw_url, spec_raw_url};

verus! {

/// A parse failure. The block classifier's final fallback always succeeds,
/// so no input actually produces one; the variant exists for callers that
/// must handle the error arm of the result.
#[derive(Debug, PartialEq, Eq)]
pub enum ParseError {
    Unparsed,
}

/// A styled span fenced by `boundary` on both sides, its contents parsed
/// recursively with attributes disallowed. The degenerate arm is never
/// taken: a fenced inner text is shorter than the span it came from.
pub open spec fn spec_style(d: ContentStyle, boundary: Seq<char>, s: Seq<char>) -> Option<
    (int, Seq<SpecExpr>),
>
    decreases s.len(), 0int, 0int,
{
    match spec_fenced(boundary, boundary, s) {
        Some((u, inner)) => {
            if inner.len() < s.len() {
                Some((u, spec_parse_inline(d, false, inner)))
            } else {
                Some((u, Seq::empty()))
            }
        },
        None => None,
    }
}

/// A bold span: `**` in one dialect, `**` or `__` in the other.
pub open spec fn spec_bold(d: ContentStyle, s: Seq<char>) -> Option<(int, Seq<SpecExpr>)>
    decreases s.len(), 0int, 1int,
{
    if d == ContentStyle::Roam {
        spec_style(d, "**"@, s)
    } else {
        match spec_style(d, "**"@, s) {
            Some(r) => Some(r),
            None => spec_style(d, "__"@, s),
        }
    }
}

/// An italic span: `__` in one dialect, `_` or `*` in the other.
pub open spec fn spec_italic(d: ContentStyle, s: Seq<char>) -> Option<(int, Seq<SpecExpr>)>
    decreases s.len(), 0int, 1int,
{
    if d == ContentStyle::Roam {
        spec_style(d, "__"@, s)
    } else {
        match spec_style(d, "_"@, s) {
            Some(r) => Some(r),
            None => spec_style(d, "*"@, s),
        }
    }
}

/// How a markdown-style link is classified: when the url is exactly a
/// double-bracket page link, the link is internal and its page is the
/// bracketed text; anything else is an external link.
pub open spec fn spec_md_link_expr(title: Seq<char>, url: Seq<char>) -> SpecExpr {
    match spec_link(url) {
        Some((u, page)) => {
            if u == url.len() {
                SpecExpr::MarkdownInternalLink { label: title, page }
            } else {
                SpecExpr::MarkdownExternalLink { title, url }
            }
        },
        None => SpecExpr::MarkdownExternalLink { title, url },
    }
}

/// Law: a markdown-style link whose url is exactly a double-bracket link
/// `[[page]]` — the page holding no closing pair of its own and not ending
/// on a closing bracket — is reclassified as an internal link to `page`,
/// with the link's title as its label.
pub proof fn lemma_link_reclassification(title: Seq<char>, url: Seq<char>, page: Seq<char>)
    requires
        url =~= seq!['[', '['] + page + seq![']', ']'],
        forall|j: int| 0 <= j < page.len() - 1 ==> !(#[trigger] page[j] == ']' && page[j + 1]
            == ']'),
        page.len() > 0 ==> page[page.len() - 1] != ']',
    ensures
        spec_md_link_expr(title, url) == (SpecExpr::MarkdownInternalLink { label: title, page }),
{
    reveal_strlit("[[");
    reveal_strlit("]]");
    assert("[["@ =~= seq!['[', '[']);
    assert("]]"@ =~= seq![']', ']']);
    assert(url.subrange(0, 2) =~= "[["@);
    let j = page.len() + 2int;
    assert(url.subrange(j, j + 2) =~= "]]"@);
    assert(has_prefix_at(url, "]]"@, j));
    assert forall|m: int| 2 <= m < j implies !has_prefix_at(url, "]]"@, m) by {
        if has_prefix_at(url, "]]"@, m) {
            assert(url.subrange(m, m + 2)[0] == ']');
            assert(url.subrange(m, m + 2)[1] == ']');
            assert(url[m] == ']' && url[m + 1] == ']');
            if m < j - 1 {
                assert(page[m - 2] == ']' && page[m - 1] == ']');
            } else {
                assert(page[page.len() - 1] == ']');
            }
        }
    }
    crate::chars::lemma_find_at_first(url, "]]"@, 2, j);
    assert(url.subrange(2, j) =~= page);
}

/// Law: a markdown-style link whose url is not of the exact shape
/// `[[page]]` stays an external link, its title and url kept verbatim.
pub proof fn lemma_link_kept_external(title: Seq<char>, url: Seq<char>)
    requires
        forall|page: Seq<char>| url != seq!['[', '['] + page + seq![']', ']'],
    ensures
        spec_md_link_expr(title, url) == (SpecExpr::MarkdownExternalLink { title, url }),
{
    if spec_link(url) is Some {
        let (u, inner) = spec_link(url)->Some_0;
        if u == url.len() {
            reveal_strlit("[[");
            reveal_strlit("]]");
            crate::chars::lemma_find_at_bounds(url, "]]"@, 2);
            crate::chars::lemma_find_at_hit(url, "]]"@, 2);
            let j = crate::chars::find_at(url, "]]"@, 2)->Some_0;
            assert(url.subrange(j, j + 2) == "]]"@);
            assert(url[0] == '[') by {
                assert(url.subrange(0, 2)[0] == '[');
            }
            assert(url[1] == '[') by {
                assert(url.subrange(0, 2)[1] == '[');
            }
            assert(url[j] == ']') by {
                assert(url.subrange(j, j + 2)[0] == ']');
            }
            assert(url[j + 1] == ']') by {
                assert(url.subrange(j, j + 2)[1] == ']');
            }
            assert forall|m: int| 2 <= m < j implies url[m] == inner[m - 2] by {
                assert(url.subrange(2, j)[m - 2] == url[m]);
            }
            assert(url =~= seq!['[', '['] + inner + seq![']', ']']);
            assert(false);
        }
    }
}

/// An attribute line `Name:: value`. One dialect keeps the name verbatim
/// (anything but a colon or backtick) and requires a double colon; the
/// other trims leading spacing, forbids a colon in the name, and requires
/// a double colon followed by a space. The value is the rest of the input,
/// parsed with attributes disallowed. The guards on the run ends always
/// hold; they keep the recursion visibly bounded.
pub open spec fn spec_attribute(d: ContentStyle, s: Seq<char>) -> Option<(Seq<char>, Seq<SpecExpr>)>
    decreases s.len(), 0int, 0int,
{
    if d == ContentStyle::Roam {
        let nl = class_run(CharClass::RoamAttrName, s, 0);
        if 0 < nl && nl + 2 <= s.len() && s[nl] == ':' && s[nl + 1] == ':' {
            let vs = class_run(CharClass::Multispace, s, nl + 2);
            if nl + 2 <= vs <= s.len() {
                Some((s.take(nl), spec_parse_inline(d, false, s.skip(vs))))
            } else {
                None
            }
        } else {
            None
        }
    } else {
        let ws = class_run(CharClass::Multispace, s, 0);
        let ne = if 0 <= ws {
            class_run(CharClass::AttrName, s, ws)
        } else {
            ws
        };
        if 0 <= ws < ne && ne + 3 <= s.len() && s[ne] == ':' && s[ne + 1] == ':' && s[ne + 2]
            == ' ' {
            let vs = class_run(CharClass::Multispace, s, ne + 3);
            if ne + 3 <= vs <= s.len() {
                Some((s.subrange(ws, ne), spec_parse_inline(d, false, s.skip(vs))))
            } else {
                None
            }
        } else {
            None
        }
    }
}

/// The full directive grammar at the start of `s`: the ordered alternatives
/// of the inline constructs, the first match winning. Returns how many
/// characters the construct consumes and the node it produces. The
/// attribute alternative is tried only when the caller allows it.
pub open spec fn spec_directive(d: ContentStyle, allow_attribute: bool, s: Seq<char>) -> Option<
    (int, SpecExpr),
>
    decreases s.len(), 1int, 0int,
{
    if spec_triple_backtick(s) is Some {
        let (u, inner) = spec_triple_backtick(s)->Some_0;
        Some((u, SpecExpr::TripleBacktick(inner)))
    } else if spec_single_backtick(s) is Some {
        let (u, inner) = spec_single_backtick(s)->Some_0;
        Some((u, SpecExpr::SingleBacktick(inner)))
    } else if spec_brace(d, s) is Some {
        spec_brace(d, s)
    } else if spec_hashtag(s) is Some {
        let (u, t, dot) = spec_hashtag(s)->Some_0;
        Some((u, SpecExpr::Hashtag(t, dot)))
    } else if spec_link(s) is Some {
        let (u, inner) = spec_link(s)->Some_0;
        Some((u, SpecExpr::Link(inner)))
    } else if spec_block_ref(s) is Some {
        let (u, inner) = spec_block_ref(s)->Some_0;
        Some((u, SpecExpr::BlockRef(inner)))
    } else if spec_image(s) is Some {
        let (u, alt, url) = spec_image(s)->Some_0;
        Some((u, SpecExpr::Image { alt, url }))
    } else if spec_raw_html(s) is Some {
        let (u, inner) = spec_raw_html(s)->Some_0;
        Some((u, SpecExpr::RawHtml(inner)))
    } else if spec_markdown_link(s) is Some {
        let (u, title, url) = spec_markdown_link(s)->Some_0;
        Some((u, spec_md_link_expr(title, url)))
    } else if spec_bold(d, s) is Some {
        let (u, exprs) = spec_bold(d, s)->Some_0;
        Some((u, SpecExpr::Bold(exprs)))
    } else if spec_italic(d, s) is Some {
        let (u, exprs) = spec_italic(d, s)->Some_0;
        Some((u, SpecExpr::Italic(exprs)))
    } else if spec_style(d, "~~"@, s) is Some {
        let (u, exprs) = spec_style(d, "~~"@, s)->Some_0;
        Some((u, SpecExpr::Strike(exprs)))
    } else if spec_style(d, "^^"@, s) is Some {
        let (u, exprs) = spec_style(d, "^^"@, s)->Some_0;
        Some((u, SpecExpr::Highlight(exprs)))
    } else if spec_latex(s) is Some {
        let (u, inner) = spec_latex(s)->Some_0;
        Some((u, SpecExpr::Latex(inner)))
    } else if spec_raw_url(s) is Some {
        let e = spec_raw_url(s)->Some_0;
        Some((e, SpecExpr::RawHyperlink(s.take(e))))
    } else if allow_attribute && spec_attribute(d, s) is Some {
        let (name, value) = spec_attribute(d, s)->Some_0;
        Some((s.len() as int, SpecExpr::Attribute { name, value }))
    } else {
        None
    }
}

/// The inline scanner: the ordered nodes covering all of `s`. Empty input
/// produces no nodes; otherwise the scan starts at offset 0.
pub open spec fn spec_parse_inline(d: ContentStyle, allow_attribute: bool, s: Seq<char>) -> Seq<
    SpecExpr,
>
    decreases s.len(), 3int, 0int,
{
    if s.len() == 0 {
        Seq::empty()
    } else {
        spec_scan(d, allow_attribute, s, 0)
    }
}

/// The scan of `s` from offset `k`: the first offset at which any directive
/// matches wins; the skipped prefix becomes literal text; scanning
/// continues after the directive. If no offset matches, the whole remainder
/// is one text node. A directive consumes at least one character; the
/// guards keep the recursion visibly bounded either way.
pub open spec fn spec_scan(d: ContentStyle, allow_attribute: bool, s: Seq<char>, k: int) -> Seq<
    SpecExpr,
>
    decreases s.len(), 2int, (if k <= s.len() { s.len() - k } else { 0int }),
{
    if k < 0 || k >= s.len() {
        seq![SpecExpr::Text(s)]
    } else {
        match spec_directive(d, allow_attribute, s.skip(k)) {
            Some((used, e)) => {
                let consumed = k + (if used >= 1 {
                    used
                } else {
                    1
                });
                let rest = if consumed <= s.len() {
                    s.skip(consumed)
                } else {
                    Seq::empty()
                };
                let tail = seq![e] + spec_parse_inline(d, allow_attribute, rest);
                if k > 0 {
                    seq![SpecExpr::Text(s.take(k))] + tail
                } else {
                    tail
                }
            },
            None => spec_scan(d, allow_attribute, s, k + 1),
        }
    }
}

/// The block classifier: a horizontal rule when the block is exactly three
/// dashes; a block quote; in one dialect a whole-block attribute; in the
/// other a leading bare to-do keyword; otherwise the inline scan of the
/// whole block, attributes allowed.
pub open spec fn spec_parse(d: ContentStyle, s: Seq<char>) -> Seq<SpecExpr>
    decreases s.len(), 4int, 0int,
{
    if s.len() == "---"@.len() && has_prefix_at(s, "---"@, 0) {
        seq![SpecExpr::HRule]
    } else if has_prefix_at(s, "> "@, 0) {
        seq![SpecExpr::BlockQuote(spec_parse_inline(d, true, s.skip("> "@.len() as int)))]
    } else if d == ContentStyle::Roam && spec_attribute(d, s) is Some {
        let (name, value) = spec_attribute(d, s)->Some_0;
        seq![SpecExpr::Attribute { name, value }]
    } else if d == ContentStyle::Logseq && spec_logseq_todo(s) is Some {
        let (u, done) = spec_logseq_todo(s)->Some_0;
        let rest = if 0 <= u <= s.len() {
            s.skip(u)
        } else {
            s
        };
        seq![SpecExpr::Todo { done }] + spec_parse_inline(d, true, rest)
    } else {
        spec_parse_inline(d, true, s)
    }
}

/// Recognizes a styled span fenced by `boundary` and parses its contents.
pub fn style(d: ContentStyle, boundary: &str, input: &str) -> (r: Option<(usize, Vec<Expression>)>)
    requires
        1 <= boundary@.len(),
    ensures
        (match r {
            Some((u, exprs)) => spec_style(d, boundary@, input@) == Some(
                (u as int, view_exprs(exprs@)),
            ) && 1 <= u <= input@.len(),
            None => spec_style(d, boundary@, input@) is None,
        }),
    decreases input@.len(), 0int, 0int,
{
    match crate::grammar::fenced(boundary, boundary, input) {
        Some((u, inner)) => {
            let exprs = parse_inline(d, false, inner.as_str());
            Some((u, exprs))
        },
        None => None,
    }
}

/// Recognizes a bold span in the dialect that uses `**` alone.
pub fn roam_bold(d: ContentStyle, input: &str) -> (r: Option<(usize, Vec<Expression>)>)
    ensures
        (match r {
            Some((u, exprs)) => spec_style(d, "**"@, input@) == Some(
                (u as int, view_exprs(exprs@)),
            ) && 1 <= u <= input@.len(),
            None => spec_style(d, "**"@, input@) is None,
        }),
    decreases input@.len(), 0int, 1int,
{
    proof {
        reveal_strlit("**");
    }
    style(d, "**", input)
}

/// Recognizes a bold span in the dialect that also allows `__`.
pub fn logseq_bold(d: ContentStyle, input: &str) -> (r: Option<(usize, Vec<Expression>)>)
    ensures
        (match r {
            Some((u, exprs)) => (match spec_style(d, "**"@, input@) {
                Some(x) => Some(x),
                None => spec_style(d, "__"@, input@),
            }) == Some((u as int, view_exprs(exprs@))) && 1 <= u <= input@.len(),
            None => spec_style(d, "**"@, input@) is None && spec_style(d, "__"@, input@) is None,
        }),
    decreases input@.len(), 0int, 1int,
{
    proof {
        reveal_strlit("**");
        reveal_strlit("__");
    }
    match style(d, "**", input) {
        Some(r) => Some(r),
        None => style(d, "__", input),
    }
}

/// Recognizes an italic span in the dialect that uses `__`.
pub fn roam_italic(d: ContentStyle, input: &str) -> (r: Option<(usize, Vec<Expression>)>)
    ensures
        (match r {
            Some((u, exprs)) => spec_style(d, "__"@, input@) == Some(
                (u as int, view_exprs(exprs@)),
            ) && 1 <= u <= input@.len(),
            None => spec_style(d, "__"@, input@) is None,
        }),
    decreases input@.len(), 0int, 1int,
{
    proof {
        reveal_strlit("__");
    }
    style(d, "__", input)
}

/// Recognizes an italic span in the dialect that uses `_` or `*`.
pub fn logseq_italic(d: ContentStyle, input: &str) -> (r: Option<(usize, Vec<Expression>)>)
    ensures
        (match r {
            Some((u, exprs)) => (match spec_style(d, "_"@, input@) {
                Some(x) => Some(x),
                None => spec_style(d, "*"@, input@),
            }) == Some((u as int, view_exprs(exprs@))) && 1 <= u <= input@.len(),
            None => spec_style(d, "_"@, input@) is None && spec_style(d, "*"@, input@) is None,
        }),
    decreases input@.len(), 0int, 1int,
{
    proof {
        reveal_strlit("_");
        reveal_strlit("*");
    }
    match style(d, "_", input) {
        Some(r) => Some(r),
        None => style(d, "*", input),
    }
}

/// Recognizes a strikethrough span.
pub fn strike(d: ContentStyle, input: &str) -> (r: Option<(usize, Vec<Expression>)>)
    ensures
        (match r {
            Some((u, exprs)) => spec_style(d, "~~"@, input@) == Some(
                (u as int, view_exprs(exprs@)),
            ) && 1 <= u <= input@.len(),
            None => spec_style(d, "~~"@, input@) is None,
        }),
    decreases input@.len(), 0int, 1int,
{
    proof {
        reveal_strlit("~~");
    }
    style(d, "~~", input)
}

/// Recognizes a highlight span.
pub fn highlight(d: ContentStyle, input: &str) -> (r: Option<(usize, Vec<Expression>)>)
    ensures
        (match r {
            Some((u, exprs)) => spec_style(d, "^^"@, input@) == Some(
                (u as int, view_exprs(exprs@)),
            ) && 1 <= u <= input@.len(),
            None => spec_style(d, "^^"@, input@) is None,
        }),
    decreases input@.len(), 0int, 1int,
{
    proof {
        reveal_strlit("^^");
    }
    style(d, "^^", input)
}

/// Classifies a recognized markdown-style link as internal or external.
fn md_link_expr(title: String, url: String) -> (e: Expression)
    ensures
        e@ == spec_md_link_expr(title@, url@),
{
    let ul = url.as_str().unicode_len();
    match link(url.as_str()) {
        Some((u2, page)) => {
            if u2 == ul {
                Expression::MarkdownInternalLink { label: title, page }
            } else {
                Expression::MarkdownExternalLink { title, url }
            }
        },
        None => Expression::MarkdownExternalLink { title, url },
    }
}

/// Recognizes an attribute `Name:: value`, returning the name and the
/// parsed value.
pub fn attribute(style: ContentStyle, input: &str) -> (r: Option<(String, Vec<Expression>)>)
    ensures
        (match r {
            Some((name, value)) => spec_attribute(style, input@) == Some(
                (name@, view_exprs(value@)),
            ),
            None => spec_attribute(style, input@) is None,
        }),
    decreases input@.len(), 0int, 0int,
{
    let n = input.unicode_len();
    if style == ContentStyle::Roam {
        let nl = run_end(CharClass::RoamAttrName, input, 0);
        if 0 < nl && nl < n && n - nl >= 2 && input.get_char(nl) == ':' && input.get_char(nl + 1)
            == ':' {
            let vs = run_end(CharClass::Multispace, input, nl + 2);
            let name = input.substring_char(0, nl).to_owned();
            let value = parse_inline(style, false, input.substring_char(vs, n));
            Some((name, value))
        } else {
            None
        }
    } else {
        let ws = run_end(CharClass::Multispace, input, 0);
        let ne = run_end(CharClass::AttrName, input, ws);
        if ws < ne && ne < n && n - ne >= 3 && input.get_char(ne) == ':' && input.get_char(ne + 1)
            == ':' && input.get_char(ne + 2) == ' ' {
            let vs = run_end(CharClass::Multispace, input, ne + 3);
            let name = input.substring_char(ws, ne).to_owned();
            let value = parse_inline(style, false, input.substring_char(vs, n));
            Some((name, value))
        } else {
            None
        }
    }
}

/// Tries the full directive grammar at the start of `input`.
pub fn directive(d: ContentStyle, allow_attribute: bool, input: &str) -> (r: Option<
    (usize, Expression),
>)
    ensures
        (match r {
            Some((u, e)) => spec_directive(d, allow_attribute, input@) == Some((u as int, e@)) && 1
                <= u <= input@.len(),
            None => spec_directive(d, allow_attribute, input@) is None,
        }),
    decreases input@.len(), 1int, 0int,
{
    match triple_backtick(input) {
        Some((u, inner)) => {
            return Some((u, Expression::TripleBacktick(inner)));
        },
        None => {},
    }
    match single_backtick(input) {
        Some((u, inner)) => {
            return Some((u, Expression::SingleBacktick(inner)));
        },
        None => {},
    }
    match brace_directive(d, input) {
        Some((u, e)) => {
            return Some((u, e));
        },
        None => {},
    }
    match hashtag(input) {
        Some((u, t, dot)) => {
            return Some((u, Expression::Hashtag(t, dot)));
        },
        None => {},
    }
    match link(input) {
        Some((u, inner)) => {
            return Some((u, Expression::Link(inner)));
        },
        None => {},
    }
    match block_ref(input) {
        Some((u, inner)) => {
            return Some((u, Expression::BlockRef(inner)));
        },
        None => {},
    }
    match image(input) {
        Some((u, alt, url)) => {
            return Some((u, Expression::Image { alt, url }));
        },
        None => {},
    }
    match raw_html(input) {
        Some((u, inner)) => {
            return Some((u, Expression::RawHtml(inner)));
        },
        None => {},
    }
    match markdown_link(input) {
        Some((u, title, url)) => {
            return Some((u, md_link_expr(title, url)));
        },
        None => {},
    }
    if d == ContentStyle::Roam {
        match roam_bold(d, input) {
            Some((u, exprs)) => {
                return Some((u, Expression::Bold(exprs)));
            },
            None => {},
        }
        match roam_italic(d, input) {
            Some((u, exprs)) => {
                return Some((u, Expression::Italic(exprs)));
            },
            None => {},
        }
    } else {
        match logseq_bold(d, input) {
            Some((u, exprs)) => {
                return Some((u, Expression::Bold(exprs)));
            },
            None => {},
        }
        match logseq_italic(d, input) {
            Some((u, exprs)) => {
                return Some((u, Expression::Italic(exprs)));
            },
            None => {},
        }
    }
    match strike(d, input) {
        Some((u, exprs)) => {
            return Some((u, Expression::Strike(exprs)));
        },
        None => {},
    }
    match highlight(d, input) {
        Some((u, exprs)) => {
            return Some((u, Expression::Highlight(exprs)));
        },
        None => {},
    }
    match latex(input) {
        Some((u, inner)) => {
            return Some((u, Expression::Latex(inner)));
        },
        None => {},
    }
    match raw_url(input) {
        Some(e) => {
            let url = input.substring_char(0, e).to_owned();
            return Some((e, Expression::RawHyperlink(url)));
        },
        None => {},
    }
    if allow_attribute {
        match attribute(d, input) {
            Some((name, value)) => {
                let n = input.unicode_len();
                return Some((n, Expression::Attribute { name, value }));
            },
            None => {},
        }
    }
    None
}

/// The inline scanner: parses `input` into the ordered sequence of nodes
/// covering all of it. Always succeeds; what no directive matches becomes
/// literal text.
pub fn parse_inline(d: ContentStyle, in_attribute: bool, input: &str) -> (r: Vec<Expression>)
    ensures
        view_exprs(r@) == spec_parse_inline(d, in_attribute, input@),
    decreases input@.len(), 3int, 0int,
{
    if input.unicode_len() == 0 {
        Vec::new()
    } else {
        inline_scan(d, in_attribute, input, 0)
    }
}

/// One round of the scanner's search from offset `k`.
fn inline_scan(d: ContentStyle, in_attribute: bool, s: &str, k: usize) -> (r: Vec<Expression>)
    requires
        k <= s@.len(),
    ensures
        view_exprs(r@) == spec_scan(d, in_attribute, s@, k as int),
    decreases s@.len(), 2int, s@.len() - k,
{
    let n = s.unicode_len();
    if k >= n {
        let t = Expression::Text(s.to_owned());
        let mut out: Vec<Expression> = Vec::new();
        out.push(t);
        proof {
            assert(out@ =~= Seq::empty().push(out@[0]));
            lemma_view_exprs_push(Seq::empty(), out@[0]);
            assert(view_exprs(out@) =~= seq![SpecExpr::Text(s@)]);
        }
        out
    } else {
        match directive(d, in_attribute, s.substring_char(k, n)) {
            Some((used, e)) => {
                let ghost spec_e = e@;
                let mut out: Vec<Expression> = Vec::new();
                if k > 0 {
                    let t = Expression::Text(s.substring_char(0, k).to_owned());
                    out.push(t);
                }
                let ghost base = out@;
                out.push(e);
                let consumed = k + used;
                let mut rest = parse_inline(d, in_attribute, s.substring_char(consumed, n));
                let ghost rest_view = rest@;
                out.append(&mut rest);
                proof {
                    assert(out@ == base.push(e) + rest_view);
                    lemma_view_exprs_concat(base.push(e), rest_view);
                    lemma_view_exprs_push(base, e);
                    if k > 0 {
                        assert(base =~= Seq::<Expression>::empty().push(base.last()));
                        lemma_view_exprs_push(Seq::<Expression>::empty(), base.last());
                        assert(base.last()@ == SpecExpr::Text(s@.take(k as int)));
                        assert(view_exprs(base) =~= seq![SpecExpr::Text(s@.take(k as int))]);
                    } else {
                        assert(view_exprs(base) =~= Seq::<SpecExpr>::empty());
                    }
                    assert(view_exprs(out@) =~= spec_scan(d, in_attribute, s@, k as int));
                }
                out
            },
            None => inline_scan(d, in_attribute, s, k + 1),
        }
    }
}

/// The block classifier and entry point: parses one block of text under the
/// given dialect. Always returns the node sequence the spec grammar gives;
/// the error arm exists for callers but is never produced, since the final
/// fallback emits plain text for whatever nothing else matched.
pub fn parse(content_style: ContentStyle, input: &str) -> (r: Result<Vec<Expression>, ParseError>)
    ensures
        r is Ok,
        (r matches Ok(v) ==> view_exprs(v@) == spec_parse(content_style, input@)),
{
    let n = input.unicode_len();
    if occurs_at(input, "---", 0) && n == "---".unicode_len() {
        let mut v: Vec<Expression> = Vec::new();
        v.push(Expression::HRule);
        proof {
            assert(v@ =~= Seq::empty().push(Expression::HRule));
            lemma_view_exprs_push(Seq::empty(), Expression::HRule);
            assert(view_exprs(v@) =~= spec_parse(content_style, input@));
        }
        return Ok(v);
    }
    if occurs_at(input, "> ", 0) {
        let p = "> ".unicode_len();
        let inner = parse_inline(content_style, true, input.substring_char(p, n));
        let e = Expression::BlockQuote(inner);
        let mut v: Vec<Expression> = Vec::new();
        v.push(e);
        proof {
            assert(v@ =~= Seq::empty().push(e));
            lemma_view_exprs_push(Seq::empty(), e);
            assert(view_exprs(v@) =~= spec_parse(content_style, input@));
        }
        return Ok(v);
    }
    if content_style == ContentStyle::Roam {
        match attribute(content_style, input) {
            Some((name, value)) => {
                let e = Expression::Attribute { name, value };
                let mut v: Vec<Expression> = Vec::new();
                v.push(e);
                proof {
                    assert(v@ =~= Seq::empty().push(e));
                    lemma_view_exprs_push(Seq::empty(), e);
                    assert(view_exprs(v@) =~= spec_parse(content_style, input@));
                }
                return Ok(v);
            },
            None => {},
        }
    }
    if content_style == ContentStyle::Logseq {
        match logseq_todo(input) {
            Some((u, done)) => {
                let mut v: Vec<Expression> = Vec::new();
                v.push(Expression::Todo { done });
                let ghost base = v@;
                let mut rest = parse_inline(content_style, true, input.substring_char(u, n));
                let ghost rest_view = rest@;
                v.append(&mut rest);
                proof {
                    lemma_view_exprs_concat(base, rest_view);
                    assert(base =~= Seq::empty().push(Expression::Todo { done }));
                    lemma_view_exprs_push(Seq::empty(), Expression::Todo { done });
                    assert(view_exprs(v@) =~= spec_parse(content_style, input@));
                }
                return Ok(v);
            },
            None => {},
        }
    }
    Ok(parse_inline(content_style, true, input))
}

} // verus!
