use shire_core::balance::take_until_unbalanced;
use shire_core::expression::{ContentStyle, Expression};
use shire_core::grammar::{hashtag, link_or_word};
use shire_core::parser::{parse, parse_inline};

fn text(s: &str) -> Expression {
    Expression::Text(s.to_string())
}

#[test]
fn scanner_succeeds_on_every_input() {
    // The inline scanner and the block classifier are total: any input, any
    // dialect, and the final fallback emits plain text.
    for input in ["", "((", "[[", "{{", "**", "\\", "a\\", "::", "`", "> "] {
        assert!(parse(ContentStyle::Roam, input).is_ok());
        assert!(parse(ContentStyle::Logseq, input).is_ok());
    }
}

#[test]
fn empty_input_gives_no_nodes() {
    assert_eq!(parse(ContentStyle::Roam, "").unwrap(), vec![]);
    assert_eq!(parse_inline(ContentStyle::Logseq, true, ""), vec![]);
}

#[test]
fn balanced_brackets_consume_everything() {
    // Equal, properly nested delimiters: the whole input is the prefix and
    // the leftover is empty.
    let input = "a(b(c)d)e";
    assert_eq!(take_until_unbalanced('(', ')', input), Some(input.chars().count()));
}

#[test]
fn unmatched_close_stops_the_scan() {
    // An unmatched close before its open: the scan stops at index 0 even
    // though the counts are equal.
    assert_eq!(take_until_unbalanced('(', ')', ")("), Some(0));
}

#[test]
fn unclosed_open_fails() {
    assert_eq!(take_until_unbalanced('(', ')', "(a"), None);
}

#[test]
fn escaped_close_is_not_the_unmatched_close() {
    // Scanning `a\)b)`: the escaped close after `a` is skipped; the
    // unmatched close is the one after `b`.
    assert_eq!(take_until_unbalanced('(', ')', r"a\)b)"), Some(4));
}

#[test]
fn bold_parses_under_both_dialects() {
    let expected = vec![Expression::Bold(vec![text("x")])];
    assert_eq!(parse(ContentStyle::Roam, "**x**").unwrap(), expected);
    assert_eq!(parse(ContentStyle::Logseq, "**x**").unwrap(), expected);
}

#[test]
fn single_underscore_italic_diverges_by_dialect() {
    assert_eq!(
        parse(ContentStyle::Logseq, "_x_").unwrap(),
        vec![Expression::Italic(vec![text("x")])]
    );
    assert_eq!(parse(ContentStyle::Roam, "_x_").unwrap(), vec![text("_x_")]);
}

#[test]
fn bare_todo_keyword_diverges_by_dialect() {
    assert_eq!(
        parse(ContentStyle::Logseq, "TODO x").unwrap(),
        vec![Expression::Todo { done: false }, text(" x")]
    );
    assert_eq!(parse(ContentStyle::Roam, "TODO x").unwrap(), vec![text("TODO x")]);
}

#[test]
fn double_underscore_diverges_by_dialect() {
    assert_eq!(
        parse(ContentStyle::Roam, "__x__").unwrap(),
        vec![Expression::Italic(vec![text("x")])]
    );
    assert_eq!(
        parse(ContentStyle::Logseq, "__x__").unwrap(),
        vec![Expression::Bold(vec![text("x")])]
    );
}

#[test]
fn star_italic_in_logseq_only() {
    assert_eq!(
        parse(ContentStyle::Logseq, "*x*").unwrap(),
        vec![Expression::Italic(vec![text("x")])]
    );
    assert_eq!(parse(ContentStyle::Roam, "*x*").unwrap(), vec![text("*x*")]);
}

#[test]
fn trailing_punctuation_excluded_from_url() {
    assert_eq!(
        parse(ContentStyle::Roam, "at https://example.com/def.").unwrap(),
        vec![
            text("at "),
            Expression::RawHyperlink("https://example.com/def".to_string()),
            text("."),
        ]
    );
}

#[test]
fn markdown_link_reclassified_when_page_shaped() {
    assert_eq!(
        parse(ContentStyle::Roam, "[t]([[page]])").unwrap(),
        vec![Expression::MarkdownInternalLink {
            label: "t".to_string(),
            page: "page".to_string(),
        }]
    );
    assert_eq!(
        parse(ContentStyle::Roam, "[t](u)").unwrap(),
        vec![Expression::MarkdownExternalLink {
            title: "t".to_string(),
            url: "u".to_string(),
        }]
    );
}

#[test]
fn attribute_keeps_extra_colons_in_value() {
    assert_eq!(
        parse(ContentStyle::Roam, "Source:: some blog").unwrap(),
        vec![Expression::Attribute {
            name: "Source".to_string(),
            value: vec![text("some blog")],
        }]
    );
    assert_eq!(
        parse(ContentStyle::Roam, " My Score::: too :: high").unwrap(),
        vec![Expression::Attribute {
            name: " My Score".to_string(),
            value: vec![text(": too :: high")],
        }]
    );
}

#[test]
fn nested_formatting_with_hashtag() {
    assert_eq!(
        parse(ContentStyle::Roam, "**Algo** #tag").unwrap(),
        vec![
            Expression::Bold(vec![text("Algo")]),
            text(" "),
            Expression::Hashtag("tag".to_string(), false),
        ]
    );
}

#[test]
fn hrule_is_exactly_three_dashes() {
    assert_eq!(parse(ContentStyle::Roam, "---").unwrap(), vec![Expression::HRule]);
    assert_eq!(parse(ContentStyle::Roam, "----").unwrap(), vec![text("----")]);
}

#[test]
fn latex_span() {
    assert_eq!(
        parse(ContentStyle::Roam, "$$x^2$$ y").unwrap(),
        vec![Expression::Latex("x^2".to_string()), text(" y")]
    );
}

#[test]
fn strike_and_highlight_spans() {
    assert_eq!(
        parse(ContentStyle::Logseq, "~~old~~ ^^new^^").unwrap(),
        vec![
            Expression::Strike(vec![text("old")]),
            text(" "),
            Expression::Highlight(vec![text("new")]),
        ]
    );
}

#[test]
fn raw_html_span() {
    assert_eq!(
        parse(ContentStyle::Roam, "@@html: <b>x</b>@@").unwrap(),
        vec![Expression::RawHtml("<b>x</b>".to_string())]
    );
}

#[test]
fn video_brace_directive() {
    assert_eq!(
        parse(ContentStyle::Roam, "{{video https://example.com/v.mp4}}").unwrap(),
        vec![Expression::Video { url: "https://example.com/v.mp4".to_string() }]
    );
}

#[test]
fn embed_separator_diverges_by_dialect() {
    assert_eq!(
        parse(ContentStyle::Roam, "{{embed: [[a page]]}}").unwrap(),
        vec![Expression::PageEmbed("a page".to_string())]
    );
    assert_eq!(
        parse(ContentStyle::Logseq, "{{embed ((a ref))}}").unwrap(),
        vec![Expression::BlockEmbed("a ref".to_string())]
    );
}

#[test]
fn empty_backticks_stay_text() {
    assert_eq!(parse(ContentStyle::Roam, "``").unwrap(), vec![text("``")]);
}

#[test]
fn unclosed_link_stays_text() {
    assert_eq!(parse(ContentStyle::Roam, "[[open").unwrap(), vec![text("[[open")]);
}

#[test]
fn bare_hash_stays_text() {
    assert_eq!(parse(ContentStyle::Roam, "# ").unwrap(), vec![text("# ")]);
}

#[test]
fn whole_input_url() {
    assert_eq!(
        parse(ContentStyle::Logseq, "https://example.org/a?b=c").unwrap(),
        vec![Expression::RawHyperlink("https://example.org/a?b=c".to_string())]
    );
}

#[test]
fn link_or_word_prefers_link() {
    assert_eq!(link_or_word("[[a]] rest"), Some((5, "a".to_string())));
    assert_eq!(link_or_word("hello world"), Some((5, "hello".to_string())));
    assert_eq!(link_or_word(" leading"), None);
}

#[test]
fn hashtag_components() {
    assert_eq!(hashtag("#.tag rest"), Some((5, "tag".to_string(), true)));
    assert_eq!(hashtag("#[[a b]]"), Some((8, "a b".to_string(), false)));
    assert_eq!(hashtag("plain"), None);
}

#[test]
fn contained_expressions_of_containers() {
    let bold = Expression::Bold(vec![text("x"), text("y")]);
    assert_eq!(bold.contained_expressions(), &[text("x"), text("y")]);
    let attr = Expression::Attribute { name: "n".to_string(), value: vec![text("v")] };
    assert_eq!(attr.contained_expressions(), &[text("v")]);
    assert_eq!(text("leaf").contained_expressions(), &[] as &[Expression]);
    assert_eq!(Expression::HRule.contained_expressions(), &[] as &[Expression]);
}

#[test]
fn nested_spans_disallow_attributes() {
    // Inside a styled span a double colon is never an attribute.
    assert_eq!(
        parse(ContentStyle::Logseq, "**a:: b**").unwrap(),
        vec![Expression::Bold(vec![text("a:: b")])]
    );
    // The leading colon keeps the whole block from being one attribute.
    assert_eq!(
        parse(ContentStyle::Roam, ":**a:: b**").unwrap(),
        vec![text(":"), Expression::Bold(vec![text("a:: b")])]
    );
}
