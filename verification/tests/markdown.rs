use synthia::markdown::{parse_inline_formatting, render_markdown, SpanStyle, StyledSpan};

fn view(spans: &[StyledSpan]) -> Vec<(&str, SpanStyle)> {
    spans.iter().map(|s| (s.text.as_str(), s.style)).collect()
}

#[test]
fn test_bold_text() {
    let lines = render_markdown("This is **bold** text");
    assert_eq!(lines.len(), 1);
    assert_eq!(lines[0].len(), 3);
}

#[test]
fn test_italic_text() {
    let lines = render_markdown("This is *italic* text");
    assert_eq!(lines.len(), 1);
    assert_eq!(lines[0].len(), 3);
}

#[test]
fn test_inline_code() {
    let lines = render_markdown("Use `cargo build` to compile");
    assert_eq!(lines.len(), 1);
    assert_eq!(lines[0].len(), 3);
}

#[test]
fn test_headers() {
    let lines = render_markdown("# Header 1\n## Header 2\n### Header 3");
    assert_eq!(lines.len(), 3);
}

#[test]
fn test_list_items() {
    let lines = render_markdown("- Item 1\n- Item 2\n* Item 3");
    assert_eq!(lines.len(), 3);
}

#[test]
fn test_code_block() {
    let text = "```\nfn main() {\n    println!(\"Hello\");\n}\n```";
    let lines = render_markdown(text);
    assert_eq!(lines.len(), 3);
}

#[test]
fn test_mixed_formatting() {
    let lines = render_markdown("**Bold** and *italic* with `code`");
    assert_eq!(lines.len(), 1);
    assert!(lines[0].len() >= 5);
}

#[test]
fn inline_spans_and_styles() {
    let chars: Vec<char> = "This is **bold** text".chars().collect();
    assert_eq!(
        view(&parse_inline_formatting(&chars)),
        vec![("This is ", SpanStyle::Plain), ("bold", SpanStyle::Bold), (" text", SpanStyle::Plain)]
    );
    let chars: Vec<char> = "**Bold** and *italic* with `code`".chars().collect();
    assert_eq!(
        view(&parse_inline_formatting(&chars)),
        vec![
            ("Bold", SpanStyle::Bold),
            (" and ", SpanStyle::Plain),
            ("italic", SpanStyle::Italic),
            (" with ", SpanStyle::Plain),
            ("code", SpanStyle::Code),
        ]
    );
    let empty: Vec<char> = "****".chars().collect();
    assert_eq!(view(&parse_inline_formatting(&empty)), vec![("****", SpanStyle::Plain)]);
    let unclosed: Vec<char> = "a `b".chars().collect();
    assert_eq!(view(&parse_inline_formatting(&unclosed)), vec![("a ", SpanStyle::Plain), ("b", SpanStyle::Code)]);
}

#[test]
fn block_elements() {
    let lines = render_markdown("# Title\n## Sub\n  - item *x*\n1. one\n12. twelve\n```\ncode\n```\nplain");
    assert_eq!(view(&lines[0]), vec![("Title", SpanStyle::Title)]);
    assert_eq!(view(&lines[1]), vec![("Sub", SpanStyle::Heading)]);
    assert_eq!(
        view(&lines[2]),
        vec![("  ", SpanStyle::Plain), ("• ", SpanStyle::Marker), ("item ", SpanStyle::Plain), ("x", SpanStyle::Italic)]
    );
    assert_eq!(view(&lines[3]), vec![("", SpanStyle::Plain), ("1. ", SpanStyle::Marker), ("one", SpanStyle::Plain)]);
    assert_eq!(view(&lines[4]), vec![("12. twelve", SpanStyle::Plain)]);
    assert_eq!(view(&lines[5]), vec![("  code", SpanStyle::Code)]);
    assert_eq!(view(&lines[6]), vec![("plain", SpanStyle::Plain)]);
    assert_eq!(lines.len(), 7);
    assert_eq!(render_markdown("```\nunclosed").len(), 0);
}
