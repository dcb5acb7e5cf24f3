use lemoncraft::rich_text::{parse, tokenize, RichText, TextSegment, Token};

fn resolver(tag: &str) -> Option<u8> {
    match tag {
        "a" | "b" => Some(tag.len() as u8),
        _ => None,
    }
}

fn segments_of(text: &str) -> Vec<TextSegment<'_, u8>> {
    parse(text, resolver)
}

#[test]
fn parses_simple_text() {
    let segments = segments_of("hello world");
    assert_eq!(segments, vec![TextSegment::Text("hello world")]);
}

#[test]
fn parses_icons_between_text() {
    let segments = segments_of("press :a: to jump");
    assert_eq!(
        segments,
        vec![TextSegment::Text("press "), TextSegment::Image(1), TextSegment::Text(" to jump")]
    );
}

#[test]
fn parses_newlines() {
    let segments = segments_of("line1\nline2");
    assert_eq!(
        segments,
        vec![TextSegment::Text("line1"), TextSegment::Newline, TextSegment::Text("line2")]
    );
}

#[test]
fn newline_after_icon() {
    let segments = segments_of(":a:\n:bar:");
    assert_eq!(
        segments,
        vec![TextSegment::Image(1), TextSegment::Newline, TextSegment::Text(":bar:")]
    );
}

#[test]
fn empty_string_yields_no_segments() {
    assert!(segments_of("").is_empty());
}

#[test]
fn unknown_tags_stay_literal() {
    let segments = segments_of("x :unknown: y");
    assert_eq!(
        segments,
        vec![TextSegment::Text("x "), TextSegment::Text(":unknown:"), TextSegment::Text(" y")]
    );
}

#[test]
fn line_count() {
    let rich = RichText::<()>::new("a\nb\nc", |_: &str| None);
    assert_eq!(rich.line_count(), 3);
    let rich = RichText::<()>::new("abc", |_: &str| None);
    assert_eq!(rich.line_count(), 1);
}

/// The pieces of the text, joined back together.
fn joined(tokens: &[Token<'_>]) -> String {
    let mut s = String::new();
    for t in tokens {
        match t {
            Token::Text(x) => s.push_str(x),
            Token::Tag { whole, .. } => s.push_str(whole),
            Token::Newline => s.push('\n'),
        }
    }
    s
}

#[test]
fn tokens_join_back_to_the_input() {
    for input in ["", "plain", "a :b: c", "::", ":a::b:", "x\n\n:y", "a: b :c", ": x :", "é :ü: ß"] {
        assert_eq!(joined(&tokenize(input)), input);
    }
}

#[test]
fn tags_need_a_name_without_whitespace() {
    assert_eq!(tokenize("::"), vec![Token::Text("::")]);
    assert_eq!(tokenize(": a:"), vec![Token::Text(": a:")]);
    assert_eq!(tokenize(":a b:"), vec![Token::Text(":a b:")]);
    assert_eq!(tokenize(":a::b:"), vec![
        Token::Tag { whole: ":a:", name: "a" },
        Token::Tag { whole: ":b:", name: "b" },
    ]);
}

#[test]
fn tag_scanner_matches_the_tag_pattern() {
    let re = regex::Regex::new(r":(?P<tag>[^:\s]+):").unwrap();
    let inputs = [
        "press :a: to jump",
        ":a::b:",
        "a :: b :c: d",
        "x :y z: w :q:",
        ":\u{3000}: :ok:",
        "no tags at all",
        ":trailing",
        "::::a:",
    ];
    for input in inputs {
        let expected: Vec<&str> = re.captures_iter(input).map(|c| c.name("tag").unwrap().as_str()).collect();
        let found: Vec<&str> = tokenize(input)
            .into_iter()
            .filter_map(|t| match t {
                Token::Tag { name, .. } => Some(name),
                _ => None,
            })
            .collect();
        assert_eq!(found, expected, "input {input:?}");
    }
}

#[test]
fn newlines_count_lines() {
    let rich = RichText::new(":a:\n\nx", resolver);
    assert_eq!(rich.line_count(), 3);
    assert_eq!(rich.segments().len(), 4);
}

#[test]
fn segments_write_back_to_the_input() {
    for input in ["", "a\n\nb", ":a: :x: :b:\n", "\n:a:\n", "x :a::b: y :: z"] {
        let tokens = tokenize(input);
        let segments = parse(input, resolver);
        assert_eq!(tokens.len(), segments.len());
        let mut written = String::new();
        for (seg, tok) in segments.iter().zip(tokens.iter()) {
            match (seg, tok) {
                (TextSegment::Text(x), _) => {
                    assert!(!x.is_empty() && !x.contains('\n'), "segment {x:?}");
                    written.push_str(x);
                },
                (TextSegment::Newline, _) => written.push('\n'),
                (TextSegment::Image(_), Token::Tag { whole, .. }) => written.push_str(whole),
                (TextSegment::Image(_), _) => panic!("image from a non-tag token"),
            }
        }
        assert_eq!(written, input);
        let newlines = segments.iter().filter(|s| matches!(s, TextSegment::Newline)).count();
        assert_eq!(newlines, input.matches('\n').count());
    }
}
