use yaml_mapping_item::ast::{Content, ContentKind, Props, Span};
use yaml_mapping_item::comments::Comments;
use yaml_mapping_item::formatter::{FormatOptions, ProseWrap, YamlFormatter};
use yaml_mapping_item::scalar::{
    contains_char, has_backslash_continuation, has_blank_line, has_forced_break_when_folded,
    is_absolutely_single_line, is_inline, is_single_line, is_white_space, scalar_raw,
};

fn node(kind: ContentKind, start: u32, end: u32) -> Content {
    Content { kind, span: Span::new(start, end), props: Props { anchor: None, tag: None }, start }
}

fn formatter(source: &str, prose_wrap: ProseWrap) -> YamlFormatter<'_> {
    YamlFormatter::new(
        source,
        Comments::new(Vec::new()),
        FormatOptions { indent_width: 2, prose_wrap },
    )
}

fn whole(source: &str, kind: ContentKind) -> Content {
    node(kind, 0, source.len() as u32)
}

const WRAPS: [ProseWrap; 3] = [ProseWrap::Always, ProseWrap::Never, ProseWrap::Preserve];

const KINDS: [ContentKind; 10] = [
    ContentKind::Plain,
    ContentKind::QuoteSingle,
    ContentKind::QuoteDouble,
    ContentKind::BlockLiteral,
    ContentKind::BlockFolded,
    ContentKind::Mapping,
    ContentKind::Sequence,
    ContentKind::FlowMapping,
    ContentKind::FlowSequence,
    ContentKind::Alias,
];

/// Every text of up to `max` characters over an alphabet.
fn texts(alphabet: &[char], max: usize) -> Vec<String> {
    let mut all = vec![String::new()];
    let mut last = vec![String::new()];
    for _ in 0..max {
        let mut next = Vec::new();
        for text in &last {
            for c in alphabet {
                let mut longer = text.clone();
                longer.push(*c);
                next.push(longer);
            }
        }
        all.extend(next.iter().cloned());
        last = next;
    }
    all
}

#[test]
fn white_space_is_the_unicode_property() {
    for code in 0..=0x10FFFFu32 {
        if let Some(c) = char::from_u32(code) {
            assert_eq!(is_white_space(c), c.is_whitespace(), "U+{:04X}", code);
        }
    }
}

#[test]
fn contains_char_agrees_with_str() {
    for text in texts(&['a', ' ', '\n', '\u{e9}'], 5) {
        for c in ['a', ' ', '\n', '\u{e9}', 'x'] {
            assert_eq!(contains_char(&text, c), text.contains(c), "{:?}", text);
        }
    }
}

#[test]
fn blank_line_agrees_with_trimmed_lines() {
    for text in texts(&['a', ' ', '\n', '\r', '\u{3000}', '\u{200b}'], 6) {
        let expected = text.split('\n').skip(1).any(|line| line.trim().is_empty());
        assert_eq!(has_blank_line(&text), expected, "{:?}", text);
    }
}

#[test]
fn backslash_continuation_agrees_with_lines() {
    for text in texts(&['a', '\\', '\n', ' ', '\u{e9}'], 6) {
        let expected = text.split('\n').any(|line| line.ends_with('\\'));
        assert_eq!(has_backslash_continuation(&text), expected, "{:?}", text);
    }
}

#[test]
fn blank_line_edges() {
    assert!(!has_blank_line(""));
    assert!(!has_blank_line("   "));
    assert!(!has_blank_line("a\nb"));
    assert!(!has_blank_line("\na"));
    assert!(has_blank_line("\n"));
    assert!(has_blank_line("a\n"));
    assert!(has_blank_line("a\n\t \nb"));
    assert!(has_blank_line("a\n\u{2003}\nb"));
}

#[test]
fn backslash_continuation_edges() {
    assert!(!has_backslash_continuation(""));
    assert!(!has_backslash_continuation("a\\b\nc"));
    assert!(has_backslash_continuation("\\"));
    assert!(has_backslash_continuation("a\\\nb"));
    assert!(has_backslash_continuation("a\nb\\"));
    assert!(!has_backslash_continuation("a\\ \nb"));
}

#[test]
fn scalar_raw_slices_between_characters() {
    let source = "k: \u{e9}t\u{e9} \u{1F600} end";
    let start = source.find('\u{e9}').unwrap() as u32;
    let end = source.find(" end").unwrap() as u32;
    let f = formatter(source, ProseWrap::Preserve);
    for kind in KINDS {
        let raw = scalar_raw(&node(kind, start, end), &f);
        let expected = match kind {
            ContentKind::Plain | ContentKind::QuoteSingle | ContentKind::QuoteDouble => {
                Some("\u{e9}t\u{e9} \u{1F600}")
            }
            _ => None,
        };
        assert_eq!(raw, expected, "{:?}", kind);
    }
    assert_eq!(scalar_raw(&node(ContentKind::Plain, 0, 0), &f), Some(""));
    assert_eq!(scalar_raw(&whole(source, ContentKind::Plain), &f), Some(source));
}

#[test]
fn inline_kinds() {
    assert!(is_inline(None));
    for kind in KINDS {
        let expected = !matches!(
            kind,
            ContentKind::Mapping
                | ContentKind::Sequence
                | ContentKind::BlockLiteral
                | ContentKind::BlockFolded
        );
        assert_eq!(is_inline(Some(node(kind, 0, 0))), expected, "{:?}", kind);
    }
}

#[test]
fn single_line_by_kind() {
    for source in ["one", "one\ntwo"] {
        let f = formatter(source, ProseWrap::Preserve);
        assert!(is_single_line(None, &f));
        for kind in KINDS {
            let expected = match kind {
                ContentKind::Alias => true,
                ContentKind::Plain | ContentKind::QuoteSingle | ContentKind::QuoteDouble => {
                    source == "one"
                }
                _ => false,
            };
            assert_eq!(is_single_line(Some(whole(source, kind)), &f), expected, "{:?}", kind);
        }
    }
}

#[test]
fn absolutely_single_line_by_prose_wrap() {
    let cases: [(&str, bool, bool, bool); 7] = [
        // text, always, never, preserve
        ("word", true, true, true),
        ("two words", false, true, true),
        ("two\nlines", false, true, false),
        ("two\n\nparagraphs", false, false, false),
        ("\"a\\\nb\"", false, false, false),
        ("ends\\", false, false, true),
        ("", true, true, true),
    ];
    for (source, always, never, preserve) in cases {
        for (wrap, expected) in
            [(ProseWrap::Always, always), (ProseWrap::Never, never), (ProseWrap::Preserve, preserve)]
        {
            let f = formatter(source, wrap);
            let content = Some(whole(source, ContentKind::QuoteDouble));
            assert_eq!(is_absolutely_single_line(content, &f), expected, "{:?} {:?}", source, wrap);
        }
    }
}

#[test]
fn absolutely_single_line_without_text() {
    for wrap in WRAPS {
        let f = formatter("a\n\nb", wrap);
        assert!(is_absolutely_single_line(None, &f));
        assert!(is_absolutely_single_line(Some(node(ContentKind::Alias, 0, 4)), &f));
        assert!(!is_absolutely_single_line(Some(node(ContentKind::FlowMapping, 0, 1)), &f));
        assert!(!is_absolutely_single_line(Some(node(ContentKind::BlockLiteral, 0, 1)), &f));
    }
}

#[test]
fn forced_break_when_folded() {
    let cases = [("a b", false), ("a\nb", false), ("a\n\nb", true), ("a\\\nb", true)];
    for (source, expected) in cases {
        let f = formatter(source, ProseWrap::Always);
        let content = Some(whole(source, ContentKind::QuoteDouble));
        assert_eq!(has_forced_break_when_folded(content, &f), expected, "{:?}", source);
    }
    let f = formatter("a", ProseWrap::Always);
    assert!(!has_forced_break_when_folded(None, &f));
    // Nothing but a flow scalar is folded.
    assert!(has_forced_break_when_folded(Some(node(ContentKind::Alias, 0, 1)), &f));
    assert!(has_forced_break_when_folded(Some(node(ContentKind::FlowSequence, 0, 1)), &f));
}

#[test]
fn prose_wrap_modes_relate() {
    for text in texts(&['a', ' ', '\n', '\\'], 5) {
        let content = Some(whole(&text, ContentKind::QuoteDouble));
        let always = formatter(&text, ProseWrap::Always);
        let never = formatter(&text, ProseWrap::Never);
        let preserve = formatter(&text, ProseWrap::Preserve);
        assert_eq!(
            is_absolutely_single_line(content, &preserve),
            is_single_line(content, &preserve)
        );
        assert_eq!(
            is_absolutely_single_line(content, &never),
            !has_forced_break_when_folded(content, &never)
        );
        if is_absolutely_single_line(content, &always) {
            assert!(is_absolutely_single_line(content, &never));
            assert!(is_absolutely_single_line(content, &preserve));
        }
    }
}
