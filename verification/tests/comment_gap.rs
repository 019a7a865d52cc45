use yaml_mapping_item::ast::{
    Content, ContentKind, MappingItem, MappingKey, MappingValue, Props, Span,
};
use yaml_mapping_item::comments::{is_source_ordered, Comment, Comments};
use yaml_mapping_item::formatter::{FormatOptions, ProseWrap, YamlFormatter};
use yaml_mapping_item::gap::{
    colon_position, has_comment_before_explicit_key, has_comment_following,
    has_own_line_comment_before_value, has_pending_comment_before, key_has_trailing_comment,
};

/// The comment that starts at `#` number `nth` and runs to the end of its line.
fn comment(source: &str, nth: usize) -> Comment {
    let start = source.match_indices('#').nth(nth).unwrap().0;
    let end = source[start..].find('\n').map_or(source.len(), |n| start + n);
    let line = source[..start].rfind('\n').map_or(0, |n| n + 1);
    Comment {
        span: Span::new(start as u32, end as u32),
        column: (start - line) as u32,
        own_line: source[line..start].trim().is_empty(),
    }
}

fn formatter(source: &str, comments: Vec<Comment>) -> YamlFormatter<'_> {
    YamlFormatter::new(
        source,
        Comments::new(comments),
        FormatOptions { indent_width: 2, prose_wrap: ProseWrap::Preserve },
    )
}

fn plain(source: &str, text: &str) -> Content {
    let start = source.find(text).unwrap() as u32;
    Content {
        kind: ContentKind::Plain,
        span: Span::new(start, start + text.len() as u32),
        props: Props { anchor: None, tag: None },
        start,
    }
}

fn pair(source: &str, key: &str, value: &str, explicit: bool) -> MappingItem {
    let key = plain(source, key);
    MappingItem {
        span: Span::new(0, source.len() as u32),
        column: 0,
        key: MappingKey {
            span: Span::new(if explicit { 0 } else { key.start }, key.span.end),
            content: Some(key),
            explicit,
        },
        value: MappingValue { content: Some(plain(source, value)) },
    }
}

fn at(start: u32, end: u32) -> Comment {
    Comment { span: Span::new(start, end), column: 0, own_line: true }
}

/// The scan, character by character, that the position is checked against.
fn scan(source: &str, from: usize, to: usize) -> Option<u32> {
    let mut inside = false;
    for (i, b) in source.bytes().enumerate() {
        if i < from {
            continue;
        }
        if i >= to {
            break;
        }
        match b {
            b'\n' => inside = false,
            b'#' => inside = true,
            b':' if !inside => return Some(i as u32),
            _ => {}
        }
    }
    None
}

#[test]
fn colon_position_skips_comments() {
    let source = "? key # a: b\n  # c: d\n: value";
    let colon = source.rfind(": value").unwrap() as u32;
    let value = source.find("value").unwrap() as u32;
    assert_eq!(colon_position(source, 5, value), Some(colon));
    // The bound cuts the search.
    assert_eq!(colon_position(source, 5, colon), None);
    assert_eq!(colon_position(source, 5, colon + 1), Some(colon));
    // A start inside the comment's text does not see the `#`.
    assert_eq!(colon_position(source, 8, value), Some(9));
}

#[test]
fn colon_position_edges() {
    assert_eq!(colon_position("", 0, 0), None);
    assert_eq!(colon_position("", 7, 9), None);
    assert_eq!(colon_position(":", 0, 1), Some(0));
    assert_eq!(colon_position(":", 0, u32::MAX), Some(0));
    assert_eq!(colon_position(":", 1, u32::MAX), None);
    assert_eq!(colon_position("# :", 0, 3), None);
    assert_eq!(colon_position("a:", 2, 1), None);
    assert_eq!(colon_position("\u{e9}:", 0, 3), Some(2));
}

#[test]
fn colon_position_agrees_with_scan() {
    let alphabet = ['a', ':', '#', '\n'];
    let mut sources = vec![String::new()];
    let mut last = vec![String::new()];
    for _ in 0..6 {
        let mut next = Vec::new();
        for text in &last {
            for c in alphabet {
                next.push(format!("{}{}", text, c));
            }
        }
        sources.extend(next.iter().cloned());
        last = next;
    }
    for source in sources {
        for from in 0..=source.len() {
            for to in 0..=source.len() + 1 {
                assert_eq!(
                    colon_position(&source, from as u32, to as u32),
                    scan(&source, from, to.min(source.len())),
                    "{:?} {} {}",
                    source,
                    from,
                    to
                );
            }
        }
    }
}

#[test]
fn cursor_takes_in_order() {
    let list = vec![at(2, 4), at(4, 9), at(12, 20)];
    let mut comments = Comments::new(list.clone());
    assert_eq!(comments.peek(), Some(list[0]));
    assert_eq!(comments.take_before(3), vec![]);
    assert_eq!(comments.take_before(9), vec![list[0], list[1]]);
    assert_eq!(comments.peek(), Some(list[2]));
    assert_eq!(comments.take_before(19), vec![]);
    assert_eq!(comments.take_first(), Some(list[2]));
    assert_eq!(comments.peek(), None);
    assert_eq!(comments.take_first(), None);
    assert_eq!(comments.take_before(100), vec![]);
}

#[test]
fn cursor_composes() {
    let list = vec![at(0, 3), at(5, 8), at(9, 10), at(11, 15)];
    for bound in 0..17 {
        for later in bound..17 {
            let mut steps = Comments::new(list.clone());
            let mut taken = steps.take_before(bound);
            taken.extend(steps.take_before(later));
            let mut once = Comments::new(list.clone());
            assert_eq!(taken, once.take_before(later));
            assert_eq!(steps.peek(), once.peek());
            assert!(taken.iter().all(|c| c.span.end <= later));
            assert!(steps.peek().map_or(true, |c| c.span.end > later));
        }
    }
}

#[test]
fn source_order() {
    assert!(is_source_ordered(&vec![]));
    assert!(is_source_ordered(&vec![at(0, 1), at(1, 2), at(5, 6)]));
    assert!(!is_source_ordered(&vec![at(3, 3)]));
    assert!(!is_source_ordered(&vec![at(4, 3)]));
    assert!(!is_source_ordered(&vec![at(0, 2), at(1, 3)]));
    assert!(!is_source_ordered(&vec![at(5, 6), at(0, 1)]));
}

#[test]
fn pending_before_bound() {
    let source = "k: v # c";
    let f = formatter(source, vec![comment(source, 0)]);
    assert!(!has_pending_comment_before(7, &f));
    assert!(has_pending_comment_before(8, &f));
    assert!(!has_pending_comment_before(u32::MAX, &formatter(source, vec![])));
}

#[test]
fn comment_following_over_blanks() {
    let source = "key \t # c";
    let f = formatter(source, vec![comment(source, 0)]);
    assert!(has_comment_following(3, &f));
    assert!(has_comment_following(6, &f));
    assert!(!has_comment_following(2, &f));
    assert!(!has_comment_following(7, &f));
    assert!(!has_comment_following(3, &formatter(source, vec![])));
    let colon = "key: # c";
    assert!(!has_comment_following(3, &formatter(colon, vec![comment(colon, 0)])));
    let line = "key\n# c";
    assert!(!has_comment_following(3, &formatter(line, vec![comment(line, 0)])));
}

#[test]
fn trailing_comment_of_key() {
    let source = "key: # c\n  value";
    let item = pair(source, "key", "value", false);
    let start = item.value.content.unwrap().start;
    let f = formatter(source, vec![comment(source, 0)]);
    assert!(key_has_trailing_comment(&item, start, &f));
    assert!(!key_has_trailing_comment(&item, 7, &f));
    assert!(!key_has_trailing_comment(&item, start, &formatter(source, vec![])));

    let below = "key:\n  # c\n  value";
    let item = pair(below, "key", "value", false);
    let start = item.value.content.unwrap().start;
    assert!(!key_has_trailing_comment(&item, start, &formatter(below, vec![comment(below, 0)])));

    let behind = "key: value # c";
    let item = pair(behind, "key", "value", false);
    let start = item.value.content.unwrap().start;
    assert!(!key_has_trailing_comment(&item, start, &formatter(behind, vec![comment(behind, 0)])));

    let before = "? # c\n  key\n: value";
    let item = pair(before, "key", "value", true);
    let start = item.value.content.unwrap().start;
    assert!(!key_has_trailing_comment(&item, start, &formatter(before, vec![comment(before, 0)])));
}

#[test]
fn comment_before_explicit_key() {
    let source = "? # c\n  key\n: value";
    let f = formatter(source, vec![comment(source, 0)]);
    assert!(has_comment_before_explicit_key(&pair(source, "key", "value", true), &f));
    assert!(!has_comment_before_explicit_key(&pair(source, "key", "value", false), &f));
    let mut keyless = pair(source, "key", "value", true);
    keyless.key.content = None;
    assert!(!has_comment_before_explicit_key(&keyless, &f));
    let after = "? key # c\n: value";
    let f = formatter(after, vec![comment(after, 0)]);
    assert!(!has_comment_before_explicit_key(&pair(after, "key", "value", true), &f));
}

#[test]
fn own_line_comment_before_value() {
    let source = "? key\n# c\n: value";
    let item = pair(source, "key", "value", true);
    let f = formatter(source, vec![comment(source, 0)]);
    assert!(has_own_line_comment_before_value(&item, &f));
    assert!(!has_own_line_comment_before_value(&item, &formatter(source, vec![])));

    let mut valueless = item;
    valueless.value.content = None;
    assert!(!has_own_line_comment_before_value(&valueless, &f));

    // On the key's line, behind the `:` on a later line, and behind the value.
    for source in ["? key # c\n: value", "? key\n: # c\n  value", "? key\n: value\n# c"] {
        let item = pair(source, "key", "value", true);
        let f = formatter(source, vec![comment(source, 0)]);
        assert!(!has_own_line_comment_before_value(&item, &f), "{:?}", source);
    }
}
