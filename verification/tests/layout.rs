use yaml_mapping_item::ast::{
    Content, ContentKind, MappingItem, MappingKey, MappingValue, Props, Span,
};
use yaml_mapping_item::comments::{Comment, Comments};
use yaml_mapping_item::formatter::{
    Deferred, Element, FormatOptions, Part, ProseWrap, YamlFormatter,
};
use yaml_mapping_item::mapping_item::{
    choose_layout, is_writable, write_comments_before_colon, write_key, write_key_end_comments,
    write_layout, write_mapping_item, write_pinned_value, write_value, FlowParent, Layout,
};

const NO_PROPS: Props = Props { anchor: None, tag: None };

fn node(source: &str, kind: ContentKind, text: &str) -> Content {
    let start = source.find(text).unwrap() as u32;
    Content { kind, span: Span::new(start, start + text.len() as u32), props: NO_PROPS, start }
}

fn item(source: &str, key: Option<Content>, value: Option<Content>, explicit: bool) -> MappingItem {
    let end = match (key, value) {
        (_, Some(value)) => value.span.end,
        (Some(key), None) => key.span.end,
        (None, None) => source.find(':').map_or(0, |n| n as u32 + 1),
    };
    let key_span = match key {
        Some(key) => Span::new(if explicit { 0 } else { key.start }, key.span.end),
        None => Span::new(0, 0),
    };
    MappingItem {
        span: Span::new(0, end),
        column: 0,
        key: MappingKey { span: key_span, content: key, explicit },
        value: MappingValue { content: value },
    }
}

/// All the comments of a source without a `#` outside comments.
fn comments(source: &str) -> Vec<Comment> {
    let mut list = Vec::new();
    let mut from = 0;
    while let Some(n) = source[from..].find('#') {
        let start = from + n;
        let end = source[start..].find('\n').map_or(source.len(), |n| start + n);
        let line = source[..start].rfind('\n').map_or(0, |n| n + 1);
        list.push(Comment {
            span: Span::new(start as u32, end as u32),
            column: (start - line) as u32,
            own_line: source[line..start].trim().is_empty(),
        });
        from = end;
    }
    list
}

fn formatter(source: &str, prose_wrap: ProseWrap) -> YamlFormatter<'_> {
    YamlFormatter::new(
        source,
        Comments::new(comments(source)),
        FormatOptions { indent_width: 4, prose_wrap },
    )
}

/// An item of two plain scalars.
fn scalars(source: &str, key: &str, value: &str) -> MappingItem {
    let explicit = source.starts_with('?');
    item(
        source,
        Some(node(source, ContentKind::Plain, key)),
        Some(node(source, ContentKind::Plain, value)),
        explicit,
    )
}

fn layout_of(source: &str, item: &MappingItem, in_flow: FlowParent, wrap: ProseWrap) -> Layout {
    let f = formatter(source, wrap);
    assert!(is_writable(item, &f), "{:?}", source);
    choose_layout(item, false, in_flow, &f)
}

fn block(source: &str, item: &MappingItem) -> Layout {
    layout_of(source, item, FlowParent::No, ProseWrap::Preserve)
}

fn written(source: &str, item: &MappingItem, in_flow: FlowParent) -> Vec<Element> {
    let mut f = formatter(source, ProseWrap::Preserve);
    assert!(is_writable(item, &f));
    write_mapping_item(item, false, in_flow, &mut f);
    f.elements
}

const EXPLICIT: [Element; 9] = [
    Element::Text("? "),
    Element::StartAlign(2),
    Element::Key,
    Element::EndAlign,
    Element::HardLineBreak,
    Element::Text(": "),
    Element::StartAlign(2),
    Element::Value,
    Element::EndAlign,
];

#[test]
fn empty_item() {
    let source = ":";
    let mut f = formatter(source, ProseWrap::Preserve);
    write_mapping_item(&item(source, None, None, false), false, FlowParent::No, &mut f);
    assert_eq!(f.elements, vec![Element::Text(": ")]);
}

#[test]
fn empty_item_takes_comment_on_its_line() {
    let source = ": \t# one\n# two";
    let all = comments(source);
    let mut f = formatter(source, ProseWrap::Preserve);
    write_mapping_item(&item(source, None, None, false), false, FlowParent::No, &mut f);
    assert_eq!(
        f.elements,
        vec![
            Element::Text(": "),
            Element::StartLineSuffix,
            Element::Comment(all[0].span),
            Element::EndLineSuffix,
            Element::ExpandParent,
        ]
    );
    assert_eq!(f.comments.peek(), Some(all[1]));
}

#[test]
fn empty_item_leaves_comment_below() {
    let source = ":\n# one";
    let mut f = formatter(source, ProseWrap::Preserve);
    write_mapping_item(&item(source, None, None, false), false, FlowParent::No, &mut f);
    assert_eq!(f.elements, vec![Element::Text(": ")]);
    assert_eq!(f.comments.peek(), Some(comments(source)[0]));
}

#[test]
fn lone_key_by_parent() {
    let source = "a";
    let key = item(source, Some(node(source, ContentKind::Plain, "a")), None, false);
    assert_eq!(written(source, &key, FlowParent::Mapping), vec![Element::Key]);
    assert_eq!(written(source, &key, FlowParent::Sequence), EXPLICIT[..4].to_vec());
    assert_eq!(written(source, &key, FlowParent::No), vec![Element::Key, Element::Text(":")]);
}

#[test]
fn explicit_key_without_value_is_normalized() {
    let source = "? key";
    let key = Some(node(source, ContentKind::Plain, "key"));
    assert_eq!(block(source, &item(source, key, None, true)), Layout::KeyColon);
    assert_eq!(block(source, &item(source, key, None, false)), Layout::KeyColon);
}

#[test]
fn key_without_value_stays_explicit() {
    // A comment right behind the key.
    let source = "? key # c";
    let key = Some(node(source, ContentKind::Plain, "key"));
    assert_eq!(block(source, &item(source, key, None, true)), Layout::ExplicitKey);
    // Behind the `:` it belongs to the value.
    let source = "key: # c";
    let key = Some(node(source, ContentKind::Plain, "key"));
    assert_eq!(block(source, &item(source, key, None, false)), Layout::KeyColon);
    // The parent has a tag.
    let source = "? key";
    let key = item(source, Some(node(source, ContentKind::Plain, "key")), None, true);
    let f = formatter(source, ProseWrap::Preserve);
    assert_eq!(choose_layout(&key, true, FlowParent::No, &f), Layout::ExplicitKey);
    // The key is on several lines.
    let source = "? one\n  two";
    let key = item(source, Some(node(source, ContentKind::Plain, "one\n  two")), None, true);
    assert_eq!(block(source, &key), Layout::ExplicitKey);
    assert_eq!(layout_of(source, &key, FlowParent::No, ProseWrap::Never), Layout::KeyColon);
    assert_eq!(layout_of(source, &key, FlowParent::No, ProseWrap::Always), Layout::ExplicitKey);
}

#[test]
fn alias_keeps_space_before_colon() {
    let source = "*a";
    let key = item(source, Some(node(source, ContentKind::Alias, "*a")), None, false);
    assert_eq!(
        written(source, &key, FlowParent::No),
        vec![Element::Key, Element::Space, Element::Text(":")]
    );
    let source = "*a : v";
    let pair = item(
        source,
        Some(node(source, ContentKind::Alias, "*a")),
        Some(node(source, ContentKind::Plain, "v")),
        false,
    );
    assert_eq!(
        written(source, &pair, FlowParent::No),
        vec![Element::Key, Element::Space, Element::Text(": "), Element::Value]
    );
    let source = "*a : [v]";
    let pair = item(
        source,
        Some(node(source, ContentKind::Alias, "*a")),
        Some(node(source, ContentKind::FlowSequence, "[v]")),
        false,
    );
    let elements = written(source, &pair, FlowParent::No);
    assert_eq!(elements.iter().filter(|e| **e == Element::Text(" :")).count(), 2);
    assert!(!elements.contains(&Element::Text(":")));
}

#[test]
fn empty_key() {
    let source = ": value";
    let value = item(source, None, Some(node(source, ContentKind::Plain, "value")), false);
    for in_flow in [FlowParent::No, FlowParent::Mapping, FlowParent::Sequence] {
        assert_eq!(written(source, &value, in_flow), EXPLICIT[5..].to_vec());
    }
}

#[test]
fn single_line_pair() {
    let source = "key: value";
    let pair = scalars(source, "key", "value");
    assert_eq!(
        written(source, &pair, FlowParent::No),
        vec![Element::Key, Element::Text(": "), Element::Value]
    );
    // A comment behind the value does not matter.
    let source = "key: value # c";
    assert_eq!(block(source, &scalars(source, "key", "value")), Layout::SingleLine);
    // An explicit key without comments prints in the implicit form.
    let source = "? key\n: value";
    assert_eq!(block(source, &scalars(source, "key", "value")), Layout::SingleLine);
}

#[test]
fn block_key_is_explicit() {
    for kind in [
        ContentKind::Mapping,
        ContentKind::Sequence,
        ContentKind::BlockLiteral,
        ContentKind::BlockFolded,
    ] {
        let source = "? - a\n: value";
        let pair = item(
            source,
            Some(node(source, kind, "- a")),
            Some(node(source, ContentKind::Plain, "value")),
            true,
        );
        let colon = source.find(':').unwrap() as u32;
        assert_eq!(block(source, &pair), Layout::ForcedExplicit { colon: Some(colon) });
    }
}

#[test]
fn explicit_form_without_colon_in_gap() {
    let source = "? - a\n  value";
    let pair = item(
        source,
        Some(node(source, ContentKind::Sequence, "- a")),
        Some(node(source, ContentKind::Plain, "value")),
        true,
    );
    assert_eq!(block(source, &pair), Layout::ForcedExplicit { colon: None });
    assert_eq!(written(source, &pair, FlowParent::No), EXPLICIT.to_vec());
}

#[test]
fn comments_force_explicit_only_where_source_is_explicit() {
    let before_key = "? # c\n  key\n: value";
    let pair = scalars(before_key, "key", "value");
    assert!(matches!(block(before_key, &pair), Layout::ForcedExplicit { .. }));
    let own_line = "? key\n# c\n: value";
    let pair = scalars(own_line, "key", "value");
    assert!(matches!(block(own_line, &pair), Layout::ForcedExplicit { .. }));
    let implicit = "key:\n  # c\n  value";
    let pair = scalars(implicit, "key", "value");
    assert_eq!(block(implicit, &pair), Layout::Pinned { hard_line: true });
}

#[test]
fn explicit_form_writes_comments_around_colon() {
    let source = "? - a\n  # deep: one\n  # deep: two\n# flat\n  # late\n: # behind\n  value";
    let all = comments(source);
    assert_eq!(all.len(), 5);
    let pair = item(
        source,
        Some(node(source, ContentKind::Sequence, "- a")),
        Some(node(source, ContentKind::Plain, "value")),
        true,
    );
    let colon = source.find("\n: ").unwrap() as u32 + 1;
    let mut f = formatter(source, ProseWrap::Preserve);
    write_mapping_item(&pair, false, FlowParent::No, &mut f);
    assert_eq!(
        f.elements,
        vec![
            Element::Text("? "),
            Element::StartAlign(2),
            Element::Key,
            Element::Deferred(Deferred::KeyEndComments { colon, column: 0 }),
            Element::EndAlign,
            Element::HardLineBreak,
            Element::Deferred(Deferred::CommentsBeforeColon { colon }),
            Element::Text(": "),
            Element::StartAlign(2),
            Element::Value,
            Element::EndAlign,
        ]
    );
    assert_eq!(f.comments.peek(), Some(all[0]));

    f.elements.clear();
    write_key_end_comments(colon, 0, &mut f);
    assert_eq!(
        f.elements,
        vec![
            Element::HardLineBreak,
            Element::Comment(all[0].span),
            Element::HardLineBreak,
            Element::Comment(all[1].span),
        ]
    );
    f.elements.clear();
    write_comments_before_colon(colon, &mut f);
    assert_eq!(
        f.elements,
        vec![
            Element::Comment(all[2].span),
            Element::HardLineBreak,
            Element::Comment(all[3].span),
            Element::HardLineBreak,
        ]
    );
    // The comment behind the `:` goes out with the value.
    assert_eq!(f.comments.peek(), Some(all[4]));
}

#[test]
fn key_end_comments_depend_on_column() {
    let source = "? - a\n  # c\n: value";
    let colon = source.find("\n: ").unwrap() as u32 + 1;
    for (column, taken) in [(0, true), (1, true), (2, false), (9, false)] {
        let mut f = formatter(source, ProseWrap::Preserve);
        write_key_end_comments(colon, column, &mut f);
        assert_eq!(f.elements.is_empty(), !taken);
        assert_eq!(f.comments.peek().is_none(), taken);
    }
    let mut f = formatter(source, ProseWrap::Preserve);
    write_key_end_comments(10, 0, &mut f);
    assert!(f.elements.is_empty());
}

#[test]
fn multiline_key() {
    let source = "? one\n  two\n: value";
    let pair = scalars(source, "one\n  two", "value");
    assert_eq!(block(source, &pair), Layout::Explicit);
    assert_eq!(written(source, &pair, FlowParent::No), EXPLICIT.to_vec());
    // Folding joins the lines.
    assert_eq!(
        layout_of(source, &pair, FlowParent::No, ProseWrap::Always),
        Layout::BestFitting { explicit_fallback: true }
    );
    assert_eq!(
        layout_of(source, &pair, FlowParent::No, ProseWrap::Never),
        Layout::BestFitting { explicit_fallback: false }
    );
}

#[test]
fn multiline_key_that_folding_keeps() {
    for (source, key) in
        [
            ("? one\n\n  two\n: value", "one\n\n  two"),
            ("? \"one\\\n  two\"\n: value", "\"one\\\n  two\""),
        ]
    {
        let pair = item(
            source,
            Some(node(source, ContentKind::QuoteDouble, key)),
            Some(node(source, ContentKind::Plain, "value")),
            true,
        );
        for wrap in [ProseWrap::Always, ProseWrap::Never, ProseWrap::Preserve] {
            assert_eq!(layout_of(source, &pair, FlowParent::No, wrap), Layout::Explicit);
        }
    }
}

#[test]
fn flow_collection_key_is_laid_out_by_width() {
    for kind in [ContentKind::FlowSequence, ContentKind::FlowMapping] {
        let source = "? [a,\n  b]\n: value";
        let pair = item(
            source,
            Some(node(source, kind, "[a,\n  b]")),
            Some(node(source, ContentKind::Plain, "value")),
            true,
        );
        assert_eq!(block(source, &pair), Layout::BestFitting { explicit_fallback: true });
    }
}

#[test]
fn block_collection_value() {
    let source = "key:\n  a: b";
    for kind in [ContentKind::Mapping, ContentKind::Sequence] {
        let mut value = node(source, kind, "a: b");
        let key = Some(node(source, ContentKind::Plain, "key"));
        let bare = item(source, key, Some(value), false);
        assert_eq!(block(source, &bare), Layout::Pinned { hard_line: true });
        assert_eq!(
            written(source, &bare, FlowParent::No),
            vec![
                Element::Key,
                Element::StartAlign(4),
                Element::Text(":"),
                Element::TrailingSameLineComment(3),
                Element::HardLineBreak,
                Element::Deferred(Deferred::PinnedValue),
                Element::EndAlign,
            ]
        );
        value.props.anchor = Some(Span::new(4, 5));
        let anchored = item(source, key, Some(value), false);
        assert_eq!(block(source, &anchored), Layout::Pinned { hard_line: false });
        value.props = Props { anchor: None, tag: Some(Span::new(4, 5)) };
        let tagged = item(source, key, Some(value), false);
        assert_eq!(block(source, &tagged), Layout::Pinned { hard_line: false });
    }
}

#[test]
fn block_scalar_value() {
    let source = "*k : |\n  text";
    for kind in [ContentKind::BlockLiteral, ContentKind::BlockFolded] {
        let pair = item(
            source,
            Some(node(source, ContentKind::Alias, "*k")),
            Some(node(source, kind, "|\n  text")),
            false,
        );
        assert_eq!(
            written(source, &pair, FlowParent::No),
            vec![
                Element::Key,
                Element::StartAlign(4),
                Element::Space,
                Element::Text(":"),
                Element::Space,
                Element::Deferred(Deferred::PinnedValue),
                Element::EndAlign,
            ]
        );
    }
}

#[test]
fn comment_before_value_body() {
    // Between the properties and the body, a comment is no leading comment of
    // the value, but it keeps the item off one line.
    let source = "key: !t # c\n  value";
    let mut value = node(source, ContentKind::Plain, "value");
    value.start = source.find('!').unwrap() as u32;
    value.props.tag = Some(Span::new(value.start, value.start + 2));
    let pair =
        item(source, Some(node(source, ContentKind::Plain, "key")), Some(value), false);
    assert_eq!(block(source, &pair), Layout::BestFitting { explicit_fallback: false });
}

#[test]
fn trailing_comment_of_key_by_parent() {
    let source = "key: # c\n  value";
    let pair = scalars(source, "key", "value");
    for in_flow in [FlowParent::No, FlowParent::Mapping, FlowParent::Sequence] {
        assert_eq!(
            layout_of(source, &pair, in_flow, ProseWrap::Preserve),
            Layout::Pinned { hard_line: true }
        );
    }
}

#[test]
fn best_fitting_pair() {
    let source = "key: [value]";
    let pair = item(
        source,
        Some(node(source, ContentKind::Plain, "key")),
        Some(node(source, ContentKind::FlowSequence, "[value]")),
        false,
    );
    let head = vec![
        Element::StartMemoized(Part::Key),
        Element::Key,
        Element::EndMemoized,
        Element::StartMemoized(Part::Value),
        Element::LeadingComments(5),
        Element::StartGroup,
        Element::Value,
        Element::EndGroup,
        Element::EndMemoized,
        Element::StartBestFitting,
        Element::StartVariant,
        Element::Memoized(Part::Key),
        Element::Text(":"),
        Element::Space,
        Element::StartAlign(4),
        Element::Memoized(Part::Value),
        Element::EndAlign,
        Element::EndVariant,
        Element::StartVariant,
        Element::Memoized(Part::Key),
        Element::Text(":"),
        Element::StartAlign(4),
        Element::HardLineBreak,
        Element::Memoized(Part::Value),
        Element::EndAlign,
        Element::EndVariant,
    ];
    let mut expected = head.clone();
    expected.push(Element::EndBestFitting);
    assert_eq!(written(source, &pair, FlowParent::No), expected);

    let mut f = formatter(source, ProseWrap::Preserve);
    write_layout(&pair, Layout::BestFitting { explicit_fallback: true }, &mut f);
    let mut expected = head;
    expected.extend([
        Element::StartVariant,
        Element::Text("? "),
        Element::StartAlign(2),
        Element::Memoized(Part::Key),
        Element::EndAlign,
        Element::HardLineBreak,
        Element::Text(": "),
        Element::StartAlign(2),
        Element::Memoized(Part::Value),
        Element::EndAlign,
        Element::EndVariant,
        Element::EndBestFitting,
    ]);
    assert_eq!(f.elements, expected);
}

#[test]
fn long_single_word_key_never_turns_explicit() {
    let key = "k".repeat(500);
    let source = format!("{}: [value]", key);
    let pair = item(
        &source,
        Some(node(&source, ContentKind::Plain, &key)),
        Some(node(&source, ContentKind::FlowSequence, "[value]")),
        false,
    );
    for wrap in [ProseWrap::Always, ProseWrap::Never, ProseWrap::Preserve] {
        let mut f = formatter(&source, wrap);
        write_mapping_item(&pair, false, FlowParent::No, &mut f);
        assert!(!f.elements.contains(&Element::Text("? ")));
    }
}

#[test]
fn pinned_value_and_suppression() {
    let source = "key: |\n  text";
    for kind in [
        ContentKind::BlockLiteral,
        ContentKind::Plain,
        ContentKind::FlowMapping,
        ContentKind::Mapping,
        ContentKind::Sequence,
    ] {
        let value = node(source, kind, "|\n  text");
        let block_collection = matches!(kind, ContentKind::Mapping | ContentKind::Sequence);
        for suppressed in [false, true] {
            let mut f = formatter(source, ProseWrap::Preserve);
            write_pinned_value(&value, suppressed, &mut f);
            let expected = if suppressed && !block_collection {
                vec![Element::SuppressedNode(Span::new(5, 13))]
            } else {
                vec![
                    Element::ValueLeadingComments { block_collection, start: 5 },
                    Element::Value,
                ]
            };
            assert_eq!(f.elements, expected);
        }
    }
}

#[test]
fn suppressed_node_covers_properties() {
    let source = "key: !t |\n  text";
    let mut value = node(source, ContentKind::BlockLiteral, "|\n  text");
    value.start = 5;
    let mut f = formatter(source, ProseWrap::Preserve);
    write_pinned_value(&value, true, &mut f);
    assert_eq!(f.elements, vec![Element::SuppressedNode(Span::new(5, 16))]);
}

#[test]
fn write_sides() {
    let source = "key: value";
    let pair = scalars(source, "key", "value");
    let mut f = formatter(source, ProseWrap::Preserve);
    write_key(&pair, &mut f);
    write_value(&pair, &mut f);
    assert_eq!(f.elements, vec![Element::Key, Element::Value]);
    let none = item(":", None, None, false);
    write_key(&none, &mut f);
    write_value(&none, &mut f);
    assert_eq!(f.elements, vec![Element::Key, Element::Value]);
}

#[test]
fn items_append_to_buffer() {
    let source = "key: value";
    let pair = scalars(source, "key", "value");
    let mut f = formatter(source, ProseWrap::Preserve);
    write_mapping_item(&pair, false, FlowParent::No, &mut f);
    let once = f.elements.clone();
    write_mapping_item(&pair, false, FlowParent::No, &mut f);
    assert_eq!(f.elements, [once.clone(), once].concat());
}

#[test]
fn only_first_comment_counts() {
    let source = "key: # one\n  # two\n  value";
    let pair = scalars(source, "key", "value");
    let all = comments(source);
    let options = FormatOptions { indent_width: 4, prose_wrap: ProseWrap::Preserve };
    let one = YamlFormatter::new(source, Comments::new(vec![all[0]]), options);
    let two = YamlFormatter::new(source, Comments::new(all), options);
    assert_eq!(
        choose_layout(&pair, false, FlowParent::No, &one),
        choose_layout(&pair, false, FlowParent::No, &two)
    );
}

#[test]
fn writable_items() {
    let source = "? [a, # c\n  b]\n: value";
    let key = node(source, ContentKind::FlowSequence, "[a, # c\n  b]");
    let value = node(source, ContentKind::Plain, "value");
    // The pending comment starts inside an explicit key.
    let explicit = item(source, Some(key), Some(value), true);
    let f = formatter(source, ProseWrap::Preserve);
    assert!(!is_writable(&explicit, &f));
    let mut implicit = explicit;
    implicit.key.explicit = false;
    assert!(is_writable(&implicit, &f));
    assert!(is_writable(&item(source, Some(key), None, true), &f));

    let source = "\u{e9}: v";
    let f = formatter(source, ProseWrap::Preserve);
    let mut cut = node(source, ContentKind::Plain, "v");
    cut.span = Span::new(1, 3);
    assert!(!is_writable(&item(source, Some(cut), None, false), &f));
    cut.span = Span::new(3, 9);
    assert!(!is_writable(&item(source, None, Some(cut), false), &f));
    cut.span = Span::new(3, 2);
    assert!(!is_writable(&item(source, Some(cut), None, false), &f));
    cut.kind = ContentKind::Alias;
    assert!(is_writable(&item(source, Some(cut), None, false), &f));
}

/// Whether starts and ends match.
fn balanced(elements: &[Element]) -> bool {
    let mut open = Vec::new();
    for element in elements {
        let matches = match element {
            Element::StartAlign(_) => {
                open.push(Element::EndAlign);
                true
            }
            Element::StartGroup => {
                open.push(Element::EndGroup);
                true
            }
            Element::StartLineSuffix => {
                open.push(Element::EndLineSuffix);
                true
            }
            Element::StartBestFitting => {
                open.push(Element::EndBestFitting);
                true
            }
            Element::StartVariant => {
                open.push(Element::EndVariant);
                true
            }
            Element::StartMemoized(_) => {
                open.push(Element::EndMemoized);
                true
            }
            Element::EndAlign
            | Element::EndGroup
            | Element::EndLineSuffix
            | Element::EndBestFitting
            | Element::EndVariant
            | Element::EndMemoized => open.pop() == Some(*element),
            _ => true,
        };
        if !matches {
            return false;
        }
    }
    open.is_empty()
}

#[test]
fn every_layout_is_balanced() {
    let source = "key: value";
    let pair = scalars(source, "key", "value");
    let layouts = [
        Layout::Empty { comment: None },
        Layout::Empty { comment: Some(Span::new(0, 1)) },
        Layout::LoneKey,
        Layout::KeyColon,
        Layout::ExplicitKey,
        Layout::EmptyKey,
        Layout::ForcedExplicit { colon: None },
        Layout::ForcedExplicit { colon: Some(3) },
        Layout::SingleLine,
        Layout::Explicit,
        Layout::Pinned { hard_line: false },
        Layout::Pinned { hard_line: true },
        Layout::BestFitting { explicit_fallback: false },
        Layout::BestFitting { explicit_fallback: true },
    ];
    for layout in layouts {
        let mut f = formatter(source, ProseWrap::Preserve);
        write_layout(&pair, layout, &mut f);
        assert!(balanced(&f.elements), "{:?}", layout);
    }
}

#[test]
fn parent_matters_only_without_value() {
    for source in ["key: value", "key: # c\n  value", "? key\n# c\n: value"] {
        let pair = scalars(source, "key", "value");
        let f = formatter(source, ProseWrap::Preserve);
        let expected = choose_layout(&pair, false, FlowParent::No, &f);
        for in_flow in [FlowParent::No, FlowParent::Mapping, FlowParent::Sequence] {
            for tag in [false, true] {
                assert_eq!(choose_layout(&pair, tag, in_flow, &f), expected);
            }
        }
    }
}

#[test]
fn key_and_value_print_once() {
    let source = "key: [value]";
    let pair = item(
        source,
        Some(node(source, ContentKind::Plain, "key")),
        Some(node(source, ContentKind::FlowSequence, "[value]")),
        false,
    );
    let mut f = formatter(source, ProseWrap::Always);
    write_layout(&pair, Layout::BestFitting { explicit_fallback: true }, &mut f);
    let variants: Vec<&[Element]> =
        f.elements.split(|e| *e == Element::StartVariant).skip(1).collect();
    assert_eq!(variants.len(), 3);
    for variant in variants {
        let parts: Vec<&Element> =
            variant.iter().filter(|e| matches!(e, Element::Memoized(_))).collect();
        assert_eq!(
            parts,
            vec![&Element::Memoized(Part::Key), &Element::Memoized(Part::Value)]
        );
    }
    assert_eq!(f.elements.iter().filter(|e| **e == Element::Key).count(), 1);
    assert_eq!(f.elements.iter().filter(|e| **e == Element::Value).count(), 1);
}
