//! The layout of one mapping item.

use crate::ast::{is_valid_in, Content, ContentKind, MappingItem, Span};
use crate::comments;
use crate::comments::Comment;
use crate::formatter::{Deferred, Element, FormatOptions, Part, ProseWrap, YamlFormatter};
use crate::gap;
use crate::gap::{
    colon_position, has_comment_before_explicit_key, has_comment_following,
    has_own_line_comment_before_value, has_pending_comment_before, key_has_trailing_comment,
};
use crate::scalar;
use crate::scalar::{
    has_forced_break_when_folded, is_absolutely_single_line, is_inline, is_single_line,
};
use vstd::prelude::*;
use vstd::string::*;

verus! {

/// Where a mapping item lives. It decides the layout of an item without a
/// value: `{a}` prints the bare key, `[? a]` keeps the explicit form.
#[derive(Clone, Copy, Debug, Eq, PartialEq, Structural)]
pub enum FlowParent {
    /// A block mapping.
    No,
    /// A flow mapping, `{...}`.
    Mapping,
    /// A pair inside a flow sequence, `[...]`.
    Sequence,
}

/// The layouts that an item can take.
#[derive(Clone, Copy, Debug, Eq, PartialEq, Structural)]
pub enum Layout {
    /// `: `, with the comment that follows on the same line.
    Empty { comment: Option<Span> },
    /// `key`
    LoneKey,
    /// `key:`
    KeyColon,
    /// `? key`
    ExplicitKey,
    /// `: value`
    EmptyKey,
    /// `? key` and, on the next line, `: value`, with the comments in between
    /// when the source has a `:` there.
    ForcedExplicit { colon: Option<u32> },
    /// `key: value`
    SingleLine,
    /// `? key` and, on the next line, `: value`.
    Explicit,
    /// `key:` and the value behind it, on the next line or on the same one.
    Pinned { hard_line: bool },
    /// `key: value`, or else `key:` and the value on the next line, or else,
    /// where the key may break, the explicit form.
    BestFitting { explicit_fallback: bool },
}

/// A space goes before the `:`: right behind an alias, it would be read as part
/// of the alias.
pub open spec fn space_before_colon(item: MappingItem) -> bool {
    item.key.content matches Some(key) && key.kind is Alias
}

/// The explicit form is forced: the key is not inline, or the source is
/// explicit already with a comment before the key, or with one on a line of
/// its own before the value.
pub open spec fn forced_explicit(item: MappingItem, f: YamlFormatter<'_>) -> bool {
    ||| !scalar::inline(item.key.content)
    ||| gap::comment_before_explicit_key(item, f)
    ||| item.key.explicit && gap::own_line_comment_before_value(item, f)
}

/// Key and value are sure to stay on one line, with no comment before the body
/// of the value.
pub open spec fn forced_single_line(
    item: MappingItem,
    value: Content,
    f: YamlFormatter<'_>,
) -> bool {
    &&& scalar::single_line(item.key.content, f.source)
    &&& scalar::absolutely_single_line(item.key.content, f.source, f.options.prose_wrap)
    &&& scalar::absolutely_single_line(item.value.content, f.source, f.options.prose_wrap)
    &&& !gap::key_trailing_comment(item, value.start, f)
    &&& !gap::pending_comment_before(value.span.start, f)
}

/// The key is a scalar over several lines that printing keeps apart.
pub open spec fn multiline_scalar_key(item: MappingItem, f: YamlFormatter<'_>) -> bool {
    &&& item.key.content matches Some(key) ==> !key.kind.is_flow_collection()
    &&& !scalar::single_line(item.key.content, f.source)
    &&& f.options.prose_wrap is Preserve || scalar::forced_break_when_folded(
        item.key.content,
        f.source,
    )
}

/// The value starts on a line of its own.
pub open spec fn hard_line_separator(
    item: MappingItem,
    value: Content,
    in_flow: FlowParent,
    f: YamlFormatter<'_>,
) -> bool {
    ||| value.is_bare_block_collection()
    ||| gap::pending_comment_before(value.start, f)
    ||| in_flow is No && gap::key_trailing_comment(item, value.start, f) && scalar::inline(
        Some(value),
    )
}

/// The key may break, so that the explicit form is among the variants.
pub open spec fn key_may_break(item: MappingItem, value: Content, f: YamlFormatter<'_>) -> bool {
    !scalar::absolutely_single_line(item.key.content, f.source, f.options.prose_wrap)
        || gap::key_trailing_comment(item, value.start, f)
}

/// The layout of an item with a key and no value.
pub open spec fn key_only_layout(
    item: MappingItem,
    parent_tag_is_set: bool,
    in_flow: FlowParent,
    f: YamlFormatter<'_>,
) -> Layout {
    if in_flow is Mapping {
        Layout::LoneKey
    } else if in_flow is No && scalar::absolutely_single_line(
        item.key.content,
        f.source,
        f.options.prose_wrap,
    ) && !parent_tag_is_set && !gap::comment_follows(item.key.span.end, f) {
        Layout::KeyColon
    } else {
        Layout::ExplicitKey
    }
}

/// The layout of an item with a key and a value.
pub open spec fn pair_layout(
    item: MappingItem,
    value: Content,
    in_flow: FlowParent,
    f: YamlFormatter<'_>,
) -> Layout {
    if forced_explicit(item, f) {
        Layout::ForcedExplicit {
            colon: gap::colon_between(f.source.spec_bytes(), item.key.span.end, value.start),
        }
    } else if forced_single_line(item, value, f) {
        Layout::SingleLine
    } else if multiline_scalar_key(item, f) {
        Layout::Explicit
    } else if hard_line_separator(item, value, in_flow, f) {
        Layout::Pinned { hard_line: true }
    } else if !scalar::inline(Some(value)) {
        Layout::Pinned { hard_line: false }
    } else {
        Layout::BestFitting { explicit_fallback: key_may_break(item, value, f) }
    }
}

/// The layout of an item.
pub open spec fn layout(
    item: MappingItem,
    parent_tag_is_set: bool,
    in_flow: FlowParent,
    f: YamlFormatter<'_>,
) -> Layout {
    match (item.key.content, item.value.content) {
        (None, None) => Layout::Empty {
            comment: if gap::comment_follows(item.span.end, f) {
                Some(f.comments@[0].span)
            } else {
                None
            },
        },
        (Some(_), None) => key_only_layout(item, parent_tag_is_set, in_flow, f),
        (None, Some(_)) => Layout::EmptyKey,
        (Some(_), Some(value)) => pair_layout(item, value, in_flow, f),
    }
}

/// Where the layout looks for a comment on a line of its own, the pending
/// comment does not start inside the key.
pub open spec fn comments_are_past_key(item: MappingItem, f: YamlFormatter<'_>) -> bool {
    item.key.content is Some && item.key.explicit && scalar::inline(item.key.content)
        && !gap::comment_before_explicit_key(item, f) ==> gap::pending_comment_is_past_key(item, f)
}

/// An item whose layout can be told.
pub open spec fn writable(item: MappingItem, f: YamlFormatter<'_>) -> bool {
    &&& item.valid_in(f.source)
    &&& f.valid()
    &&& comments_are_past_key(item, f)
}

/// Whether the layout of an item can be told.
pub fn is_writable(item: &MappingItem, f: &YamlFormatter<'_>) -> (r: bool)
    ensures
        r == writable(*item, *f),
{
    if !is_valid_in(item.key.content, f.source) || !is_valid_in(item.value.content, f.source) {
        return false;
    }
    let comment = match f.comments.peek() {
        Some(comment) => comment,
        None => {
            return true;
        },
    };
    if comment.span.start as usize > f.source.as_bytes().len() {
        return false;
    }
    let value_start: u32 = match item.value.content {
        Some(value) => value.start,
        None => {
            return true;
        },
    };
    item.key.content.is_none() || !item.key.explicit || !is_inline(item.key.content)
        || has_comment_before_explicit_key(item, f) || comment.span.end > value_start
        || item.key.span.end <= comment.span.start
}

/// Chooses the layout of an item.
pub fn choose_layout(
    item: &MappingItem,
    parent_tag_is_set: bool,
    in_flow: FlowParent,
    f: &YamlFormatter<'_>,
) -> (chosen: Layout)
    requires
        writable(*item, *f),
    ensures
        chosen == layout(*item, parent_tag_is_set, in_flow, *f),
{
    let key = item.key.content;
    let value = match item.value.content {
        Some(value) => value,
        None => {
            if key.is_none() {
                if has_comment_following(item.span.end, f) {
                    if let Some(comment) = f.comments.peek() {
                        return Layout::Empty { comment: Some(comment.span) };
                    }
                }
                return Layout::Empty { comment: None };
            }
            if in_flow == FlowParent::Mapping {
                return Layout::LoneKey;
            }
            // A comment behind the key, with no `:` in the gap, belongs to the
            // key and keeps the explicit form. In `key: # comment` it belongs
            // to the value.
            if in_flow == FlowParent::No && is_absolutely_single_line(key, f) && !parent_tag_is_set
                && !has_comment_following(item.key.span.end, f) {
                return Layout::KeyColon;
            }
            return Layout::ExplicitKey;
        },
    };
    if key.is_none() {
        return Layout::EmptyKey;
    }
    if !is_inline(key) || has_comment_before_explicit_key(item, f) || (item.key.explicit
        && has_own_line_comment_before_value(item, f)) {
        return Layout::ForcedExplicit {
            colon: colon_position(f.source, item.key.span.end, value.start),
        };
    }
    let key_single_line = is_single_line(key, f);
    let key_absolutely_single_line = is_absolutely_single_line(key, f);
    let key_trailing_same_line = key_has_trailing_comment(item, value.start, f);
    if key_single_line && !key_trailing_same_line && !has_pending_comment_before(
        value.span.start,
        f,
    ) && key_absolutely_single_line && is_absolutely_single_line(item.value.content, f) {
        return Layout::SingleLine;
    }
    if !key_single_line && !is_flow_collection(key) && (f.options.prose_wrap == ProseWrap::Preserve
        || has_forced_break_when_folded(key, f)) {
        return Layout::Explicit;
    }
    let value_is_inline = is_inline(item.value.content);
    if is_bare_block_collection(&value) || has_pending_comment_before(value.start, f) || (in_flow
        == FlowParent::No && key_trailing_same_line && value_is_inline) {
        return Layout::Pinned { hard_line: true };
    }
    if !value_is_inline {
        return Layout::Pinned { hard_line: false };
    }
    Layout::BestFitting {
        explicit_fallback: !key_absolutely_single_line || key_trailing_same_line,
    }
}

/// Whether the node is `{...}` or `[...]`.
fn is_flow_collection(content: Option<Content>) -> (r: bool)
    ensures
        r == (content matches Some(node) && node.kind.is_flow_collection()),
{
    match content {
        Some(node) => node.kind == ContentKind::FlowMapping || node.kind
            == ContentKind::FlowSequence,
        None => false,
    }
}

/// Whether the node is a block mapping or a block sequence.
fn is_block_collection(node: &Content) -> (r: bool)
    ensures
        r == node.kind.is_block_collection(),
{
    node.kind == ContentKind::Mapping || node.kind == ContentKind::Sequence
}

/// Whether the node is a block collection with neither an anchor nor a tag.
fn is_bare_block_collection(node: &Content) -> (r: bool)
    ensures
        r == node.is_bare_block_collection(),
{
    is_block_collection(node) && node.props.anchor.is_none() && node.props.tag.is_none()
}

/// The space before the `:`, where one is due.
pub open spec fn spacer(item: MappingItem) -> Seq<Element> {
    if space_before_colon(item) {
        seq![Element::Space]
    } else {
        seq![]
    }
}

/// `? key`
pub open spec fn explicit_key() -> Seq<Element> {
    seq![Element::Text("? "), Element::StartAlign(2), Element::Key, Element::EndAlign]
}

/// `: value`
pub open spec fn value_line() -> Seq<Element> {
    seq![Element::Text(": "), Element::StartAlign(2), Element::Value, Element::EndAlign]
}

/// `? key`, a line break and `: value`, with the comments around the `:` at
/// this position.
pub open spec fn explicit_with_comments(colon: u32, column: u32) -> Seq<Element> {
    seq![
        Element::Text("? "),
        Element::StartAlign(2),
        Element::Key,
        Element::Deferred(Deferred::KeyEndComments { colon, column }),
        Element::EndAlign,
        Element::HardLineBreak,
        Element::Deferred(Deferred::CommentsBeforeColon { colon }),
    ] + value_line()
}

/// The `:` of the variants, in one text with the space before it.
pub open spec fn colon_text(item: MappingItem) -> &'static str {
    if space_before_colon(item) {
        " :"
    } else {
        ":"
    }
}

/// The variant `key: value`.
pub open spec fn same_line_variant(item: MappingItem, indent: u8) -> Seq<Element> {
    seq![
        Element::Memoized(Part::Key),
        Element::Text(colon_text(item)),
        Element::Space,
        Element::StartAlign(indent),
        Element::Memoized(Part::Value),
        Element::EndAlign,
    ]
}

/// The variant with the value on the line below `key:`.
pub open spec fn next_line_variant(item: MappingItem, indent: u8) -> Seq<Element> {
    seq![
        Element::Memoized(Part::Key),
        Element::Text(colon_text(item)),
        Element::StartAlign(indent),
        Element::HardLineBreak,
        Element::Memoized(Part::Value),
        Element::EndAlign,
    ]
}

/// The variant in the explicit form.
pub open spec fn explicit_variant() -> Seq<Element> {
    seq![
        Element::Text("? "),
        Element::StartAlign(2),
        Element::Memoized(Part::Key),
        Element::EndAlign,
        Element::HardLineBreak,
        Element::Text(": "),
        Element::StartAlign(2),
        Element::Memoized(Part::Value),
        Element::EndAlign,
    ]
}

/// The variants of a best fitting layout, in the order of preference.
pub open spec fn variants(item: MappingItem, indent: u8, explicit_fallback: bool) -> Seq<
    Seq<Element>,
> {
    if explicit_fallback {
        seq![
            same_line_variant(item, indent),
            next_line_variant(item, indent),
            explicit_variant(),
        ]
    } else {
        seq![same_line_variant(item, indent), next_line_variant(item, indent)]
    }
}

/// Variants, each between its start and its end.
pub open spec fn bracketed(variants: Seq<Seq<Element>>) -> Seq<Element>
    decreases variants.len(),
{
    if variants.len() == 0 {
        seq![]
    } else {
        bracketed(variants.drop_last()) + seq![Element::StartVariant] + variants.last()
            + seq![Element::EndVariant]
    }
}

/// The parts that the variants share: the key; and the value in a group, with
/// the comments that lead it.
pub open spec fn shared_parts(value_start: u32) -> Seq<Element> {
    seq![
        Element::StartMemoized(Part::Key),
        Element::Key,
        Element::EndMemoized,
        Element::StartMemoized(Part::Value),
        Element::LeadingComments(value_start),
        Element::StartGroup,
        Element::Value,
        Element::EndGroup,
        Element::EndMemoized,
    ]
}

/// The separator behind a `:` that is pinned.
pub open spec fn pinned_separator(item: MappingItem, hard_line: bool) -> Seq<Element> {
    if hard_line {
        seq![Element::TrailingSameLineComment(item.key.span.end), Element::HardLineBreak]
    } else {
        seq![Element::Space]
    }
}

/// The elements of an item in a layout.
pub open spec fn layout_elements(item: MappingItem, options: FormatOptions, chosen: Layout) -> Seq<
    Element,
> {
    let indent = options.indent_width;
    match chosen {
        Layout::Empty { comment: None } => seq![Element::Text(": ")],
        Layout::Empty { comment: Some(span) } => seq![
            Element::Text(": "),
            Element::StartLineSuffix,
            Element::Comment(span),
            Element::EndLineSuffix,
            Element::ExpandParent,
        ],
        Layout::LoneKey => seq![Element::Key],
        Layout::KeyColon => seq![Element::Key] + spacer(item) + seq![Element::Text(":")],
        Layout::ExplicitKey => explicit_key(),
        Layout::EmptyKey => value_line(),
        Layout::ForcedExplicit { colon: Some(colon) } => explicit_with_comments(
            colon,
            item.column,
        ),
        Layout::ForcedExplicit { colon: None } | Layout::Explicit => explicit_key()
            + seq![Element::HardLineBreak] + value_line(),
        Layout::SingleLine => seq![Element::Key] + spacer(item) + seq![
            Element::Text(": "),
            Element::Value,
        ],
        Layout::Pinned { hard_line } => seq![Element::Key, Element::StartAlign(indent)] + spacer(
            item,
        ) + seq![Element::Text(":")] + pinned_separator(item, hard_line) + seq![
            Element::Deferred(Deferred::PinnedValue),
            Element::EndAlign,
        ],
        Layout::BestFitting { explicit_fallback } => shared_parts(
            (item.value.content->0).start,
        ) + seq![Element::StartBestFitting] + bracketed(variants(item, indent, explicit_fallback))
            + seq![Element::EndBestFitting],
    }
}

/// The sides of the item that a layout writes are there.
pub open spec fn has_parts_for(item: MappingItem, chosen: Layout) -> bool {
    &&& !(chosen is Empty || chosen is EmptyKey) ==> item.key.content is Some
    &&& !(chosen is Empty || chosen is LoneKey || chosen is KeyColon || chosen is ExplicitKey)
        ==> item.value.content is Some
}

/// The buffer has grown by `added`, and nothing else has changed.
pub open spec fn appended(
    before: YamlFormatter<'_>,
    after: YamlFormatter<'_>,
    added: Seq<Element>,
) -> bool {
    &&& after.same_context(before)
    &&& after.elements@ == before.elements@ + added
}

/// Appends the content of the key, if the item has one.
pub fn write_key(item: &MappingItem, f: &mut YamlFormatter<'_>)
    ensures
        appended(
            *old(f),
            *final(f),
            if item.key.content is Some {
                seq![Element::Key]
            } else {
                seq![]
            },
        ),
{
    if item.key.content.is_some() {
        f.elements.push(Element::Key);
    }
    assert(f.elements@ =~= old(f).elements@ + (if item.key.content is Some {
        seq![Element::Key]
    } else {
        seq![]
    }));
}

/// Appends the content of the value, if the item has one.
pub fn write_value(item: &MappingItem, f: &mut YamlFormatter<'_>)
    ensures
        appended(
            *old(f),
            *final(f),
            if item.value.content is Some {
                seq![Element::Value]
            } else {
                seq![]
            },
        ),
{
    if item.value.content.is_some() {
        f.elements.push(Element::Value);
    }
    assert(f.elements@ =~= old(f).elements@ + (if item.value.content is Some {
        seq![Element::Value]
    } else {
        seq![]
    }));
}

/// Appends `? key`.
fn write_explicit_key(item: &MappingItem, f: &mut YamlFormatter<'_>)
    requires
        item.key.content is Some,
    ensures
        appended(*old(f), *final(f), explicit_key()),
{
    f.elements.push(Element::Text("? "));
    f.elements.push(Element::StartAlign(2));
    write_key(item, f);
    f.elements.push(Element::EndAlign);
    assert(f.elements@ =~= old(f).elements@ + explicit_key());
}

/// Appends `: value`.
fn write_value_line(item: &MappingItem, f: &mut YamlFormatter<'_>)
    requires
        item.value.content is Some,
    ensures
        appended(*old(f), *final(f), value_line()),
{
    f.elements.push(Element::Text(": "));
    f.elements.push(Element::StartAlign(2));
    write_value(item, f);
    f.elements.push(Element::EndAlign);
    assert(f.elements@ =~= old(f).elements@ + value_line());
}

/// Whether a space goes before the `:`.
fn needs_space_before_colon(item: &MappingItem) -> (r: bool)
    ensures
        r == space_before_colon(*item),
{
    match item.key.content {
        Some(key) => key.kind == ContentKind::Alias,
        None => false,
    }
}

/// Appends the space before the `:`, where one is due.
fn write_spacer(item: &MappingItem, f: &mut YamlFormatter<'_>)
    ensures
        appended(*old(f), *final(f), spacer(*item)),
{
    if needs_space_before_colon(item) {
        f.elements.push(Element::Space);
    }
    assert(f.elements@ =~= old(f).elements@ + spacer(*item));
}

/// Appends the explicit form with the comments between the key and the `:`.
/// Comments indented deeper than the item close the key, inside its
/// alignment; the others stand before the `: `. Comments behind the `:` stay
/// pending: they go out with the value.
fn write_explicit_with_comments(item: &MappingItem, colon: u32, f: &mut YamlFormatter<'_>)
    requires
        item.key.content is Some,
        item.value.content is Some,
    ensures
        appended(*old(f), *final(f), explicit_with_comments(colon, item.column)),
{
    f.elements.push(Element::Text("? "));
    f.elements.push(Element::StartAlign(2));
    write_key(item, f);
    f.elements.push(Element::Deferred(Deferred::KeyEndComments { colon, column: item.column }));
    f.elements.push(Element::EndAlign);
    f.elements.push(Element::HardLineBreak);
    f.elements.push(Element::Deferred(Deferred::CommentsBeforeColon { colon }));
    write_value_line(item, f);
    assert(f.elements@ =~= old(f).elements@ + explicit_with_comments(colon, item.column));
}

/// Appends `key:` with the value behind a separator that no width changes: a
/// line break for block collections and comments, or a space for block
/// scalars and collections with properties.
fn write_pinned(item: &MappingItem, hard_line: bool, f: &mut YamlFormatter<'_>)
    requires
        item.key.content is Some,
    ensures
        appended(
            *old(f),
            *final(f),
            layout_elements(*item, old(f).options, Layout::Pinned { hard_line }),
        ),
{
    write_key(item, f);
    f.elements.push(Element::StartAlign(f.options.indent_width));
    write_spacer(item, f);
    f.elements.push(Element::Text(":"));
    if hard_line {
        // The comment on the key's line goes out before the line break.
        f.elements.push(Element::TrailingSameLineComment(item.key.span.end));
        f.elements.push(Element::HardLineBreak);
    } else {
        f.elements.push(Element::Space);
    }
    f.elements.push(Element::Deferred(Deferred::PinnedValue));
    f.elements.push(Element::EndAlign);
    assert(f.elements@ =~= old(f).elements@ + layout_elements(
        *item,
        old(f).options,
        Layout::Pinned { hard_line },
    ));
}

/// Appends the parts that the variants share.
///
/// The value is a group, which a paragraph break inside it expands: then only
/// the first word has to fit behind the key. A value without a forced break is
/// measured in full.
fn write_shared_parts(item: &MappingItem, value_start: u32, f: &mut YamlFormatter<'_>)
    requires
        item.key.content is Some,
        item.value.content is Some,
    ensures
        appended(*old(f), *final(f), shared_parts(value_start)),
{
    f.elements.push(Element::StartMemoized(Part::Key));
    write_key(item, f);
    f.elements.push(Element::EndMemoized);
    f.elements.push(Element::StartMemoized(Part::Value));
    f.elements.push(Element::LeadingComments(value_start));
    f.elements.push(Element::StartGroup);
    write_value(item, f);
    f.elements.push(Element::EndGroup);
    f.elements.push(Element::EndMemoized);
    assert(f.elements@ =~= old(f).elements@ + shared_parts(value_start));
}

/// Appends the variant `key: value`.
fn write_same_line_variant(item: &MappingItem, colon: &'static str, f: &mut YamlFormatter<'_>)
    requires
        colon == colon_text(*item),
    ensures
        appended(
            *old(f),
            *final(f),
            seq![Element::StartVariant] + same_line_variant(*item, old(f).options.indent_width)
                + seq![Element::EndVariant],
        ),
{
    f.elements.push(Element::StartVariant);
    f.elements.push(Element::Memoized(Part::Key));
    f.elements.push(Element::Text(colon));
    f.elements.push(Element::Space);
    f.elements.push(Element::StartAlign(f.options.indent_width));
    f.elements.push(Element::Memoized(Part::Value));
    f.elements.push(Element::EndAlign);
    f.elements.push(Element::EndVariant);
    assert(f.elements@ =~= old(f).elements@ + (seq![Element::StartVariant] + same_line_variant(
        *item,
        old(f).options.indent_width,
    ) + seq![Element::EndVariant]));
}

/// Appends the variant with the value on the line below `key:`.
fn write_next_line_variant(item: &MappingItem, colon: &'static str, f: &mut YamlFormatter<'_>)
    requires
        colon == colon_text(*item),
    ensures
        appended(
            *old(f),
            *final(f),
            seq![Element::StartVariant] + next_line_variant(*item, old(f).options.indent_width)
                + seq![Element::EndVariant],
        ),
{
    f.elements.push(Element::StartVariant);
    f.elements.push(Element::Memoized(Part::Key));
    f.elements.push(Element::Text(colon));
    f.elements.push(Element::StartAlign(f.options.indent_width));
    f.elements.push(Element::HardLineBreak);
    f.elements.push(Element::Memoized(Part::Value));
    f.elements.push(Element::EndAlign);
    f.elements.push(Element::EndVariant);
    assert(f.elements@ =~= old(f).elements@ + (seq![Element::StartVariant] + next_line_variant(
        *item,
        old(f).options.indent_width,
    ) + seq![Element::EndVariant]));
}

/// Appends the variant in the explicit form.
fn write_explicit_variant(f: &mut YamlFormatter<'_>)
    ensures
        appended(
            *old(f),
            *final(f),
            seq![Element::StartVariant] + explicit_variant() + seq![Element::EndVariant],
        ),
{
    f.elements.push(Element::StartVariant);
    f.elements.push(Element::Text("? "));
    f.elements.push(Element::StartAlign(2));
    f.elements.push(Element::Memoized(Part::Key));
    f.elements.push(Element::EndAlign);
    f.elements.push(Element::HardLineBreak);
    f.elements.push(Element::Text(": "));
    f.elements.push(Element::StartAlign(2));
    f.elements.push(Element::Memoized(Part::Value));
    f.elements.push(Element::EndAlign);
    f.elements.push(Element::EndVariant);
    assert(f.elements@ =~= old(f).elements@ + (seq![Element::StartVariant] + explicit_variant()
        + seq![Element::EndVariant]));
}

/// Two variants in brackets, and a third behind them.
pub proof fn lemma_bracketed(a: Seq<Element>, b: Seq<Element>, c: Seq<Element>)
    ensures
        bracketed(seq![a, b]) == seq![Element::StartVariant] + a + seq![Element::EndVariant]
            + seq![Element::StartVariant] + b + seq![Element::EndVariant],
        bracketed(seq![a, b, c]) == bracketed(seq![a, b]) + seq![Element::StartVariant] + c
            + seq![Element::EndVariant],
{
    assert(seq![a, b, c].drop_last() =~= seq![a, b]);
    assert(seq![a, b].drop_last() =~= seq![a]);
    assert(seq![a].drop_last() =~= Seq::<Seq<Element>>::empty());
    assert(bracketed(seq![a].drop_last()) == Seq::<Element>::empty());
    assert(bracketed(seq![a]) =~= seq![Element::StartVariant] + a + seq![Element::EndVariant]);
}

/// Appends a layout that the width decides.
///
/// Variants are measured flat, up to the first line break that is forced, so
/// the first fits when the key, the `: ` and the first line of the value fit,
/// and the second when the key fits.
fn write_best_fitting(
    item: &MappingItem,
    value_start: u32,
    explicit_fallback: bool,
    f: &mut YamlFormatter<'_>,
)
    requires
        item.key.content is Some,
        item.value.content matches Some(value) && value.start == value_start,
    ensures
        appended(
            *old(f),
            *final(f),
            layout_elements(*item, old(f).options, Layout::BestFitting { explicit_fallback }),
        ),
{
    let colon = if needs_space_before_colon(item) {
        " :"
    } else {
        ":"
    };
    write_shared_parts(item, value_start, f);
    f.elements.push(Element::StartBestFitting);
    write_same_line_variant(item, colon, f);
    write_next_line_variant(item, colon, f);
    if explicit_fallback {
        write_explicit_variant(f);
    }
    f.elements.push(Element::EndBestFitting);
    proof {
        let indent = old(f).options.indent_width;
        lemma_bracketed(
            same_line_variant(*item, indent),
            next_line_variant(*item, indent),
            explicit_variant(),
        );
        assert(f.elements@ =~= old(f).elements@ + layout_elements(
            *item,
            old(f).options,
            Layout::BestFitting { explicit_fallback },
        ));
    }
}

/// Appends an item in a layout.
pub fn write_layout(item: &MappingItem, chosen: Layout, f: &mut YamlFormatter<'_>)
    requires
        has_parts_for(*item, chosen),
    ensures
        appended(*old(f), *final(f), layout_elements(*item, old(f).options, chosen)),
{
    match chosen {
        Layout::Empty { comment } => {
            f.elements.push(Element::Text(": "));
            // No space goes before the comment: the one behind the `:` is it.
            if let Some(span) = comment {
                f.elements.push(Element::StartLineSuffix);
                f.elements.push(Element::Comment(span));
                f.elements.push(Element::EndLineSuffix);
                f.elements.push(Element::ExpandParent);
            }
        },
        Layout::LoneKey => {
            write_key(item, f);
        },
        Layout::KeyColon => {
            write_key(item, f);
            write_spacer(item, f);
            f.elements.push(Element::Text(":"));
        },
        Layout::ExplicitKey => {
            write_explicit_key(item, f);
        },
        Layout::EmptyKey => {
            write_value_line(item, f);
        },
        Layout::ForcedExplicit { colon: Some(colon) } => {
            write_explicit_with_comments(item, colon, f);
        },
        Layout::ForcedExplicit { colon: None } | Layout::Explicit => {
            write_explicit_key(item, f);
            f.elements.push(Element::HardLineBreak);
            write_value_line(item, f);
        },
        Layout::SingleLine => {
            write_key(item, f);
            write_spacer(item, f);
            f.elements.push(Element::Text(": "));
            write_value(item, f);
        },
        Layout::Pinned { hard_line } => {
            write_pinned(item, hard_line, f);
        },
        Layout::BestFitting { explicit_fallback } => {
            if let Some(value) = item.value.content {
                write_best_fitting(item, value.start, explicit_fallback, f);
            }
        },
    }
    assert(f.elements@ =~= old(f).elements@ + layout_elements(*item, old(f).options, chosen));
}

/// The comments that are pending once an item has been written in a layout:
/// the comment of an empty item has been taken.
pub open spec fn pending_after(pending: Seq<Comment>, chosen: Layout) -> Seq<Comment> {
    match chosen {
        Layout::Empty { comment: Some(_) } => pending.drop_first(),
        _ => pending,
    }
}

/// Appends a mapping item, block or flow, in its layout.
pub fn write_mapping_item(
    item: &MappingItem,
    parent_tag_is_set: bool,
    in_flow: FlowParent,
    f: &mut YamlFormatter<'_>,
)
    requires
        writable(*item, *old(f)),
    ensures
        final(f).elements@ == old(f).elements@ + layout_elements(
            *item,
            old(f).options,
            layout(*item, parent_tag_is_set, in_flow, *old(f)),
        ),
        final(f).comments@ == pending_after(
            old(f).comments@,
            layout(*item, parent_tag_is_set, in_flow, *old(f)),
        ),
        final(f).source == old(f).source,
        final(f).options == old(f).options,
{
    let chosen = choose_layout(item, parent_tag_is_set, in_flow, f);
    if let Layout::Empty { comment: Some(_) } = chosen {
        let _ = f.comments.take_first();
    }
    write_layout(item, chosen, f);
}

/// How many comments at the front end at or before the `:` and are indented
/// deeper than `column`.
pub open spec fn count_key_end(pending: Seq<Comment>, colon: int, column: int) -> nat
    decreases pending.len(),
{
    if pending.len() > 0 && pending[0].span.end <= colon && pending[0].column > column {
        1 + count_key_end(pending.drop_first(), colon, column)
    } else {
        0
    }
}

/// Comments, each behind a line break.
pub open spec fn on_new_lines(comments: Seq<Comment>) -> Seq<Element> {
    Seq::new(
        2 * comments.len(),
        |i: int|
            if i % 2 == 0 {
                Element::HardLineBreak
            } else {
                Element::Comment(comments[i / 2].span)
            },
    )
}

/// Comments, each followed by a line break.
pub open spec fn on_lines(comments: Seq<Comment>) -> Seq<Element> {
    Seq::new(
        2 * comments.len(),
        |i: int|
            if i % 2 == 0 {
                Element::Comment(comments[i / 2].span)
            } else {
                Element::HardLineBreak
            },
    )
}

/// Appends the comments that close an explicit key, for
/// [`Deferred::KeyEndComments`]: those at the front of what is pending that
/// end before the `:` and are indented deeper than the item.
pub fn write_key_end_comments(colon: u32, column: u32, f: &mut YamlFormatter<'_>)
    ensures
        final(f).elements@ == old(f).elements@ + on_new_lines(
            old(f).comments@.take(
                count_key_end(old(f).comments@, colon as int, column as int) as int,
            ),
        ),
        final(f).comments@ == old(f).comments@.skip(
            count_key_end(old(f).comments@, colon as int, column as int) as int,
        ),
        final(f).source == old(f).source,
        final(f).options == old(f).options,
{
    let ghost pending = f.comments@;
    let ghost elements = f.elements@;
    let ghost mut taken: nat = 0;
    assert(pending.skip(0) =~= pending);
    assert(f.elements@ =~= elements + on_new_lines(pending.take(0)));
    loop
        invariant
            taken <= pending.len(),
            f.comments@ == pending.skip(taken as int),
            f.elements@ == elements + on_new_lines(pending.take(taken as int)),
            f.source == old(f).source,
            f.options == old(f).options,
            count_key_end(pending, colon as int, column as int) == taken + count_key_end(
                f.comments@,
                colon as int,
                column as int,
            ),
        ensures
            taken == count_key_end(pending, colon as int, column as int),
            f.comments@ == pending.skip(taken as int),
            f.elements@ == elements + on_new_lines(pending.take(taken as int)),
            f.source == old(f).source,
            f.options == old(f).options,
        decreases f.comments@.len(),
    {
        let comment = match f.comments.peek() {
            Some(comment) => comment,
            None => {
                break ;
            },
        };
        if comment.span.end > colon || comment.column <= column {
            break ;
        }
        let _ = f.comments.take_first();
        f.elements.push(Element::HardLineBreak);
        f.elements.push(Element::Comment(comment.span));
        proof {
            assert(pending.skip(taken as int).drop_first() =~= pending.skip(taken as int + 1));
            assert(pending[taken as int] == comment);
            taken = taken + 1;
            assert(f.elements@ =~= elements + on_new_lines(pending.take(taken as int)));
        }
    }
}

/// Appends the comments that are pending before the `:`, for
/// [`Deferred::CommentsBeforeColon`].
pub fn write_comments_before_colon(colon: u32, f: &mut YamlFormatter<'_>)
    ensures
        final(f).elements@ == old(f).elements@ + on_lines(
            old(f).comments@.take(
                comments::count_before(old(f).comments@, colon as int) as int,
            ),
        ),
        final(f).comments@ == old(f).comments@.skip(
            comments::count_before(old(f).comments@, colon as int) as int,
        ),
        final(f).source == old(f).source,
        final(f).options == old(f).options,
{
    let taken = f.comments.take_before(colon);
    let ghost pending = f.comments@;
    let ghost elements = f.elements@;
    let mut i: usize = 0;
    assert(f.elements@ =~= elements + on_lines(taken@.take(0)));
    while i < taken.len()
        invariant
            i <= taken@.len(),
            f.comments@ == pending,
            f.elements@ == elements + on_lines(taken@.take(i as int)),
            f.source == old(f).source,
            f.options == old(f).options,
        decreases taken.len() - i,
    {
        f.elements.push(Element::Comment(taken[i].span));
        f.elements.push(Element::HardLineBreak);
        i += 1;
        assert(f.elements@ =~= elements + on_lines(taken@.take(i as int)));
    }
    assert(taken@.take(i as int) =~= taken@);
}

/// The value behind a pinned separator: as it stands in the source where it is
/// suppressed, and else its content, with the comments that lead it.
pub open spec fn pinned_value(value: Content, suppressed: bool) -> Seq<Element> {
    if suppressed && !value.kind.is_block_collection() {
        seq![Element::SuppressedNode(Span { start: value.start, end: value.span.end })]
    } else {
        seq![
            Element::ValueLeadingComments {
                block_collection: value.kind.is_block_collection(),
                start: value.start,
            },
            Element::Value,
        ]
    }
}

/// Appends the value behind a pinned separator, for [`Deferred::PinnedValue`].
/// `suppressed` tells whether the last comment that is pending before the
/// value is a suppression marker. A block collection is never suppressed as a
/// whole: its first item claims the marker.
pub fn write_pinned_value(value: &Content, suppressed: bool, f: &mut YamlFormatter<'_>)
    ensures
        appended(*old(f), *final(f), pinned_value(*value, suppressed)),
{
    let block_collection = is_block_collection(value);
    if !block_collection && suppressed {
        f.elements.push(Element::SuppressedNode(Span::new(value.start, value.span.end)));
    } else {
        f.elements.push(
            Element::ValueLeadingComments { block_collection, start: value.start },
        );
        f.elements.push(Element::Value);
    }
    assert(f.elements@ =~= old(f).elements@ + pinned_value(*value, suppressed));
}

} // verus!
