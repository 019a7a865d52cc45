//! What holds of every item, whatever its layout.

use crate::ast::{Content, MappingItem};
use crate::comments;
use crate::comments::Comment;
use crate::formatter::{Deferred, Element, FormatOptions, Part, ProseWrap, YamlFormatter};
use crate::gap;
use crate::mapping_item;
use crate::mapping_item::{FlowParent, Layout};
use crate::scalar;
use vstd::prelude::*;
use vstd::string::*;

verus! {

// Scalars.

/// Under `Preserve`, a node prints on one line exactly if it stands on one.
pub proof fn law_preserve_keeps_lines(content: Option<Content>, source: &str)
    ensures
        scalar::absolutely_single_line(content, source, ProseWrap::Preserve)
            == scalar::single_line(content, source),
{
}

/// Under `Never`, a flow scalar prints on one line exactly if folding leaves
/// no line break in it.
pub proof fn law_never_breaks_only_where_forced(node: Content, source: &str)
    requires
        node.kind.is_flow_scalar(),
    ensures
        scalar::absolutely_single_line(Some(node), source, ProseWrap::Never)
            == !scalar::forced_break_when_folded(Some(node), source),
{
}

/// Under `Always`, a node that is sure to print on one line stands on one, and
/// prints on one line under the other two modes too.
pub proof fn law_always_is_strictest(content: Option<Content>, source: &str)
    requires
        scalar::absolutely_single_line(content, source, ProseWrap::Always),
    ensures
        scalar::single_line(content, source),
        scalar::absolutely_single_line(content, source, ProseWrap::Preserve),
        scalar::absolutely_single_line(content, source, ProseWrap::Never),
{
    if let Some(node) = content {
        if let Some(text) = scalar::scalar_text(node, source) {
            law_blank_line_needs_line_break(text);
        }
    }
}

/// A text on one line has no blank line after the first.
pub proof fn law_blank_line_needs_line_break(text: Seq<char>)
    requires
        !text.contains('\n'),
    ensures
        !scalar::blank_line(text),
{
    if scalar::blank_line(text) {
        let (i, j) = choose|i: int, j: int| #[trigger]
            scalar::blank_between(text, i, j) && scalar::line_end(text, j);
        assert(text[i] == '\n');
    }
}

/// A key that is sure to print on one line is no scalar whose lines are kept
/// apart.
pub proof fn law_single_line_key_is_not_multiline(item: MappingItem, f: YamlFormatter<'_>)
    requires
        scalar::absolutely_single_line(item.key.content, f.source, f.options.prose_wrap),
    ensures
        !mapping_item::multiline_scalar_key(item, f),
{
    if f.options.prose_wrap is Always {
        law_always_is_strictest(item.key.content, f.source);
    }
}

// The `:` between key and value.

/// The `:` that is found stands between the key and the value and outside
/// every comment, and is the first such; where none is found there is none.
pub proof fn law_colon_is_first_outside_comments(bytes: Seq<u8>, from: u32, to: u32)
    ensures
        match gap::colon_between(bytes, from, to) {
            Some(colon) => {
                &&& from <= colon < to
                &&& colon < bytes.len()
                &&& bytes[colon as int] == gap::COLON
                &&& !gap::in_comment(bytes, from as int, colon as int)
                &&& forall|at: int|
                    from <= at < colon ==> !#[trigger] gap::separator(bytes, from as int, at)
            },
            None => forall|at: int|
                from <= at < to && at < bytes.len() ==> !#[trigger] gap::separator(
                    bytes,
                    from as int,
                    at,
                ),
        },
{
    let end = if to <= bytes.len() {
        to as int
    } else {
        bytes.len() as int
    };
    lemma_first_separator(bytes, from as int, from as int, end);
}

proof fn lemma_first_separator(bytes: Seq<u8>, from: int, at: int, end: int)
    requires
        0 <= from <= at,
        end <= bytes.len(),
        end <= u32::MAX,
    ensures
        match gap::first_separator(bytes, from, at, end) {
            Some(colon) => {
                &&& at <= colon < end
                &&& gap::separator(bytes, from, colon as int)
                &&& forall|k: int| at <= k < colon ==> !#[trigger] gap::separator(bytes, from, k)
            },
            None => forall|k: int| at <= k < end ==> !#[trigger] gap::separator(bytes, from, k),
        },
    decreases end - at,
{
    if at < end && !gap::separator(bytes, from, at) {
        lemma_first_separator(bytes, from, at + 1, end);
    }
}

// Comments.

/// Comments taken up to a bound are exactly those that end at or before it.
pub proof fn law_take_before_is_exact(pending: Seq<Comment>, bound: int)
    requires
        comments::source_ordered(pending),
    ensures
        comments::count_before(pending, bound) <= pending.len(),
        forall|i: int|
            0 <= i < pending.len() ==> (i < comments::count_before(pending, bound) <==> (
            #[trigger] pending[i]).span.end <= bound),
    decreases pending.len(),
{
    if pending.len() > 0 {
        let rest = pending.drop_first();
        assert(forall|i: int| 0 <= i < rest.len() ==> #[trigger] rest[i] == pending[i + 1]);
        law_take_before_is_exact(rest, bound);
        assert forall|i: int| 0 <= i < pending.len() implies (i < comments::count_before(
            pending,
            bound,
        ) <==> (#[trigger] pending[i]).span.end <= bound) by {
            if i > 0 {
                assert(rest[i - 1] == pending[i]);
                assert(pending[0].span.end <= pending[i].span.start);
            }
        }
    }
}

/// Taking up to one bound and then up to a later one takes what taking up to
/// the later one does.
pub proof fn law_take_before_composes(pending: Seq<Comment>, bound: int, later: int)
    requires
        bound <= later,
    ensures
        comments::count_before(pending, bound) <= pending.len(),
        comments::count_before(pending, later) == comments::count_before(pending, bound)
            + comments::count_before(
            pending.skip(comments::count_before(pending, bound) as int),
            later,
        ),
    decreases pending.len(),
{
    let n = comments::count_before(pending, bound);
    if n == 0 {
        assert(pending.skip(0) =~= pending);
    } else {
        law_take_before_composes(pending.drop_first(), bound, later);
        assert(pending.drop_first().skip(n - 1) =~= pending.skip(n as int));
    }
}

/// In the explicit form every comment that is pending before the `:` goes out
/// once and in order: first those that close the key, then the others. What
/// ends behind the `:` stays pending.
pub proof fn law_explicit_form_keeps_comments(pending: Seq<Comment>, colon: int, column: int)
    ensures
        ({
            let key_end = mapping_item::count_key_end(pending, colon, column) as int;
            let rest = pending.skip(key_end);
            let before_colon = comments::count_before(rest, colon) as int;
            let all = comments::count_before(pending, colon) as int;
            &&& key_end + before_colon == all <= pending.len()
            &&& pending.take(key_end) + rest.take(before_colon) == pending.take(all)
            &&& rest.skip(before_colon) == pending.skip(all)
        }),
    decreases pending.len(),
{
    let key_end = mapping_item::count_key_end(pending, colon, column) as int;
    let rest = pending.skip(key_end);
    lemma_count_before_bound(pending, colon);
    if key_end == 0 {
        assert(rest =~= pending);
    } else {
        law_explicit_form_keeps_comments(pending.drop_first(), colon, column);
        assert(pending.drop_first().skip(key_end - 1) =~= rest);
    }
    let before_colon = comments::count_before(rest, colon) as int;
    let all = comments::count_before(pending, colon) as int;
    assert(pending.take(key_end) + rest.take(before_colon) =~= pending.take(all));
    assert(rest.skip(before_colon) =~= pending.skip(all));
}

proof fn lemma_count_before_bound(pending: Seq<Comment>, bound: int)
    ensures
        comments::count_before(pending, bound) <= pending.len(),
    decreases pending.len(),
{
    if pending.len() > 0 {
        lemma_count_before_bound(pending.drop_first(), bound);
    }
}

/// The comments that close an explicit key are all indented deeper than the
/// item, and the first of the others before the `:` is not.
pub proof fn law_key_end_comments_are_deeper(pending: Seq<Comment>, colon: int, column: int)
    ensures
        ({
            let key_end = mapping_item::count_key_end(pending, colon, column) as int;
            &&& key_end <= pending.len()
            &&& forall|i: int| 0 <= i < key_end ==> (#[trigger] pending[i]).column > column
            &&& key_end < comments::count_before(pending, colon) ==> pending[key_end].column
                <= column
        }),
    decreases pending.len(),
{
    let key_end = mapping_item::count_key_end(pending, colon, column) as int;
    if key_end > 0 {
        let rest = pending.drop_first();
        law_key_end_comments_are_deeper(rest, colon, column);
        lemma_count_before_bound(pending, colon);
        assert(forall|i: int| 0 < i < pending.len() ==> #[trigger] pending[i] == rest[i - 1]);
    }
}

// Which layout an item takes.

/// In a flow mapping a lone key prints as the key alone; a pair of a flow
/// sequence without a value keeps the explicit form.
pub proof fn law_lone_key_in_flow(
    item: MappingItem,
    parent_tag_is_set: bool,
    f: YamlFormatter<'_>,
)
    requires
        item.key.content is Some,
        item.value.content is None,
    ensures
        mapping_item::layout_elements(
            item,
            f.options,
            mapping_item::layout(item, parent_tag_is_set, FlowParent::Mapping, f),
        ) == seq![Element::Key],
        mapping_item::layout_elements(
            item,
            f.options,
            mapping_item::layout(item, parent_tag_is_set, FlowParent::Sequence, f),
        ) == mapping_item::explicit_key(),
{
}

/// Whether the source writes `? key` or `key:` does not matter where there is
/// no value.
pub proof fn law_explicit_mark_without_value(
    item: MappingItem,
    other: MappingItem,
    parent_tag_is_set: bool,
    in_flow: FlowParent,
    f: YamlFormatter<'_>,
)
    requires
        item.value.content is None,
        other.span == item.span,
        other.column == item.column,
        other.value == item.value,
        other.key.span == item.key.span,
        other.key.content == item.key.content,
    ensures
        mapping_item::layout(other, parent_tag_is_set, in_flow, f) == mapping_item::layout(
            item,
            parent_tag_is_set,
            in_flow,
            f,
        ),
{
}

/// A comment right behind a key that has neither a `:` nor a value keeps the
/// explicit form in a block mapping.
pub proof fn law_comment_behind_key_keeps_explicit(
    item: MappingItem,
    parent_tag_is_set: bool,
    f: YamlFormatter<'_>,
)
    requires
        item.key.content is Some,
        item.value.content is None,
        gap::comment_follows(item.key.span.end, f),
    ensures
        mapping_item::layout(item, parent_tag_is_set, FlowParent::No, f) == Layout::ExplicitKey,
{
}

/// Where the item lives, and whether its parent has a tag, decides nothing but
/// the layout of an item without a value.
pub proof fn law_parent_matters_only_without_value(
    item: MappingItem,
    parent_tag_is_set: bool,
    in_flow: FlowParent,
    other_tag_is_set: bool,
    other_flow: FlowParent,
    f: YamlFormatter<'_>,
)
    requires
        item.value.content is Some,
    ensures
        mapping_item::layout(item, parent_tag_is_set, in_flow, f) == mapping_item::layout(
            item,
            other_tag_is_set,
            other_flow,
            f,
        ),
{
}

/// Of the layouts that the width decides, those of a key that may break offer
/// the explicit form, and no others.
pub proof fn law_explicit_variant_is_for_keys_that_break(
    item: MappingItem,
    parent_tag_is_set: bool,
    in_flow: FlowParent,
    f: YamlFormatter<'_>,
)
    ensures
        mapping_item::layout(item, parent_tag_is_set, in_flow, f) matches Layout::BestFitting {
            explicit_fallback,
        } ==> explicit_fallback == !scalar::absolutely_single_line(
            item.key.content,
            f.source,
            f.options.prose_wrap,
        ),
{
}

/// A key that is not inline always takes the explicit form, whatever else.
pub proof fn law_block_key_is_explicit(
    item: MappingItem,
    parent_tag_is_set: bool,
    in_flow: FlowParent,
    f: YamlFormatter<'_>,
)
    requires
        !scalar::inline(item.key.content),
        item.value.content is Some,
    ensures
        mapping_item::layout(item, parent_tag_is_set, in_flow, f) is ForcedExplicit,
{
}

/// An inline key that the source writes without `?` is not forced into the
/// explicit form: a comment above its value leads the value.
pub proof fn law_implicit_key_is_not_forced_explicit(
    item: MappingItem,
    parent_tag_is_set: bool,
    in_flow: FlowParent,
    f: YamlFormatter<'_>,
)
    requires
        !item.key.explicit,
        scalar::inline(item.key.content),
    ensures
        !(mapping_item::layout(item, parent_tag_is_set, in_flow, f) is ForcedExplicit),
{
}

/// A scalar over several lines as a key takes the explicit form where its
/// lines are preserved or survive folding.
pub proof fn law_multiline_scalar_key_is_explicit(
    item: MappingItem,
    key: Content,
    parent_tag_is_set: bool,
    in_flow: FlowParent,
    f: YamlFormatter<'_>,
)
    requires
        item.key.content == Some(key),
        item.value.content is Some,
        key.kind.is_flow_scalar(),
        !scalar::single_line(Some(key), f.source),
        f.options.prose_wrap is Preserve || scalar::forced_break_when_folded(Some(key), f.source),
    ensures
        ({
            let chosen = mapping_item::layout(item, parent_tag_is_set, in_flow, f);
            chosen is ForcedExplicit || chosen is Explicit
        }),
{
}

/// A block collection with neither an anchor nor a tag never shares a line
/// with its key.
pub proof fn law_bare_block_collection_leaves_key_line(
    item: MappingItem,
    value: Content,
    parent_tag_is_set: bool,
    in_flow: FlowParent,
    f: YamlFormatter<'_>,
)
    requires
        item.key.content is Some,
        item.value.content == Some(value),
        value.is_bare_block_collection(),
    ensures
        ({
            let chosen = mapping_item::layout(item, parent_tag_is_set, in_flow, f);
            chosen is ForcedExplicit || chosen is Explicit || chosen == Layout::Pinned {
                hard_line: true,
            }
        }),
{
}

/// A comment that is pending before the value keeps the value off the key's
/// line.
pub proof fn law_comment_before_value_breaks_line(
    item: MappingItem,
    value: Content,
    parent_tag_is_set: bool,
    in_flow: FlowParent,
    f: YamlFormatter<'_>,
)
    requires
        item.key.content is Some,
        item.value.content == Some(value),
        value.start <= value.span.start,
        gap::pending_comment_before(value.start, f),
    ensures
        ({
            let chosen = mapping_item::layout(item, parent_tag_is_set, in_flow, f);
            chosen is ForcedExplicit || chosen is Explicit || chosen == Layout::Pinned {
                hard_line: true,
            }
        }),
{
}

/// Without a comment, only an inline value is laid out by the width or on the
/// key's line: a block scalar, or a block collection with properties, follows
/// a pinned space or an explicit key.
pub proof fn law_block_value_is_pinned(
    item: MappingItem,
    value: Content,
    parent_tag_is_set: bool,
    in_flow: FlowParent,
    f: YamlFormatter<'_>,
)
    requires
        item.key.content is Some,
        item.value.content == Some(value),
        !scalar::inline(Some(value)),
    ensures
        ({
            let chosen = mapping_item::layout(item, parent_tag_is_set, in_flow, f);
            chosen is ForcedExplicit || chosen is Explicit || chosen is Pinned
        }),
{
}

/// Where folding can join the lines of a key, its lines do not force the
/// explicit form.
pub proof fn law_foldable_key_is_not_forced_explicit(
    item: MappingItem,
    parent_tag_is_set: bool,
    in_flow: FlowParent,
    f: YamlFormatter<'_>,
)
    requires
        !(f.options.prose_wrap is Preserve),
        !scalar::forced_break_when_folded(item.key.content, f.source),
    ensures
        !(mapping_item::layout(item, parent_tag_is_set, in_flow, f) is Explicit),
{
}

/// A flow collection as a key is reformatted onto one line: its lines in the
/// source do not force the explicit form.
pub proof fn law_flow_collection_key_is_not_forced_explicit(
    item: MappingItem,
    key: Content,
    parent_tag_is_set: bool,
    in_flow: FlowParent,
    f: YamlFormatter<'_>,
)
    requires
        item.key.content == Some(key),
        key.kind.is_flow_collection(),
    ensures
        !(mapping_item::layout(item, parent_tag_is_set, in_flow, f) is Explicit),
{
}

/// Of the comments only the first pending one has a say in the layout, and what
/// has been written so far has none.
pub proof fn law_layout_reads_first_comment(
    item: MappingItem,
    parent_tag_is_set: bool,
    in_flow: FlowParent,
    f: YamlFormatter<'_>,
    g: YamlFormatter<'_>,
)
    requires
        f.source == g.source,
        f.first_pending() == g.first_pending(),
        f.options == g.options,
    ensures
        mapping_item::layout(item, parent_tag_is_set, in_flow, f) == mapping_item::layout(
            item,
            parent_tag_is_set,
            in_flow,
            g,
        ),
{
}

// What a layout prints.

/// The runs of elements of which one is printed: the variants of a best
/// fitting layout, and the elements themselves of every other.
pub open spec fn printings(item: MappingItem, options: FormatOptions, chosen: Layout) -> Seq<
    Seq<Element>,
> {
    match chosen {
        Layout::BestFitting { explicit_fallback } => mapping_item::variants(
            item,
            options.indent_width,
            explicit_fallback,
        ),
        _ => seq![mapping_item::layout_elements(item, options, chosen)],
    }
}

/// The side of the item that an element prints.
pub open spec fn printed_part(element: Element) -> Option<Part> {
    match element {
        Element::Key | Element::Memoized(Part::Key) => Some(Part::Key),
        Element::Value | Element::Memoized(Part::Value) => Some(Part::Value),
        Element::SuppressedNode(_) => Some(Part::Value),
        Element::Deferred(Deferred::PinnedValue) => Some(Part::Value),
        _ => None,
    }
}

/// The sides of the item that elements print, in order.
pub open spec fn printed_parts(elements: Seq<Element>) -> Seq<Part>
    decreases elements.len(),
{
    if elements.len() == 0 {
        seq![]
    } else {
        let before = printed_parts(elements.drop_last());
        match printed_part(elements.last()) {
            Some(part) => before.push(part),
            None => before,
        }
    }
}

/// The sides that an item has.
pub open spec fn sides(item: MappingItem) -> Seq<Part> {
    let key = if item.key.content is Some {
        seq![Part::Key]
    } else {
        seq![]
    };
    if item.value.content is Some {
        key.push(Part::Value)
    } else {
        key
    }
}

broadcast proof fn lemma_printed_parts_concat(a: Seq<Element>, b: Seq<Element>)
    ensures
        #[trigger] printed_parts(a + b) == printed_parts(a) + printed_parts(b),
    decreases b.len(),
{
    if b.len() == 0 {
        assert(a + b =~= a);
        assert(printed_parts(a) + printed_parts(b) =~= printed_parts(a));
    } else {
        lemma_printed_parts_concat(a, b.drop_last());
        assert((a + b).drop_last() =~= a + b.drop_last());
        assert(printed_parts(a + b) =~= printed_parts(a) + printed_parts(b));
    }
}

/// The sides that a layout prints, best fitting ones apart.
proof fn lemma_printed_parts_of_layout(item: MappingItem, options: FormatOptions, chosen: Layout)
    requires
        !(chosen is BestFitting),
    ensures
        printed_parts(mapping_item::layout_elements(item, options, chosen)) == (match chosen {
            Layout::Empty { .. } => seq![],
            Layout::EmptyKey => seq![Part::Value],
            Layout::LoneKey | Layout::KeyColon | Layout::ExplicitKey => seq![Part::Key],
            _ => seq![Part::Key, Part::Value],
        }),
{
    broadcast use lemma_printed_parts_concat;

    reveal_with_fuel(printed_parts, 10);

    let elements = mapping_item::layout_elements(item, options, chosen);
    assert(printed_parts(Seq::<Element>::empty()) == Seq::<Part>::empty());
    assert(printed_parts(mapping_item::spacer(item)) =~= Seq::<Part>::empty());
    assert(printed_parts(mapping_item::explicit_key()) =~= seq![Part::Key]);
    assert(printed_parts(mapping_item::value_line()) =~= seq![Part::Value]);
    match chosen {
        Layout::Empty { comment } => {
            assert(printed_parts(elements) =~= Seq::<Part>::empty());
        },
        Layout::EmptyKey => {},
        Layout::LoneKey => {
            assert(printed_parts(elements) =~= seq![Part::Key]);
        },
        Layout::KeyColon => {
            assert(printed_parts(elements) =~= seq![Part::Key]);
        },
        Layout::ExplicitKey => {},
        Layout::ForcedExplicit { colon } => {
            assert(printed_parts(elements) =~= seq![Part::Key, Part::Value]);
        },
        Layout::SingleLine => {
            assert(printed_parts(elements) =~= seq![Part::Key, Part::Value]);
        },
        Layout::Explicit => {
            assert(printed_parts(elements) =~= seq![Part::Key, Part::Value]);
        },
        Layout::Pinned { hard_line } => {
            assert(printed_parts(mapping_item::pinned_separator(item, hard_line)) =~= Seq::<
                Part,
            >::empty());
            assert(printed_parts(elements) =~= seq![Part::Key, Part::Value]);
        },
        Layout::BestFitting { explicit_fallback } => {},
    }
}

/// Each variant prints the key and the value.
proof fn lemma_printed_parts_of_variants(item: MappingItem, indent: u8)
    ensures
        ({
            let both = seq![Part::Key, Part::Value];
            &&& printed_parts(mapping_item::same_line_variant(item, indent)) == both
            &&& printed_parts(mapping_item::next_line_variant(item, indent)) == both
            &&& printed_parts(mapping_item::explicit_variant()) == both
        }),
{
    reveal_with_fuel(printed_parts, 10);
    let both = seq![Part::Key, Part::Value];
    assert(printed_parts(mapping_item::same_line_variant(item, indent)) =~= both);
    assert(printed_parts(mapping_item::next_line_variant(item, indent)) =~= both);
    assert(printed_parts(mapping_item::explicit_variant()) =~= both);
}

/// Whatever is printed, each side that the item has is printed once, the key
/// first.
pub proof fn law_key_and_value_print_once(
    item: MappingItem,
    parent_tag_is_set: bool,
    in_flow: FlowParent,
    f: YamlFormatter<'_>,
)
    ensures
        ({
            let chosen = mapping_item::layout(item, parent_tag_is_set, in_flow, f);
            let printings = printings(item, f.options, chosen);
            &&& printings.len() > 0
            &&& forall|i: int|
                0 <= i < printings.len() ==> printed_parts(#[trigger] printings[i]) == sides(item)
        }),
{
    let chosen = mapping_item::layout(item, parent_tag_is_set, in_flow, f);
    if chosen is BestFitting {
        lemma_printed_parts_of_variants(item, f.options.indent_width);
        assert(sides(item) =~= seq![Part::Key, Part::Value]);
    } else {
        lemma_printed_parts_of_layout(item, f.options, chosen);
        assert(sides(item) =~= printed_parts(
            mapping_item::layout_elements(item, f.options, chosen),
        ));
    }
}

/// The parts that variants share are the key and the value, each defined
/// once.
pub proof fn law_shared_parts_are_key_and_value(value_start: u32)
    ensures
        printed_parts(mapping_item::shared_parts(value_start)) == seq![Part::Key, Part::Value],
{
    reveal_with_fuel(printed_parts, 10);
    assert(printed_parts(mapping_item::shared_parts(value_start)) =~= seq![Part::Key, Part::Value]);
}

/// Suppressed or not, a pinned value is printed once.
pub proof fn law_pinned_value_prints_once(value: Content, suppressed: bool)
    ensures
        printed_parts(mapping_item::pinned_value(value, suppressed)) == seq![Part::Value],
{
    reveal_with_fuel(printed_parts, 3);
    assert(printed_parts(mapping_item::pinned_value(value, suppressed)) =~= seq![Part::Value]);
}

/// A suppression marker does not reach a block collection as a whole.
pub proof fn law_block_collection_is_not_suppressed(value: Content)
    requires
        value.kind.is_block_collection(),
    ensures
        mapping_item::pinned_value(value, true) == mapping_item::pinned_value(value, false),
{
}

/// The mark of the explicit form.
pub open spec fn explicit_mark(element: Element) -> bool {
    element == Element::Text("? ")
}

proof fn lemma_texts_differ()
    ensures
        Element::Text("? ") != Element::Text(": "),
        Element::Text("? ") != Element::Text(":"),
        Element::Text("? ") != Element::Text(" :"),
        Element::Text(": ") != Element::Text(":"),
        Element::Text(": ") != Element::Text(" :"),
        Element::Text(":") != Element::Text(" :"),
{
    reveal_strlit("? ");
    reveal_strlit(": ");
    reveal_strlit(":");
    reveal_strlit(" :");
    assert("? "@[0] == '?' && ": "@[0] == ':' && ":"@[0] == ':' && " :"@[0] == ' ');
    assert(": "@.len() == 2 && ":"@.len() == 1);
}

/// A key that is sure to print on one line never flips to the explicit form,
/// however long it is: only what forces that form at once brings it.
pub proof fn law_single_line_key_is_never_explicit(
    item: MappingItem,
    value: Content,
    parent_tag_is_set: bool,
    in_flow: FlowParent,
    f: YamlFormatter<'_>,
)
    requires
        item.key.content is Some,
        item.value.content == Some(value),
        !mapping_item::forced_explicit(item, f),
        scalar::absolutely_single_line(item.key.content, f.source, f.options.prose_wrap),
    ensures
        ({
            let chosen = mapping_item::layout(item, parent_tag_is_set, in_flow, f);
            let printings = printings(item, f.options, chosen);
            forall|i: int, j: int|
                0 <= i < printings.len() && 0 <= j < printings[i].len() ==> !explicit_mark(
                    #[trigger] printings[i][j],
                )
        }),
{
    law_single_line_key_is_not_multiline(item, f);
    lemma_texts_differ();
}

/// The explicit form, where it is chosen at once, starts with its mark.
pub proof fn law_explicit_layout_starts_with_mark(
    item: MappingItem,
    options: FormatOptions,
    chosen: Layout,
)
    requires
        chosen is ExplicitKey || chosen is ForcedExplicit || chosen is Explicit,
    ensures
        explicit_mark(mapping_item::layout_elements(item, options, chosen)[0]),
{
}

/// Right before the `:` behind an alias stands a space: in every printing that
/// is not in the explicit form.
pub proof fn law_space_between_alias_and_colon(
    item: MappingItem,
    key: Content,
    parent_tag_is_set: bool,
    in_flow: FlowParent,
    f: YamlFormatter<'_>,
)
    requires
        item.key.content == Some(key),
        key.kind is Alias,
    ensures
        ({
            let chosen = mapping_item::layout(item, parent_tag_is_set, in_flow, f);
            let printings = printings(item, f.options, chosen);
            forall|i: int, j: int|
                0 <= i < printings.len() && !explicit_mark(printings[i][0]) && 0 <= j
                    < printings[i].len() && (#[trigger] printings[i][j] == Element::Text(":")
                    || printings[i][j] == Element::Text(": ")) ==> j > 0 && printings[i][j - 1]
                    == Element::Space
        }),
{
    lemma_texts_differ();
}

// How a layout nests.

/// The element opens what a later one closes.
pub open spec fn opens(element: Element) -> bool {
    match element {
        Element::StartAlign(_)
        | Element::StartGroup
        | Element::StartLineSuffix
        | Element::StartBestFitting
        | Element::StartVariant
        | Element::StartMemoized(_) => true,
        _ => false,
    }
}

/// The element closes what an earlier one opened.
pub open spec fn is_end(element: Element) -> bool {
    match element {
        Element::EndAlign
        | Element::EndGroup
        | Element::EndLineSuffix
        | Element::EndBestFitting
        | Element::EndVariant
        | Element::EndMemoized => true,
        _ => false,
    }
}

/// The two elements belong together.
pub open spec fn closes(start: Element, end: Element) -> bool {
    match start {
        Element::StartAlign(_) => end is EndAlign,
        Element::StartGroup => end is EndGroup,
        Element::StartLineSuffix => end is EndLineSuffix,
        Element::StartBestFitting => end is EndBestFitting,
        Element::StartVariant => end is EndVariant,
        Element::StartMemoized(_) => end is EndMemoized,
        _ => false,
    }
}

/// What is open behind the elements, when `open` is open before them; none
/// where an end does not match.
pub open spec fn nest(open: Seq<Element>, elements: Seq<Element>) -> Option<Seq<Element>>
    decreases elements.len(),
{
    if elements.len() == 0 {
        Some(open)
    } else {
        let first = elements[0];
        let rest = elements.drop_first();
        if opens(first) {
            nest(open.push(first), rest)
        } else if is_end(first) {
            if open.len() > 0 && closes(open.last(), first) {
                nest(open.drop_last(), rest)
            } else {
                None
            }
        } else {
            nest(open, rest)
        }
    }
}

/// Everything that the elements open they close, in order, and nothing else.
pub open spec fn balanced(elements: Seq<Element>) -> bool {
    forall|open: Seq<Element>| #[trigger] nest(open, elements) == Some(open)
}

proof fn lemma_nest_concat(open: Seq<Element>, a: Seq<Element>, b: Seq<Element>)
    ensures
        nest(open, a + b) == (match nest(open, a) {
            Some(inner) => nest(inner, b),
            None => None,
        }),
    decreases a.len(),
{
    if a.len() == 0 {
        assert(a + b =~= b);
    } else {
        assert((a + b).drop_first() =~= a.drop_first() + b);
        assert((a + b)[0] == a[0]);
        let first = a[0];
        if opens(first) {
            lemma_nest_concat(open.push(first), a.drop_first(), b);
        } else if is_end(first) {
            lemma_nest_concat(open.drop_last(), a.drop_first(), b);
        } else {
            lemma_nest_concat(open, a.drop_first(), b);
        }
    }
}

broadcast proof fn lemma_balanced_concat(a: Seq<Element>, b: Seq<Element>)
    requires
        balanced(a),
        balanced(b),
    ensures
        #[trigger] balanced(a + b),
{
    assert forall|open: Seq<Element>| #[trigger] nest(open, a + b) == Some(open) by {
        lemma_nest_concat(open, a, b);
    }
}

broadcast proof fn lemma_balanced_single(element: Element)
    requires
        !opens(element),
        !is_end(element),
    ensures
        #[trigger] balanced(seq![element]),
{
    reveal_with_fuel(nest, 2);
}

proof fn lemma_balanced_wrap(start: Element, inner: Seq<Element>, end: Element)
    requires
        opens(start),
        closes(start, end),
        balanced(inner),
    ensures
        balanced(seq![start] + inner + seq![end]),
{
    reveal_with_fuel(nest, 2);
    assert forall|open: Seq<Element>| #[trigger]
        nest(open, seq![start] + inner + seq![end]) == Some(open) by {
        lemma_nest_concat(open, seq![start] + inner, seq![end]);
        lemma_nest_concat(open, seq![start], inner);
        assert(seq![start].drop_first() =~= seq![]);
        assert(nest(open, seq![start]) == Some(open.push(start)));
        assert(nest(open.push(start), inner) == Some(open.push(start)));
        assert(open.push(start).drop_last() =~= open);
        assert(seq![end].drop_first() =~= seq![]);
    }
}

proof fn lemma_balanced_explicit_key()
    ensures
        balanced(mapping_item::explicit_key()),
{
    broadcast use {lemma_balanced_single, lemma_balanced_concat};

    lemma_balanced_wrap(Element::StartAlign(2), seq![Element::Key], Element::EndAlign);
    assert(mapping_item::explicit_key() =~= seq![Element::Text("? ")] + (
    seq![Element::StartAlign(2)] + seq![Element::Key] + seq![Element::EndAlign]));
}

proof fn lemma_balanced_value_line()
    ensures
        balanced(mapping_item::value_line()),
{
    broadcast use {lemma_balanced_single, lemma_balanced_concat};

    lemma_balanced_wrap(Element::StartAlign(2), seq![Element::Value], Element::EndAlign);
    assert(mapping_item::value_line() =~= seq![Element::Text(": ")] + (seq![Element::StartAlign(2)]
        + seq![Element::Value] + seq![Element::EndAlign]));
}

proof fn lemma_balanced_empty()
    ensures
        balanced(Seq::<Element>::empty()),
{
}

proof fn lemma_balanced_explicit_with_comments(colon: u32, column: u32)
    ensures
        balanced(mapping_item::explicit_with_comments(colon, column)),
{
    broadcast use {lemma_balanced_single, lemma_balanced_concat};

    lemma_balanced_value_line();
    let key_end = Element::Deferred(Deferred::KeyEndComments { colon, column });
    let before_colon = Element::Deferred(Deferred::CommentsBeforeColon { colon });
    let key = seq![Element::Key] + seq![key_end];
    lemma_balanced_wrap(Element::StartAlign(2), key, Element::EndAlign);
    assert(mapping_item::explicit_with_comments(colon, column) =~= seq![Element::Text("? ")] + (
    seq![Element::StartAlign(2)] + key + seq![Element::EndAlign]) + seq![Element::HardLineBreak]
        + seq![before_colon] + mapping_item::value_line());
}

proof fn lemma_balanced_pinned(item: MappingItem, options: FormatOptions, hard_line: bool)
    ensures
        balanced(
            mapping_item::layout_elements(item, options, Layout::Pinned { hard_line }),
        ),
{
    broadcast use {lemma_balanced_single, lemma_balanced_concat};

    lemma_balanced_empty();
    let separator = mapping_item::pinned_separator(item, hard_line);
    if hard_line {
        assert(separator =~= seq![Element::TrailingSameLineComment(item.key.span.end)]
            + seq![Element::HardLineBreak]);
    }
    let inner = mapping_item::spacer(item) + seq![Element::Text(":")] + separator
        + seq![Element::Deferred(Deferred::PinnedValue)];
    let align = Element::StartAlign(options.indent_width);
    lemma_balanced_wrap(align, inner, Element::EndAlign);
    assert(mapping_item::layout_elements(item, options, Layout::Pinned { hard_line })
        =~= seq![Element::Key] + (seq![align] + inner + seq![Element::EndAlign]));
}

proof fn lemma_balanced_variants(item: MappingItem, indent: u8, explicit_fallback: bool)
    ensures
        ({
            let variants = mapping_item::variants(item, indent, explicit_fallback);
            forall|i: int| 0 <= i < variants.len() ==> balanced(#[trigger] variants[i])
        }),
{
    broadcast use {lemma_balanced_single, lemma_balanced_concat};

    let key = seq![Element::Memoized(Part::Key)];
    let value = seq![Element::Memoized(Part::Value)];
    let colon = seq![Element::Text(mapping_item::colon_text(item))];
    let line = seq![Element::HardLineBreak];
    let align = Element::StartAlign(indent);
    let two = Element::StartAlign(2);
    let end = Element::EndAlign;
    lemma_balanced_wrap(align, value, end);
    lemma_balanced_wrap(align, line + value, end);
    lemma_balanced_wrap(two, key, end);
    lemma_balanced_wrap(two, value, end);
    assert(mapping_item::same_line_variant(item, indent) =~= key + colon + seq![Element::Space] + (
    seq![align] + value + seq![end]));
    assert(mapping_item::next_line_variant(item, indent) =~= key + colon + (seq![align] + (line
        + value) + seq![end]));
    assert(mapping_item::explicit_variant() =~= seq![Element::Text("? ")] + (seq![two] + key + seq![
        end,
    ]) + line + seq![Element::Text(": ")] + (seq![two] + value + seq![end]));
}

proof fn lemma_balanced_bracketed(variants: Seq<Seq<Element>>)
    requires
        forall|i: int| 0 <= i < variants.len() ==> balanced(#[trigger] variants[i]),
    ensures
        balanced(mapping_item::bracketed(variants)),
    decreases variants.len(),
{
    if variants.len() > 0 {
        let before = mapping_item::bracketed(variants.drop_last());
        let last = variants.last();
        lemma_balanced_bracketed(variants.drop_last());
        lemma_balanced_wrap(Element::StartVariant, last, Element::EndVariant);
        lemma_balanced_concat(
            before,
            seq![Element::StartVariant] + last + seq![Element::EndVariant],
        );
        assert(mapping_item::bracketed(variants) =~= before + (seq![Element::StartVariant] + last
            + seq![Element::EndVariant]));
    }
}

proof fn lemma_balanced_shared_parts(value_start: u32)
    ensures
        balanced(mapping_item::shared_parts(value_start)),
{
    broadcast use {lemma_balanced_single, lemma_balanced_concat};

    let group = seq![Element::StartGroup] + seq![Element::Value] + seq![Element::EndGroup];
    let value = seq![Element::LeadingComments(value_start)] + group;
    let key = seq![Element::Key];
    lemma_balanced_wrap(Element::StartGroup, seq![Element::Value], Element::EndGroup);
    lemma_balanced_wrap(Element::StartMemoized(Part::Value), value, Element::EndMemoized);
    lemma_balanced_wrap(Element::StartMemoized(Part::Key), key, Element::EndMemoized);
    assert(mapping_item::shared_parts(value_start) =~= (seq![Element::StartMemoized(Part::Key)]
        + key + seq![Element::EndMemoized]) + (seq![Element::StartMemoized(Part::Value)] + value
        + seq![Element::EndMemoized]));
}

/// In every layout what is opened is closed, in order.
pub proof fn law_layouts_are_balanced(item: MappingItem, options: FormatOptions, chosen: Layout)
    ensures
        balanced(mapping_item::layout_elements(item, options, chosen)),
{
    broadcast use {lemma_balanced_single, lemma_balanced_concat};

    lemma_balanced_empty();
    lemma_balanced_explicit_key();
    lemma_balanced_value_line();
    let elements = mapping_item::layout_elements(item, options, chosen);
    match chosen {
        Layout::Empty { comment: Some(span) } => {
            lemma_balanced_wrap(
                Element::StartLineSuffix,
                seq![Element::Comment(span)],
                Element::EndLineSuffix,
            );
            assert(elements =~= seq![Element::Text(": ")] + (seq![Element::StartLineSuffix] + seq![
                Element::Comment(span),
            ] + seq![Element::EndLineSuffix]) + seq![Element::ExpandParent]);
        },
        Layout::SingleLine => {
            assert(elements =~= seq![Element::Key] + mapping_item::spacer(item) + seq![
                Element::Text(": "),
            ] + seq![Element::Value]);
        },
        Layout::ForcedExplicit { colon: Some(colon) } => {
            lemma_balanced_explicit_with_comments(colon, item.column);
        },
        Layout::Pinned { hard_line } => {
            lemma_balanced_pinned(item, options, hard_line);
        },
        Layout::BestFitting { explicit_fallback } => {
            let value_start = (item.value.content->0).start;
            let variants = mapping_item::variants(item, options.indent_width, explicit_fallback);
            let inner = mapping_item::bracketed(variants);
            lemma_balanced_variants(item, options.indent_width, explicit_fallback);
            lemma_balanced_bracketed(variants);
            lemma_balanced_shared_parts(value_start);
            lemma_balanced_wrap(Element::StartBestFitting, inner, Element::EndBestFitting);
            assert(elements =~= mapping_item::shared_parts(value_start) + (
            seq![Element::StartBestFitting] + inner + seq![Element::EndBestFitting]));
        },
        _ => {},
    }
}

/// The comments of the explicit form, and a pinned value, open nothing.
pub proof fn law_deferred_pieces_are_balanced(
    comments: Seq<Comment>,
    value: Content,
    suppressed: bool,
)
    ensures
        balanced(mapping_item::on_new_lines(comments)),
        balanced(mapping_item::on_lines(comments)),
        balanced(mapping_item::pinned_value(value, suppressed)),
{
    lemma_balanced_flat(mapping_item::on_new_lines(comments));
    lemma_balanced_flat(mapping_item::on_lines(comments));
    lemma_balanced_flat(mapping_item::pinned_value(value, suppressed));
}

proof fn lemma_balanced_flat(elements: Seq<Element>)
    requires
        forall|i: int|
            0 <= i < elements.len() ==> !opens(#[trigger] elements[i]) && !is_end(elements[i]),
    ensures
        balanced(elements),
    decreases elements.len(),
{
    if elements.len() > 0 {
        let rest = elements.drop_first();
        lemma_balanced_flat(rest);
        assert forall|open: Seq<Element>| #[trigger] nest(open, elements) == Some(open) by {
            assert(nest(open, rest) == Some(open));
        }
    }
}

} // verus!
