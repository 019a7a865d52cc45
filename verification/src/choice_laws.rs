//! When an item takes which layout, and when it does not.

use crate::ast::{Content, MappingItem};
use crate::formatter::YamlFormatter;
use crate::gap;
use crate::mapping_item;
use crate::mapping_item::{FlowParent, Layout};
use crate::scalar;
use vstd::prelude::*;
use vstd::string::*;

verus! {

/// Which sides an item has tells the family of its layout.
pub proof fn law_layout_family_by_sides(
    item: MappingItem,
    parent_tag_is_set: bool,
    in_flow: FlowParent,
    f: YamlFormatter<'_>,
)
    ensures
        ({
            let chosen = mapping_item::layout(item, parent_tag_is_set, in_flow, f);
            &&& chosen is Empty <==> item.key.content is None && item.value.content is None
            &&& chosen is EmptyKey <==> item.key.content is None && item.value.content is Some
            &&& (chosen is LoneKey || chosen is KeyColon || chosen is ExplicitKey) <==> (
            item.key.content is Some && item.value.content is None)
        }),
{
}

/// An item with neither side takes the comment that follows it over spaces and
/// tabs, the first pending one, and no other; it leaves every comment pending
/// otherwise, and so does an item with a side.
pub proof fn law_empty_item_takes_following_comment(
    item: MappingItem,
    parent_tag_is_set: bool,
    in_flow: FlowParent,
    f: YamlFormatter<'_>,
)
    ensures
        ({
            let chosen = mapping_item::layout(item, parent_tag_is_set, in_flow, f);
            let left = mapping_item::pending_after(f.comments@, chosen);
            let empty = item.key.content is None && item.value.content is None;
            if empty && gap::comment_follows(item.span.end, f) {
                &&& chosen == Layout::Empty { comment: Some(f.comments@[0].span) }
                &&& seq![f.comments@[0]] + left == f.comments@
            } else {
                &&& empty ==> chosen == Layout::Empty { comment: None }
                &&& left == f.comments@
            }
        }),
{
    if gap::comment_follows(item.span.end, f) {
        assert(seq![f.comments@[0]] + f.comments@.drop_first() =~= f.comments@);
    }
}

/// A key without a value prints bare in a flow mapping and nowhere else.
/// Elsewhere it prints as `key:` exactly if it stands in a block mapping whose
/// parent has no tag, is sure to print on one line, and is not followed by a
/// comment over nothing but spaces and tabs; comments further on do not
/// matter. In every other case it keeps the explicit form.
pub proof fn law_key_without_value(
    item: MappingItem,
    parent_tag_is_set: bool,
    in_flow: FlowParent,
    f: YamlFormatter<'_>,
)
    requires
        item.key.content is Some,
        item.value.content is None,
    ensures
        ({
            let chosen = mapping_item::layout(item, parent_tag_is_set, in_flow, f);
            let sure = scalar::absolutely_single_line(
                item.key.content,
                f.source,
                f.options.prose_wrap,
            );
            let followed = gap::comment_follows(item.key.span.end, f);
            &&& chosen == Layout::LoneKey <==> in_flow is Mapping
            &&& chosen == Layout::KeyColon <==> (in_flow is No && !parent_tag_is_set && sure
                && !followed)
            &&& in_flow is Sequence ==> chosen == Layout::ExplicitKey
            &&& in_flow is No && (parent_tag_is_set || !sure || followed) ==> chosen
                == Layout::ExplicitKey
        }),
{
}

/// A comment that does not follow the key on its line has no say in the layout
/// of a key without a value: it is laid out as if there were none.
pub proof fn law_comment_elsewhere_does_not_touch_lone_key(
    item: MappingItem,
    parent_tag_is_set: bool,
    in_flow: FlowParent,
    f: YamlFormatter<'_>,
    g: YamlFormatter<'_>,
    k: int,
)
    requires
        item.key.content is Some,
        item.value.content is None,
        f.source == g.source,
        f.options == g.options,
        g.comments@.len() == 0,
        f.comments@.len() > 0,
        item.key.span.end <= k < f.comments@[0].span.start,
        f.source.spec_bytes()[k] != 0x20,
        f.source.spec_bytes()[k] != 0x09,
    ensures
        mapping_item::layout(item, parent_tag_is_set, in_flow, f) == mapping_item::layout(
            item,
            parent_tag_is_set,
            in_flow,
            g,
        ),
{
    assert(!gap::comment_follows(item.key.span.end, f));
    assert(!gap::comment_follows(item.key.span.end, g));
}

/// The explicit form is forced on a pair exactly if the key is a block
/// collection or a block scalar, or if the source writes `?` and the first
/// pending comment ends before the key's content, or has a line to itself
/// below the key and ends before the value. The `:` that it looks at is the
/// one between the key's end and the value.
pub proof fn law_explicit_form_is_forced(
    item: MappingItem,
    key: Content,
    value: Content,
    parent_tag_is_set: bool,
    in_flow: FlowParent,
    f: YamlFormatter<'_>,
)
    requires
        item.key.content == Some(key),
        item.value.content == Some(value),
    ensures
        ({
            let chosen = mapping_item::layout(item, parent_tag_is_set, in_flow, f);
            let block_key = key.kind is Mapping || key.kind is Sequence || key.kind is BlockLiteral
                || key.kind is BlockFolded;
            let line_feed = exists|k: int|
                item.key.span.end <= k < f.comments@[0].span.start
                    && #[trigger] f.source.spec_bytes()[k] == 0x0A;
            let comment = f.comments@.len() > 0 && (f.comments@[0].span.end <= key.start || (
            f.comments@[0].span.end <= value.start && f.comments@[0].own_line && line_feed));
            &&& chosen is ForcedExplicit <==> block_key || (item.key.explicit && comment)
            &&& chosen matches Layout::ForcedExplicit { colon } ==> colon == gap::colon_between(
                f.source.spec_bytes(),
                item.key.span.end,
                value.start,
            )
        }),
{
}

/// A pair goes on one line exactly if the explicit form is not forced, key and
/// value are both sure to print on one line under the mode in force, the key
/// stands on one line, and no comment trails it or is pending before the body
/// of the value.
pub proof fn law_pair_on_one_line(
    item: MappingItem,
    value: Content,
    parent_tag_is_set: bool,
    in_flow: FlowParent,
    f: YamlFormatter<'_>,
)
    requires
        item.key.content is Some,
        item.value.content == Some(value),
    ensures
        ({
            let chosen = mapping_item::layout(item, parent_tag_is_set, in_flow, f);
            let wrap = f.options.prose_wrap;
            let comment = f.comments@.len() > 0 && f.comments@[0].span.end <= value.span.start;
            chosen == Layout::SingleLine <==> {
                &&& !(chosen is ForcedExplicit)
                &&& scalar::absolutely_single_line(item.key.content, f.source, wrap)
                &&& scalar::absolutely_single_line(item.value.content, f.source, wrap)
                &&& scalar::single_line(item.key.content, f.source)
                &&& !gap::key_trailing_comment(item, value.start, f)
                &&& !comment
            }
        }),
{
}

/// Beyond the forced cases, the explicit form is chosen at once exactly for a
/// plain or quoted key over several lines of the source that are preserved, or
/// that folding cannot join for a blank line or a backslash at a line end.
pub proof fn law_multiline_key_chooses_explicit(
    item: MappingItem,
    key: Content,
    text: Seq<char>,
    parent_tag_is_set: bool,
    in_flow: FlowParent,
    f: YamlFormatter<'_>,
)
    requires
        item.key.content == Some(key),
        item.value.content is Some,
    ensures
        ({
            let chosen = mapping_item::layout(item, parent_tag_is_set, in_flow, f);
            let scalar_key = key.kind is Plain || key.kind is QuoteSingle || key.kind
                is QuoteDouble;
            &&& !scalar_key ==> !(chosen is Explicit)
            &&& scalar_key && scalar::scalar_text(key, f.source) == Some(text) ==> (chosen
                is Explicit <==> {
                &&& !(chosen is ForcedExplicit)
                &&& exists|k: int| 0 <= k < text.len() && #[trigger] text[k] == '\n'
                &&& f.options.prose_wrap is Preserve || scalar::blank_line(text)
                    || scalar::backslash_continuation(text)
            })
        }),
{
    assert(text.contains('\n') == exists|k: int|
        0 <= k < text.len() && #[trigger] text[k] == '\n');
}

/// Once the explicit form and one line are out, a forced line break goes
/// behind the `:` exactly if the value is a block mapping or sequence with
/// neither anchor nor tag, or if a comment is pending before the value.
pub proof fn law_hard_line_behind_colon(
    item: MappingItem,
    value: Content,
    parent_tag_is_set: bool,
    in_flow: FlowParent,
    f: YamlFormatter<'_>,
)
    requires
        item.key.content is Some,
        item.value.content == Some(value),
    ensures
        ({
            let chosen = mapping_item::layout(item, parent_tag_is_set, in_flow, f);
            let bare = (value.kind is Mapping || value.kind is Sequence) && value.props.anchor
                is None && value.props.tag is None;
            let comment = f.comments@.len() > 0 && f.comments@[0].span.end <= value.start;
            chosen == (Layout::Pinned { hard_line: true }) <==> {
                &&& !(chosen is ForcedExplicit)
                &&& !(chosen is Explicit)
                &&& !(chosen is SingleLine)
                &&& bare || comment
            }
        }),
{
}

/// Once the explicit form is out, a space that no width changes goes behind
/// the `:` exactly if no comment is pending before the value and the value is
/// a block scalar, or a block mapping or sequence with an anchor or a tag.
pub proof fn law_pinned_space_behind_colon(
    item: MappingItem,
    value: Content,
    parent_tag_is_set: bool,
    in_flow: FlowParent,
    f: YamlFormatter<'_>,
)
    requires
        item.key.content is Some,
        item.value.content == Some(value),
    ensures
        ({
            let chosen = mapping_item::layout(item, parent_tag_is_set, in_flow, f);
            let props = value.props.anchor is Some || value.props.tag is Some;
            let comment = f.comments@.len() > 0 && f.comments@[0].span.end <= value.start;
            chosen == (Layout::Pinned { hard_line: false }) <==> {
                &&& !(chosen is ForcedExplicit)
                &&& !(chosen is Explicit)
                &&& !comment
                &&& {
                    ||| value.kind is BlockLiteral
                    ||| value.kind is BlockFolded
                    ||| (value.kind is Mapping || value.kind is Sequence) && props
                }
            }
        }),
{
}

/// The width decides exactly where neither the explicit form nor one line is
/// chosen at once, the value is a scalar in flow style, an alias or a flow
/// collection, and no comment is pending before it. The explicit form is then
/// among the variants exactly if the key is not sure to print on one line.
pub proof fn law_width_decides_for_inline_values(
    item: MappingItem,
    value: Content,
    parent_tag_is_set: bool,
    in_flow: FlowParent,
    f: YamlFormatter<'_>,
)
    requires
        item.key.content is Some,
        item.value.content == Some(value),
    ensures
        ({
            let chosen = mapping_item::layout(item, parent_tag_is_set, in_flow, f);
            let inline = value.kind is Plain || value.kind is QuoteSingle || value.kind
                is QuoteDouble || value.kind is Alias || value.kind is FlowMapping || value.kind
                is FlowSequence;
            let comment = f.comments@.len() > 0 && f.comments@[0].span.end <= value.start;
            &&& chosen is BestFitting <==> {
                &&& !(chosen is ForcedExplicit || chosen is Explicit || chosen is SingleLine)
                &&& inline
                &&& !comment
            }
            &&& chosen matches Layout::BestFitting { explicit_fallback } ==> (explicit_fallback
                <==> !scalar::absolutely_single_line(
                item.key.content,
                f.source,
                f.options.prose_wrap,
            ))
        }),
{
}

/// An inline value without a comment before it stays on the key's line, or
/// goes where the width puts it: it is never pinned.
pub proof fn law_inline_value_is_never_pinned(
    item: MappingItem,
    value: Content,
    parent_tag_is_set: bool,
    in_flow: FlowParent,
    f: YamlFormatter<'_>,
)
    requires
        item.key.content is Some,
        item.value.content == Some(value),
        value.kind is Plain || value.kind is QuoteSingle || value.kind is QuoteDouble || value.kind
            is Alias || value.kind is FlowMapping || value.kind is FlowSequence,
        f.comments@.len() > 0 ==> f.comments@[0].span.end > value.start,
    ensures
        !(mapping_item::layout(item, parent_tag_is_set, in_flow, f) is Pinned),
{
}

} // verus!
