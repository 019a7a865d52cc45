//! What every call of the library's functions gives back or leaves behind.

use crate::ast::{is_valid_in, Content, MappingItem, Span};
use crate::comments;
use crate::comments::{is_source_ordered, Comment, Comments};
use crate::formatter::{Element, FormatOptions, YamlFormatter};
use crate::gap;
use crate::gap::{
    colon_position, has_comment_before_explicit_key, has_comment_following,
    has_own_line_comment_before_value, has_pending_comment_before, key_has_trailing_comment,
};
use crate::mapping_item;
use crate::mapping_item::{
    choose_layout, is_writable, write_comments_before_colon, write_key, write_key_end_comments,
    write_layout, write_mapping_item, write_pinned_value, write_value, FlowParent, Layout,
};
use crate::print_laws::{page, printed};
use crate::scalar;
use crate::scalar::{
    contains_char, has_backslash_continuation, has_blank_line, has_forced_break_when_folded,
    is_absolutely_single_line, is_inline, is_single_line, is_white_space, scalar_raw,
};
use vstd::prelude::*;
use vstd::string::*;
use vstd::utf8::*;

verus! {

/// A new span runs from its start to its end.
pub proof fn law_new_span(start: u32, end: u32, span: Span)
    requires
        call_ensures(Span::new, (start, end), span),
    ensures
        span == (Span { start, end }),
{
}

/// A new cursor has every comment of its list pending, in order.
pub proof fn law_new_comments(list: Vec<Comment>, all: Comments)
    requires
        call_ensures(Comments::new, (list,), all),
    ensures
        all@ == list@,
{
}

/// A new formatter reads what it was given, and its buffer is empty.
pub proof fn law_new_formatter<'a>(
    source: &'a str,
    pending: Comments,
    options: FormatOptions,
    f: YamlFormatter<'a>,
)
    requires
        call_ensures(YamlFormatter::<'a>::new, (source, pending, options), f),
    ensures
        f.source@ == source@,
        f.comments@ == pending@,
        f.options == options,
        f.elements@.len() == 0,
{
}

/// Peeking shows the comment that taking takes; taking leaves the others
/// pending, in order, and nothing is taken where nothing is pending.
pub proof fn law_taking_takes_what_peeking_shows(
    shown: Option<Comment>,
    taken: Option<Comment>,
    pending: &mut Comments,
)
    requires
        call_ensures(Comments::peek, (&*old(pending),), shown),
        call_ensures(Comments::take_first, (pending,), taken),
    ensures
        shown == taken,
        taken is None <==> old(pending)@.len() == 0,
        taken matches Some(comment) ==> old(pending)@ == seq![comment] + final(pending)@,
        taken is None ==> final(pending)@ == old(pending)@,
{
    if let Some(comment) = taken {
        assert(old(pending)@ =~= seq![comment] + final(pending)@);
    }
}

/// Taking the comments up to a bound parts what is pending in two: all of the
/// first part end at or before the bound, and the second part, which stays
/// pending, does not start with one that does.
pub proof fn law_taking_up_to_a_bound(bound: u32, taken: Vec<Comment>, pending: &mut Comments)
    requires
        call_ensures(Comments::take_before, (pending, bound), taken),
    ensures
        taken@ + final(pending)@ == old(pending)@,
        forall|i: int| 0 <= i < taken@.len() ==> (#[trigger] taken@[i]).span.end <= bound,
        final(pending)@.len() > 0 ==> final(pending)@[0].span.end > bound,
{
    crate::gap_laws::law_take_before_stops(old(pending)@, bound as int);
    assert(taken@ + final(pending)@ =~= old(pending)@);
}

/// Comments are told to be in source order exactly if none is empty and none
/// starts before an earlier one has ended.
pub proof fn law_source_order_is_told(list: &Vec<Comment>, ordered: bool)
    requires
        call_ensures(is_source_ordered, (list,), ordered),
    ensures
        ordered ==> forall|i: int|
            0 <= i < list@.len() ==> (#[trigger] list@[i]).span.start < list@[i].span.end,
        ordered ==> forall|i: int, j: int|
            0 <= i < j < list@.len() ==> (#[trigger] list@[i]).span.end <= (
            #[trigger] list@[j]).span.start,
        !ordered ==> (exists|i: int|
            0 <= i < list@.len() && (#[trigger] list@[i]).span.start >= list@[i].span.end) || (
        exists|i: int, j: int|
            0 <= i < j < list@.len() && (#[trigger] list@[i]).span.end > (
            #[trigger] list@[j]).span.start),
{
}

/// What can be written is told; and an item is writable only if its sides
/// cover texts.
pub proof fn law_writable_is_told(
    item: &MappingItem,
    f: &YamlFormatter<'_>,
    key_covers: bool,
    value_covers: bool,
    r: bool,
)
    requires
        call_ensures(is_valid_in, (item.key.content, f.source), key_covers),
        call_ensures(is_valid_in, (item.value.content, f.source), value_covers),
        call_ensures(is_writable, (item, f), r),
    ensures
        r == mapping_item::writable(*item, *f),
        r ==> key_covers && value_covers,
{
}

/// A node covers a text of the source unless it is a plain or quoted scalar
/// whose span is reversed, runs out of the source or cuts a character.
pub proof fn law_cover_is_told(node: Content, source: &str, r: bool, none: bool)
    requires
        call_ensures(is_valid_in, (Some(node), source), r),
        call_ensures(is_valid_in, (None::<Content>, source), none),
    ensures
        none,
        r == ((node.kind is Plain || node.kind is QuoteSingle || node.kind is QuoteDouble) ==> {
            &&& node.span.start <= node.span.end <= source.spec_bytes().len()
            &&& is_char_boundary(source.spec_bytes(), node.span.start as int)
            &&& is_char_boundary(source.spec_bytes(), node.span.end as int)
        }),
{
}

/// The questions about comments and the `:` around a key are answered as they
/// stand.
pub proof fn law_gap_is_told(
    item: &MappingItem,
    at: u32,
    to: u32,
    f: &YamlFormatter<'_>,
    colon: Option<u32>,
    answers: (bool, bool, bool, bool, bool),
)
    requires
        call_ensures(colon_position, (f.source, at, to), colon),
        call_ensures(has_comment_following, (at, f), answers.0),
        call_ensures(has_pending_comment_before, (at, f), answers.1),
        call_ensures(has_comment_before_explicit_key, (item, f), answers.2),
        call_ensures(key_has_trailing_comment, (item, at, f), answers.3),
        call_ensures(has_own_line_comment_before_value, (item, f), answers.4),
    ensures
        colon == gap::colon_between(f.source.spec_bytes(), at, to),
        answers.0 == gap::comment_follows(at, *f),
        answers.1 == gap::pending_comment_before(at, *f),
        answers.2 == gap::comment_before_explicit_key(*item, *f),
        answers.3 == gap::key_trailing_comment(*item, at, *f),
        answers.4 == gap::own_line_comment_before_value(*item, *f),
        answers.3 ==> answers.1,
{
}

/// The questions about a text are answered as they stand: a blank line, and a
/// backslash at a line end, as the text is put together line by line.
pub proof fn law_text_is_told(
    raw: &str,
    wanted: char,
    held: bool,
    white: bool,
    blank: bool,
    continued: bool,
)
    requires
        call_ensures(contains_char, (raw, wanted), held),
        call_ensures(is_white_space, (wanted,), white),
        call_ensures(has_blank_line, (raw,), blank),
        call_ensures(has_backslash_continuation, (raw,), continued),
    ensures
        held <==> exists|k: int| 0 <= k < raw@.len() && #[trigger] raw@[k] == wanted,
        white == scalar::white_space(wanted),
        blank == scalar::blank_line(raw@),
        continued == scalar::backslash_continuation(raw@),
        blank && wanted == '\n' ==> held,
        continued && wanted == '\\' ==> held,
{
    if blank && wanted == '\n' {
        let (i, j) = choose|i: int, j: int| #[trigger]
            scalar::blank_between(raw@, i, j) && scalar::line_end(raw@, j);
        assert(raw@[i] == '\n');
    }
}

/// The raw text of a node is there exactly for plain and quoted scalars, and
/// its bytes are those that the node's span covers.
pub proof fn law_raw_text_is_the_span<'a>(
    node: &Content,
    f: &YamlFormatter<'a>,
    raw: Option<&'a str>,
)
    requires
        node.span.start <= node.span.end <= f.source.spec_bytes().len(),
        is_char_boundary(f.source.spec_bytes(), node.span.start as int),
        is_char_boundary(f.source.spec_bytes(), node.span.end as int),
        call_ensures(scalar_raw, (node, f), raw),
    ensures
        raw is Some <==> node.kind is Plain || node.kind is QuoteSingle || node.kind
            is QuoteDouble,
        raw matches Some(text) ==> encode_utf8(text@) == f.source.spec_bytes().subrange(
            node.span.start as int,
            node.span.end as int,
        ),
{
    crate::text_laws::law_scalar_text_encodes_to_its_span(*node, f.source);
}

/// The questions about a node are answered as they stand, under the mode in
/// force.
pub proof fn law_node_is_told(
    content: Option<Content>,
    f: &YamlFormatter<'_>,
    answers: (bool, bool, bool, bool),
)
    requires
        call_ensures(is_inline, (content,), answers.0),
        call_ensures(is_single_line, (content, f), answers.1),
        call_ensures(is_absolutely_single_line, (content, f), answers.2),
        call_ensures(has_forced_break_when_folded, (content, f), answers.3),
    ensures
        answers.0 == scalar::inline(content),
        answers.1 == scalar::single_line(content, f.source),
        answers.2 == scalar::absolutely_single_line(content, f.source, f.options.prose_wrap),
        answers.3 == scalar::forced_break_when_folded(content, f.source),
{
}

/// The layout that is chosen is the item's.
pub proof fn law_choice_is_the_layout(
    item: &MappingItem,
    parent_tag_is_set: bool,
    in_flow: FlowParent,
    f: &YamlFormatter<'_>,
    chosen: Layout,
)
    requires
        call_ensures(choose_layout, (item, parent_tag_is_set, in_flow, f), chosen),
    ensures
        chosen == mapping_item::layout(*item, parent_tag_is_set, in_flow, *f),
{
}

/// A side is written exactly if it is there, and nothing else changes.
pub proof fn law_sides_are_written_where_they_are(
    item: &MappingItem,
    f: &mut YamlFormatter<'_>,
    g: &mut YamlFormatter<'_>,
)
    requires
        call_ensures(write_key, (item, f), ()),
        call_ensures(write_value, (item, g), ()),
    ensures
        final(f).elements@ == if item.key.content is Some {
            old(f).elements@.push(Element::Key)
        } else {
            old(f).elements@
        },
        final(g).elements@ == if item.value.content is Some {
            old(g).elements@.push(Element::Value)
        } else {
            old(g).elements@
        },
        final(f).comments@ == old(f).comments@,
        final(g).comments@ == old(g).comments@,
        final(f).source == old(f).source && final(f).options == old(f).options,
        final(g).source == old(g).source && final(g).options == old(g).options,
{
}

/// Writing a layout appends its elements and changes nothing else; written at
/// the item's own column, they print as the layout does.
pub proof fn law_layout_is_written(item: &MappingItem, chosen: Layout, f: &mut YamlFormatter<'_>)
    requires
        call_ensures(write_layout, (item, chosen, f), ()),
    ensures
        ({
            let held = old(f).elements@.len() as int;
            &&& final(f).elements@.len() >= held
            &&& final(f).elements@.take(held) == old(f).elements@
            &&& printed(final(f).elements@.skip(held)) == page(
                seq![],
                mapping_item::layout_elements(*item, old(f).options, chosen),
            )
            &&& final(f).elements@.skip(held) == mapping_item::layout_elements(
                *item,
                old(f).options,
                chosen,
            )
        }),
        final(f).comments@ == old(f).comments@,
        final(f).source == old(f).source,
        final(f).options == old(f).options,
{
    let held = old(f).elements@.len() as int;
    assert(final(f).elements@.take(held) =~= old(f).elements@);
    assert(final(f).elements@.skip(held) =~= mapping_item::layout_elements(
        *item,
        old(f).options,
        chosen,
    ));
}

/// Writing an item is choosing its layout and writing that. The pending
/// comments stay as they are, but for the first, which an empty item takes
/// where its layout holds a comment.
pub proof fn law_item_is_written_in_its_layout(
    item: &MappingItem,
    parent_tag_is_set: bool,
    in_flow: FlowParent,
    chosen: Layout,
    f: &mut YamlFormatter<'_>,
    g: &mut YamlFormatter<'_>,
)
    requires
        *old(f) == *old(g),
        call_ensures(choose_layout, (item, parent_tag_is_set, in_flow, &*old(f)), chosen),
        call_ensures(write_layout, (item, chosen, g), ()),
        call_ensures(write_mapping_item, (item, parent_tag_is_set, in_flow, f), ()),
    ensures
        final(f).elements@ == final(g).elements@,
        final(f).source == old(f).source,
        final(f).options == old(f).options,
        chosen matches Layout::Empty { comment: Some(span) } ==> old(f).comments@.len() > 0
            && old(f).comments@[0].span == span && final(f).comments@
            == old(f).comments@.drop_first(),
        !(chosen matches Layout::Empty { comment: Some(_) }) ==> final(f).comments@
            == old(f).comments@,
{
}

/// The comments that close a key are the pending ones up to the first that
/// ends behind the `:` or is not indented deeper than the item. Each goes on a
/// line of its own, and the others stay pending.
pub proof fn law_key_end_comments_are_written(
    colon: u32,
    column: u32,
    n: int,
    f: &mut YamlFormatter<'_>,
)
    requires
        call_ensures(write_key_end_comments, (colon, column, f), ()),
        0 <= n <= old(f).comments@.len(),
        forall|i: int|
            0 <= i < n ==> (#[trigger] old(f).comments@[i]).span.end <= colon
                && old(f).comments@[i].column > column,
        n < old(f).comments@.len() ==> old(f).comments@[n].span.end > colon
            || old(f).comments@[n].column <= column,
    ensures
        final(f).comments@ == old(f).comments@.skip(n),
        final(f).elements@ == old(f).elements@ + Seq::new(
            (2 * n) as nat,
            |i: int|
                if i % 2 == 0 {
                    Element::HardLineBreak
                } else {
                    Element::Comment(old(f).comments@[i / 2].span)
                },
        ),
        final(f).source == old(f).source,
        final(f).options == old(f).options,
{
    let pending = old(f).comments@;
    crate::gap_laws::law_key_end_comments_stop(pending, colon as int, column as int);
    let counted = mapping_item::count_key_end(pending, colon as int, column as int) as int;
    assert(counted == n) by {
        if counted < n {
            assert(pending[counted].span.end <= colon);
        }
        if n < counted {
            assert(pending[n].span.end <= colon);
        }
    }
    assert(final(f).elements@ =~= old(f).elements@ + Seq::new(
        (2 * n) as nat,
        |i: int|
            if i % 2 == 0 {
                Element::HardLineBreak
            } else {
                Element::Comment(old(f).comments@[i / 2].span)
            },
    ));
}

/// The comments before the `:` are the pending ones up to the first that ends
/// behind it. Each goes on a line of its own, and the others stay pending.
pub proof fn law_comments_before_colon_are_written(
    colon: u32,
    n: int,
    f: &mut YamlFormatter<'_>,
)
    requires
        call_ensures(write_comments_before_colon, (colon, f), ()),
        0 <= n <= old(f).comments@.len(),
        forall|i: int| 0 <= i < n ==> (#[trigger] old(f).comments@[i]).span.end <= colon,
        n < old(f).comments@.len() ==> old(f).comments@[n].span.end > colon,
    ensures
        final(f).comments@ == old(f).comments@.skip(n),
        final(f).elements@ == old(f).elements@ + Seq::new(
            (2 * n) as nat,
            |i: int|
                if i % 2 == 0 {
                    Element::Comment(old(f).comments@[i / 2].span)
                } else {
                    Element::HardLineBreak
                },
        ),
        final(f).source == old(f).source,
        final(f).options == old(f).options,
{
    let pending = old(f).comments@;
    crate::gap_laws::law_take_before_stops(pending, colon as int);
    let counted = comments::count_before(pending, colon as int) as int;
    assert(counted == n) by {
        if counted < n {
            assert(pending[counted].span.end <= colon);
        }
        if n < counted {
            assert(pending[n].span.end <= colon);
        }
    }
    assert(final(f).elements@ =~= old(f).elements@ + Seq::new(
        (2 * n) as nat,
        |i: int|
            if i % 2 == 0 {
                Element::Comment(old(f).comments@[i / 2].span)
            } else {
                Element::HardLineBreak
            },
    ));
}

/// A pinned value goes out as it stands in the source exactly if it is
/// suppressed and no block mapping or sequence; else with the comments that
/// lead it. Nothing else changes.
pub proof fn law_pinned_value_is_written(
    value: &Content,
    suppressed: bool,
    f: &mut YamlFormatter<'_>,
)
    requires
        call_ensures(write_pinned_value, (value, suppressed, f), ()),
    ensures
        ({
            let block = value.kind is Mapping || value.kind is Sequence;
            final(f).elements@ == if suppressed && !block {
                old(f).elements@.push(
                    Element::SuppressedNode(Span { start: value.start, end: value.span.end }),
                )
            } else {
                old(f).elements@.push(
                    Element::ValueLeadingComments { block_collection: block, start: value.start },
                ).push(Element::Value)
            }
        }),
        final(f).comments@ == old(f).comments@,
        final(f).source == old(f).source,
        final(f).options == old(f).options,
{
}

} // verus!
