//! What holds of the comments and the `:` around a key, in terms of the bytes
//! of the source and of the first pending comment.

use crate::ast::{Content, MappingItem};
use crate::comments;
use crate::comments::Comment;
use crate::formatter::{Element, YamlFormatter};
use crate::gap;
use crate::mapping_item;
use vstd::prelude::*;
use vstd::string::*;
use vstd::utf8::*;

verus! {

/// A comment follows a position if it starts there; it follows an earlier one
/// exactly if a space or a tab stands at that one and it follows the next. No
/// comment follows a position behind its start.
pub proof fn law_comment_follows_over_blanks(after: u32, f: YamlFormatter<'_>)
    ensures
        f.comments@.len() == 0 ==> !gap::comment_follows(after, f),
        f.comments@.len() > 0 ==> {
            let start = f.comments@[0].span.start;
            &&& after > start ==> !gap::comment_follows(after, f)
            &&& after == start ==> gap::comment_follows(after, f)
            &&& after < start ==> gap::comment_follows(after, f) == ((
            f.source.spec_bytes()[after as int] == 0x20 || f.source.spec_bytes()[after as int]
                == 0x09) && gap::comment_follows((after + 1) as u32, f))
        },
{
    if f.comments@.len() > 0 && after < f.comments@[0].span.start {
        let bytes = f.source.spec_bytes();
        let start = f.comments@[0].span.start as int;
        let next = after + 1;
        if gap::blanks(bytes, next, start) && (bytes[after as int] == 0x20 || bytes[after as int]
            == 0x09) {
            assert(gap::blanks(bytes, after as int, start));
        }
    }
}

/// A comment is pending before a bound exactly if the first pending one ends
/// there or earlier; so it is before every later bound too.
pub proof fn law_pending_before_bound(bound: u32, later: u32, f: YamlFormatter<'_>)
    ensures
        f.comments@.len() == 0 ==> !gap::pending_comment_before(bound, f),
        f.comments@.len() > 0 ==> gap::pending_comment_before(f.comments@[0].span.end, f),
        f.comments@.len() > 0 && f.comments@[0].span.end > bound ==> !gap::pending_comment_before(
            bound,
            f,
        ),
        gap::pending_comment_before(bound, f) && bound <= later ==> gap::pending_comment_before(
            later,
            f,
        ),
{
}

/// A comment trails the key exactly if it is pending before the value, does
/// not start before the key's end, and no line feed stands in between.
pub proof fn law_key_trailing_comment(item: MappingItem, value_start: u32, f: YamlFormatter<'_>)
    ensures
        gap::key_trailing_comment(item, value_start, f) ==> f.comments@.len() > 0,
        f.comments@.len() > 0 ==> {
            let comment = f.comments@[0];
            let line_feed = exists|k: int|
                item.key.span.end <= k < comment.span.start
                    && #[trigger] f.source.spec_bytes()[k] == 0x0A;
            gap::key_trailing_comment(item, value_start, f) == (comment.span.end <= value_start
                && item.key.span.end <= comment.span.start && !line_feed)
        },
{
}

/// A comment that trails the key is pending before the value, and has a line
/// to itself below the key only where it does not trail the key.
pub proof fn law_trailing_comment_is_pending(
    item: MappingItem,
    value: Content,
    f: YamlFormatter<'_>,
)
    requires
        item.value.content == Some(value),
        gap::key_trailing_comment(item, value.start, f),
    ensures
        gap::pending_comment_before(value.start, f),
        !gap::own_line_comment_before_value(item, f),
{
}

/// Before the `:` the explicit form of the source has a comment that stands on
/// its own exactly if the first pending one ends before the value, has its
/// line to itself, and a line feed stands between the key and it.
pub proof fn law_own_line_comment(item: MappingItem, f: YamlFormatter<'_>)
    ensures
        item.value.content is None ==> !gap::own_line_comment_before_value(item, f),
        f.comments@.len() == 0 ==> !gap::own_line_comment_before_value(item, f),
        f.comments@.len() > 0 ==> (item.value.content matches Some(value) ==> {
            let comment = f.comments@[0];
            let line_feed = exists|k: int|
                item.key.span.end <= k < comment.span.start
                    && #[trigger] f.source.spec_bytes()[k] == 0x0A;
            gap::own_line_comment_before_value(item, f) == (comment.span.end <= value.start
                && comment.own_line && line_feed)
        }),
{
}

/// A comment stands before an explicit key exactly if the key is written with
/// `?`, has content, and the first pending comment ends before that starts.
pub proof fn law_comment_before_explicit_key(item: MappingItem, f: YamlFormatter<'_>)
    ensures
        !item.key.explicit ==> !gap::comment_before_explicit_key(item, f),
        item.key.content is None ==> !gap::comment_before_explicit_key(item, f),
        f.comments@.len() == 0 ==> !gap::comment_before_explicit_key(item, f),
        item.key.explicit && f.comments@.len() > 0 ==> (item.key.content matches Some(key)
            ==> gap::comment_before_explicit_key(item, f) == (f.comments@[0].span.end
            <= key.start)),
{
}

/// The `:` that is found lies in the gap; every `#` before it, from the key's
/// end on, is followed by a line feed before it; and every earlier `:` has a
/// `#` before it with no line feed in between.
pub proof fn law_colon_found(bytes: Seq<u8>, from: u32, to: u32, colon: u32)
    requires
        gap::colon_between(bytes, from, to) == Some(colon),
    ensures
        from <= colon < to,
        colon < bytes.len(),
        bytes[colon as int] == 0x3A,
        forall|hash: int|
            from <= hash < colon && #[trigger] bytes[hash] == 0x23 ==> exists|n: int|
                hash < n < colon && #[trigger] bytes[n] == 0x0A,
        forall|p: int|
            from <= p < colon && #[trigger] bytes[p] == 0x3A ==> exists|hash: int|
                from <= hash < p && #[trigger] bytes[hash] == 0x23 && forall|n: int|
                    hash < n < p ==> #[trigger] bytes[n] != 0x0A,
{
    crate::laws::law_colon_is_first_outside_comments(bytes, from, to);
    assert forall|hash: int| from <= hash < colon && #[trigger] bytes[hash] == 0x23 implies exists|
        n: int,
    |
        hash < n < colon && #[trigger] bytes[n] == 0x0A by {
        assert(!gap::same_line(bytes, hash, colon as int));
    }
    assert forall|p: int| from <= p < colon && #[trigger] bytes[p] == 0x3A implies exists|
        hash: int,
    |
        from <= hash < p && #[trigger] bytes[hash] == 0x23 && forall|n: int|
            hash < n < p ==> #[trigger] bytes[n] != 0x0A by {
        assert(!gap::separator(bytes, from as int, p));
    }
}

/// Where no `:` is found, every `:` in the gap has a `#` before it with no line
/// feed in between.
pub proof fn law_colon_not_found(bytes: Seq<u8>, from: u32, to: u32)
    requires
        gap::colon_between(bytes, from, to) is None,
    ensures
        forall|p: int|
            from <= p < to && p < bytes.len() && #[trigger] bytes[p] == 0x3A ==> exists|hash: int|
                from <= hash < p && #[trigger] bytes[hash] == 0x23 && forall|n: int|
                    hash < n < p ==> #[trigger] bytes[n] != 0x0A,
{
    crate::laws::law_colon_is_first_outside_comments(bytes, from, to);
    assert forall|p: int|
        from <= p < to && p < bytes.len() && #[trigger] bytes[p] == 0x3A implies exists|hash: int|
        from <= hash < p && #[trigger] bytes[hash] == 0x23 && forall|n: int|
            hash < n < p ==> #[trigger] bytes[n] != 0x0A by {
        assert(!gap::separator(bytes, from as int, p));
    }
}

/// One more comment keeps a list in source order exactly if it is not empty
/// and starts no earlier than the last one ends.
pub proof fn law_source_order_grows(list: Seq<Comment>, next: Comment)
    ensures
        comments::source_ordered(Seq::<Comment>::empty()),
        comments::source_ordered(list.push(next)) == (comments::source_ordered(list)
            && next.span.start < next.span.end && (list.len() > 0 ==> list.last().span.end
            <= next.span.start)),
{
    let longer = list.push(next);
    assert(longer[list.len() as int] == next);
    assert(forall|i: int| 0 <= i < list.len() ==> #[trigger] longer[i] == list[i]);
    if comments::source_ordered(longer) {
        assert(comments::source_ordered(list)) by {
            assert forall|i: int| 0 <= i < list.len() implies (#[trigger] list[i]).span.start
                < list[i].span.end by {
                assert(longer[i] == list[i]);
            }
            assert forall|i: int, j: int| 0 <= i < j < list.len() implies (
            #[trigger] list[i]).span.end <= (#[trigger] list[j]).span.start by {
                assert(longer[i] == list[i] && longer[j] == list[j]);
            }
        }
        if list.len() > 0 {
            assert(longer[list.len() - 1] == list.last());
        }
    }
    if comments::source_ordered(list) && next.span.start < next.span.end && (list.len() > 0
        ==> list.last().span.end <= next.span.start) {
        assert forall|i: int, j: int| 0 <= i < j < longer.len() implies (
        #[trigger] longer[i]).span.end <= (#[trigger] longer[j]).span.start by {
            if j == list.len() && i < list.len() - 1 {
                assert(list[i].span.end <= list[list.len() - 1].span.start);
                assert(list[list.len() - 1].span.start < list[list.len() - 1].span.end);
            }
        }
    }
}

/// Taking comments up to a bound stops at the first that ends behind it.
pub proof fn law_take_before_stops(pending: Seq<Comment>, bound: int)
    ensures
        ({
            let n = comments::count_before(pending, bound) as int;
            &&& n <= pending.len()
            &&& forall|i: int| 0 <= i < n ==> (#[trigger] pending[i]).span.end <= bound
            &&& n < pending.len() ==> pending[n].span.end > bound
        }),
    decreases pending.len(),
{
    if pending.len() > 0 && pending[0].span.end <= bound {
        let rest = pending.drop_first();
        law_take_before_stops(rest, bound);
        assert(forall|i: int| 0 < i < pending.len() ==> #[trigger] pending[i] == rest[i - 1]);
    }
}

/// The comments that close a key run up to the first that ends behind the `:`
/// or is not indented deeper than the item.
pub proof fn law_key_end_comments_stop(pending: Seq<Comment>, colon: int, column: int)
    ensures
        ({
            let n = mapping_item::count_key_end(pending, colon, column) as int;
            &&& n <= pending.len()
            &&& forall|i: int|
                0 <= i < n ==> (#[trigger] pending[i]).span.end <= colon && pending[i].column
                    > column
            &&& n < pending.len() ==> pending[n].span.end > colon || pending[n].column <= column
        }),
    decreases pending.len(),
{
    if pending.len() > 0 && pending[0].span.end <= colon && pending[0].column > column {
        let rest = pending.drop_first();
        law_key_end_comments_stop(rest, colon, column);
        assert(forall|i: int| 0 < i < pending.len() ==> #[trigger] pending[i] == rest[i - 1]);
    }
}

/// Comments are written one after the other: a key's, each below a line break;
/// those before the `:`, each above one.
pub proof fn law_comments_are_written_in_turn(some: Seq<Comment>, next: Comment)
    ensures
        mapping_item::on_new_lines(Seq::<Comment>::empty()) == Seq::<Element>::empty(),
        mapping_item::on_lines(Seq::<Comment>::empty()) == Seq::<Element>::empty(),
        mapping_item::on_new_lines(some.push(next)) == mapping_item::on_new_lines(some).push(
            Element::HardLineBreak,
        ).push(Element::Comment(next.span)),
        mapping_item::on_lines(some.push(next)) == mapping_item::on_lines(some).push(
            Element::Comment(next.span),
        ).push(Element::HardLineBreak),
{
    assert(mapping_item::on_new_lines(Seq::<Comment>::empty()) =~= Seq::<Element>::empty());
    assert(mapping_item::on_lines(Seq::<Comment>::empty()) =~= Seq::<Element>::empty());
    assert(mapping_item::on_new_lines(some.push(next)) =~= mapping_item::on_new_lines(some).push(
        Element::HardLineBreak,
    ).push(Element::Comment(next.span)));
    assert(mapping_item::on_lines(some.push(next)) =~= mapping_item::on_lines(some).push(
        Element::Comment(next.span),
    ).push(Element::HardLineBreak));
}

/// Every item whose plain and quoted scalars cover texts of the source can be
/// written, as long as the first pending comment starts in the source and,
/// where an explicit inline key has no comment before it, does not lie between
/// the key's start and its end, before the value.
pub proof fn law_writable_items(item: MappingItem, f: YamlFormatter<'_>)
    ensures
        mapping_item::writable(item, f) == {
            let bytes = f.source.spec_bytes();
            let covers = |side: Option<Content>|
                side matches Some(node) ==> {
                    ||| !(node.kind is Plain || node.kind is QuoteSingle || node.kind
                        is QuoteDouble)
                    ||| {
                        &&& node.span.start <= node.span.end <= bytes.len()
                        &&& is_char_boundary(bytes, node.span.start as int)
                        &&& is_char_boundary(bytes, node.span.end as int)
                    }
                };
            &&& covers(item.key.content)
            &&& covers(item.value.content)
            &&& f.comments@.len() > 0 ==> {
                let comment = f.comments@[0].span;
                &&& comment.start <= bytes.len()
                &&& (item.key.content matches Some(key) && item.value.content matches Some(value)
                    && item.key.explicit && !(key.kind is Mapping || key.kind is Sequence
                    || key.kind is BlockLiteral || key.kind is BlockFolded) && key.start
                    < comment.end <= value.start) ==> item.key.span.end <= comment.start
            }
        },
{
}

} // verus!
