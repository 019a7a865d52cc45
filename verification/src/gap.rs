//! Where the first pending comment and the `:` stand around the key and the
//! value of an item.

use crate::ast::MappingItem;
use crate::formatter::YamlFormatter;
use vstd::prelude::*;
use vstd::string::*;

verus! {

pub const TAB: u8 = 0x09;

pub const LINE_FEED: u8 = 0x0A;

pub const SPACE: u8 = 0x20;

pub const HASH: u8 = 0x23;

pub const COLON: u8 = 0x3A;

/// Only spaces and tabs stand in the range.
pub open spec fn blanks(bytes: Seq<u8>, from: int, to: int) -> bool {
    forall|k: int| from <= k < to ==> (#[trigger] bytes[k] == SPACE || bytes[k] == TAB)
}

/// No line break stands in the range.
pub open spec fn same_line(bytes: Seq<u8>, from: int, to: int) -> bool {
    forall|k: int| from <= k < to ==> #[trigger] bytes[k] != LINE_FEED
}

/// Some `#` at or after `from` opens a comment that runs over `at`.
pub open spec fn in_comment(bytes: Seq<u8>, from: int, at: int) -> bool {
    exists|hash: int|
        from <= hash < at && #[trigger] bytes[hash] == HASH && same_line(bytes, hash, at)
}

/// A `:` that no comment holds.
pub open spec fn separator(bytes: Seq<u8>, from: int, at: int) -> bool {
    bytes[at] == COLON && !in_comment(bytes, from, at)
}

/// The first separator from `at` on, with comments counted from `from` on.
pub open spec fn first_separator(bytes: Seq<u8>, from: int, at: int, end: int) -> Option<u32>
    decreases end - at,
{
    if at >= end {
        None
    } else if separator(bytes, from, at) {
        Some(at as u32)
    } else {
        first_separator(bytes, from, at + 1, end)
    }
}

/// The position of the `:` between a key that ends at `from` and a value that
/// starts at `to`.
pub open spec fn colon_between(bytes: Seq<u8>, from: u32, to: u32) -> Option<u32> {
    let end = if to <= bytes.len() {
        to as int
    } else {
        bytes.len() as int
    };
    first_separator(bytes, from as int, from as int, end)
}

/// A pending comment follows `after` on the same line, with only spaces and
/// tabs between.
pub open spec fn comment_follows(after: u32, f: YamlFormatter<'_>) -> bool {
    f.first_pending() matches Some(comment) && comment.span.start >= after && blanks(
        f.source.spec_bytes(),
        after as int,
        comment.span.start as int,
    )
}

/// A pending comment ends at or before `bound`.
pub open spec fn pending_comment_before(bound: u32, f: YamlFormatter<'_>) -> bool {
    f.first_pending() matches Some(comment) && comment.span.end <= bound
}

/// A comment stands between the `?` of an explicit key and the key's content.
pub open spec fn comment_before_explicit_key(item: MappingItem, f: YamlFormatter<'_>) -> bool {
    item.key.explicit && (item.key.content matches Some(key) && pending_comment_before(
        key.start,
        f,
    ))
}

/// A pending comment stands on the line on which the key ends, before the
/// value.
pub open spec fn key_trailing_comment(
    item: MappingItem,
    value_start: u32,
    f: YamlFormatter<'_>,
) -> bool {
    f.first_pending() matches Some(comment) && comment.span.start >= item.key.span.end
        && comment.span.end <= value_start && same_line(
        f.source.spec_bytes(),
        item.key.span.end as int,
        comment.span.start as int,
    )
}

/// No pending comment before the value starts inside the key.
pub open spec fn pending_comment_is_past_key(item: MappingItem, f: YamlFormatter<'_>) -> bool {
    item.value.content matches Some(value) ==> (f.first_pending() matches Some(comment) ==> (
    comment.span.end <= value.start ==> item.key.span.end <= comment.span.start))
}

/// A pending comment has a line to itself, below the key and before the value.
pub open spec fn own_line_comment_before_value(item: MappingItem, f: YamlFormatter<'_>) -> bool {
    item.value.content matches Some(value) && f.first_pending() matches Some(comment)
        && comment.span.end <= value.start && comment.own_line && !same_line(
        f.source.spec_bytes(),
        item.key.span.end as int,
        comment.span.start as int,
    )
}

/// Finds the `:` between the end of a key, `from`, and the start of its value,
/// `to`. A `:` in the text of a comment does not count.
pub fn colon_position(source: &str, from: u32, to: u32) -> (position: Option<u32>)
    ensures
        position == colon_between(source.spec_bytes(), from, to),
{
    let bytes = source.as_bytes();
    let end: usize = if (to as usize) < bytes.len() {
        to as usize
    } else {
        bytes.len()
    };
    let ghost b = bytes@;
    let ghost start = from as int;
    let mut i: usize = from as usize;
    while i < end
        invariant
            bytes@ == b,
            b == source.spec_bytes(),
            start == from,
            start <= i,
            end == (if to <= b.len() {
                to as int
            } else {
                b.len() as int
            }),
            i < end ==> (in_comment(b, start, i as int) ==> b[i as int] == LINE_FEED),
            first_separator(b, start, start, end as int) == first_separator(
                b,
                start,
                i as int,
                end as int,
            ),
        decreases end - i,
    {
        let ghost at = i as int;
        if bytes[i] == HASH {
            while i < end && bytes[i] != LINE_FEED
                invariant
                    bytes@ == b,
                    start <= at <= i <= end,
                    end <= b.len(),
                    b[at] == HASH,
                    same_line(b, at, i as int),
                    first_separator(b, start, start, end as int) == first_separator(
                        b,
                        start,
                        i as int,
                        end as int,
                    ),
                decreases end - i,
            {
                assert(i > at ==> in_comment(b, start, i as int));
                i += 1;
            }
        } else if bytes[i] == COLON {
            return Some(i as u32);
        } else {
            i += 1;
            if i < end {
                assert(in_comment(b, start, i as int) ==> in_comment(b, start, at)) by {
                    if in_comment(b, start, i as int) {
                        let hash = choose|hash: int|
                            start <= hash < i && #[trigger] b[hash] == HASH && same_line(
                                b,
                                hash,
                                i as int,
                            );
                        assert(b[at] != LINE_FEED);
                        assert(same_line(b, hash, at));
                    }
                }
            }
        }
    }
    None
}

/// Whether only spaces and tabs stand in a range of the source.
fn only_blanks(source: &str, from: u32, to: u32) -> (r: bool)
    requires
        from <= to <= source.spec_bytes().len(),
    ensures
        r == blanks(source.spec_bytes(), from as int, to as int),
{
    let bytes = source.as_bytes();
    let mut i: usize = from as usize;
    while i < to as usize
        invariant
            bytes@ == source.spec_bytes(),
            from <= i <= to <= bytes@.len(),
            blanks(bytes@, from as int, i as int),
        decreases to - i,
    {
        if bytes[i] != SPACE && bytes[i] != TAB {
            return false;
        }
        i += 1;
    }
    true
}

/// Whether no line break stands in a range of the source.
fn on_same_line(source: &str, from: u32, to: u32) -> (r: bool)
    requires
        from <= to <= source.spec_bytes().len(),
    ensures
        r == same_line(source.spec_bytes(), from as int, to as int),
{
    let bytes = source.as_bytes();
    let mut i: usize = from as usize;
    while i < to as usize
        invariant
            bytes@ == source.spec_bytes(),
            from <= i <= to <= bytes@.len(),
            same_line(bytes@, from as int, i as int),
        decreases to - i,
    {
        if bytes[i] == LINE_FEED {
            return false;
        }
        i += 1;
    }
    true
}

/// Whether a pending comment follows `after`, with only spaces and tabs
/// between.
pub fn has_comment_following(after: u32, f: &YamlFormatter<'_>) -> (r: bool)
    requires
        f.valid(),
    ensures
        r == comment_follows(after, *f),
{
    match f.comments.peek() {
        Some(comment) => comment.span.start >= after && only_blanks(
            f.source,
            after,
            comment.span.start,
        ),
        None => false,
    }
}

/// Whether there is a pending comment before `bound`.
pub fn has_pending_comment_before(bound: u32, f: &YamlFormatter<'_>) -> (r: bool)
    ensures
        r == pending_comment_before(bound, *f),
{
    match f.comments.peek() {
        Some(comment) => comment.span.end <= bound,
        None => false,
    }
}

/// Whether the source writes the key with `?` and a comment in between.
pub fn has_comment_before_explicit_key(item: &MappingItem, f: &YamlFormatter<'_>) -> (r: bool)
    ensures
        r == comment_before_explicit_key(*item, *f),
{
    item.key.explicit && match item.key.content {
        Some(key) => has_pending_comment_before(key.start, f),
        None => false,
    }
}

/// Whether there is a pending comment on the key's line, before the value
/// starts: `key: # comment` with the value on the next line. In
/// `key: value # comment` the comment trails the value instead.
pub fn key_has_trailing_comment(
    item: &MappingItem,
    value_start: u32,
    f: &YamlFormatter<'_>,
) -> (r: bool)
    requires
        f.valid(),
    ensures
        r == key_trailing_comment(*item, value_start, *f),
{
    match f.comments.peek() {
        Some(comment) => comment.span.start >= item.key.span.end && comment.span.end <= value_start
            && on_same_line(f.source, item.key.span.end, comment.span.start),
        None => false,
    }
}

/// Whether a comment on a line of its own stands between the key and the
/// value. A comment that trails the `:` leads the value instead.
pub fn has_own_line_comment_before_value(item: &MappingItem, f: &YamlFormatter<'_>) -> (r: bool)
    requires
        f.valid(),
        pending_comment_is_past_key(*item, *f),
    ensures
        r == own_line_comment_before_value(*item, *f),
{
    let bound: u32 = match item.value.content {
        Some(value) => value.start,
        None => {
            return false;
        },
    };
    let comment = match f.comments.peek() {
        Some(comment) => comment,
        None => {
            return false;
        },
    };
    if comment.span.end > bound {
        return false;
    }
    // A comment on the line on which the key ends trails the key.
    !on_same_line(f.source, item.key.span.end, comment.span.start) && comment.own_line
}

} // verus!
