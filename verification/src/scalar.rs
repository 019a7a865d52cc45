//! The source text of scalars, and whether it stays on one line.

use crate::ast::{Content, ContentKind};
use crate::formatter::{ProseWrap, YamlFormatter};
use vstd::prelude::*;
use vstd::string::*;
use vstd::utf8::*;

verus! {

/// The characters with the Unicode property `White_Space`.
pub open spec fn white_space(c: char) -> bool {
    ||| '\t' <= c <= '\r'
    ||| c == ' '
    ||| c == '\u{85}'
    ||| c == '\u{A0}'
    ||| c == '\u{1680}'
    ||| '\u{2000}' <= c <= '\u{200A}'
    ||| c == '\u{2028}'
    ||| c == '\u{2029}'
    ||| c == '\u{202F}'
    ||| c == '\u{205F}'
    ||| c == '\u{3000}'
}

/// Only white space stands between the line break at `i` and `j`.
pub open spec fn blank_between(text: Seq<char>, i: int, j: int) -> bool {
    &&& 0 <= i < j <= text.len()
    &&& text[i] == '\n'
    &&& forall|k: int| i < k < j ==> white_space(#[trigger] text[k])
}

/// A line ends at `j`.
pub open spec fn line_end(text: Seq<char>, j: int) -> bool {
    j == text.len() || (0 <= j < text.len() && text[j] == '\n')
}

/// Some line after the first holds nothing but white space.
pub open spec fn blank_line(text: Seq<char>) -> bool {
    exists|i: int, j: int| #[trigger] blank_between(text, i, j) && line_end(text, j)
}

/// Some line ends with a backslash.
pub open spec fn backslash_continuation(text: Seq<char>) -> bool {
    exists|j: int| 0 <= j < text.len() && #[trigger] text[j] == '\\' && line_end(text, j + 1)
}

/// The text that a flow scalar covers; none for other content.
pub open spec fn scalar_text(content: Content, source: &str) -> Option<Seq<char>> {
    if content.kind.is_flow_scalar() {
        Some(
            decode_utf8(
                source.spec_bytes().subrange(content.span.start as int, content.span.end as int),
            ),
        )
    } else {
        None
    }
}

/// The node is neither a block collection nor a block scalar.
pub open spec fn inline(content: Option<Content>) -> bool {
    match content {
        Some(node) => !node.kind.is_block_collection() && !node.kind.is_block_scalar(),
        None => true,
    }
}

/// The node occupies one line of the source.
pub open spec fn single_line(content: Option<Content>, source: &str) -> bool {
    match content {
        None => true,
        Some(node) => node.kind is Alias || (scalar_text(node, source) matches Some(text)
            && !text.contains('\n')),
    }
}

/// The text stays on one line when it is printed, whatever the width.
pub open spec fn prints_on_one_line(text: Seq<char>, prose_wrap: ProseWrap) -> bool {
    match prose_wrap {
        ProseWrap::Preserve => !text.contains('\n'),
        ProseWrap::Never => !backslash_continuation(text) && !blank_line(text),
        ProseWrap::Always => !backslash_continuation(text) && !text.contains('\n')
            && !text.contains(' '),
    }
}

/// The node is printed on one line, whatever the width.
pub open spec fn absolutely_single_line(
    content: Option<Content>,
    source: &str,
    prose_wrap: ProseWrap,
) -> bool {
    match content {
        None => true,
        Some(node) => node.kind is Alias || (scalar_text(node, source) matches Some(text)
            && prints_on_one_line(text, prose_wrap)),
    }
}

/// Folding leaves a line break in the node: always so where the node is no
/// flow scalar.
pub open spec fn forced_break_when_folded(content: Option<Content>, source: &str) -> bool {
    match content {
        None => false,
        Some(node) => scalar_text(node, source) matches Some(text) ==> blank_line(text)
            || backslash_continuation(text),
    }
}

/// Whether a character has the Unicode property `White_Space`.
pub fn is_white_space(c: char) -> (white: bool)
    ensures
        white == white_space(c),
{
    ('\t' <= c && c <= '\r') || c == ' ' || c == '\u{85}' || c == '\u{A0}' || c == '\u{1680}' || (
    '\u{2000}' <= c && c <= '\u{200A}') || c == '\u{2028}' || c == '\u{2029}' || c == '\u{202F}'
        || c == '\u{205F}' || c == '\u{3000}'
}

/// Whether a text holds a character.
pub fn contains_char(raw: &str, wanted: char) -> (found: bool)
    ensures
        found == raw@.contains(wanted),
{
    for c in it: raw.chars()
        invariant
            it.seq() == raw@,
            forall|k: int| 0 <= k < it.index() ==> raw@[k] != wanted,
    {
        if c == wanted {
            assert(raw@[it.index() as int] == wanted);
            return true;
        }
    }
    false
}

/// Whether some line after the first is blank. Blank lines survive folding:
/// they are paragraph breaks.
pub fn has_blank_line(raw: &str) -> (blank: bool)
    ensures
        blank == blank_line(raw@),
{
    let mut blank_so_far = false;
    for c in it: raw.chars()
        invariant
            it.seq() == raw@,
            blank_so_far == (exists|i: int| #[trigger] blank_between(raw@, i, it.index() as int)),
            forall|i: int, j: int|
                #[trigger] blank_between(raw@, i, j) && j < it.index() ==> !line_end(raw@, j),
    {
        let ghost at = it.index() as int;
        if c == '\n' {
            if blank_so_far {
                let ghost i = choose|i: int| blank_between(raw@, i, at);
                assert(blank_between(raw@, i, at) && line_end(raw@, at));
                return true;
            }
            blank_so_far = true;
            assert(blank_between(raw@, at, at + 1));
        } else if !is_white_space(c) {
            blank_so_far = false;
            assert(forall|i: int| #[trigger]
                blank_between(raw@, i, at + 1) ==> white_space(raw@[at]));
        } else {
            assert(forall|i: int| #[trigger]
                blank_between(raw@, i, at) ==> blank_between(raw@, i, at + 1));
            assert(forall|i: int| #[trigger]
                blank_between(raw@, i, at + 1) ==> blank_between(raw@, i, at));
        }
    }
    blank_so_far
}

/// Whether some line ends with a backslash, which pins the line structure.
pub fn has_backslash_continuation(raw: &str) -> (continued: bool)
    ensures
        continued == backslash_continuation(raw@),
{
    let mut after_backslash = false;
    for c in it: raw.chars()
        invariant
            it.seq() == raw@,
            after_backslash == (it.index() > 0 && raw@[it.index() - 1] == '\\'),
            forall|j: int|
                0 <= j < it.index() - 1 && #[trigger] raw@[j] == '\\' ==> !line_end(raw@, j + 1),
    {
        let ghost at = it.index() as int;
        if c == '\n' && after_backslash {
            assert(raw@[at - 1] == '\\' && line_end(raw@, at - 1 + 1));
            return true;
        }
        after_backslash = c == '\\';
    }
    assert(after_backslash ==> raw@[raw@.len() - 1] == '\\' && line_end(
        raw@,
        raw@.len() - 1 + 1,
    ));
    after_backslash
}

/// A character boundary stays one when the bytes before another are cut off.
pub proof fn lemma_boundary_of_rest(bytes: Seq<u8>, from: int, at: int)
    requires
        valid_utf8(bytes),
        is_char_boundary(bytes, from),
        is_char_boundary(bytes, at),
        0 <= from <= at <= bytes.len(),
    ensures
        is_char_boundary(bytes.subrange(from, bytes.len() as int), at - from),
    decreases bytes.len(),
{
    let rest = bytes.subrange(from, bytes.len() as int);
    valid_utf8_split(bytes, from);
    if at == bytes.len() {
        is_char_boundary_start_end_of_seq(rest);
    } else {
        is_char_boundary_iff_not_is_continuation_byte(bytes, at);
        is_char_boundary_iff_not_is_continuation_byte(rest, at - from);
    }
}

/// The source text of a flow scalar; `None` for other content.
pub fn scalar_raw<'a>(content: &Content, f: &YamlFormatter<'a>) -> (raw: Option<&'a str>)
    requires
        content.valid_in(f.source),
    ensures
        (match raw {
            Some(text) => Some(text@),
            None => None,
        }) == scalar_text(*content, f.source),
{
    match content.kind {
        ContentKind::Plain | ContentKind::QuoteSingle | ContentKind::QuoteDouble => {},
        _ => {
            return None;
        },
    }
    let start: usize = content.span.start as usize;
    let end: usize = content.span.end as usize;
    let ghost bytes = f.source.spec_bytes();
    proof {
        encode_utf8_valid_utf8(f.source@);
        lemma_boundary_of_rest(bytes, start as int, end as int);
    }
    let (_, rest) = f.source.split_at(start);
    let (raw, _) = rest.split_at(end - start);
    proof {
        assert(raw.spec_bytes() =~= bytes.subrange(start as int, end as int));
        encode_utf8_decode_utf8(raw@);
    }
    Some(raw)
}

/// Whether the node is inline: a scalar in flow style, an alias or a flow
/// collection.
pub fn is_inline(content: Option<Content>) -> (r: bool)
    ensures
        r == inline(content),
{
    match content {
        Some(node) => match node.kind {
            ContentKind::Mapping
            | ContentKind::Sequence
            | ContentKind::BlockLiteral
            | ContentKind::BlockFolded => false,
            _ => true,
        },
        None => true,
    }
}

/// Whether the node occupies one line of the source.
pub fn is_single_line(content: Option<Content>, f: &YamlFormatter<'_>) -> (r: bool)
    requires
        content matches Some(node) ==> node.valid_in(f.source),
    ensures
        r == single_line(content, f.source),
{
    match content {
        None => true,
        Some(node) => match node.kind {
            ContentKind::Alias => true,
            _ => match scalar_raw(&node, f) {
                Some(raw) => !contains_char(raw, '\n'),
                None => false,
            },
        },
    }
}

/// Whether the node is printed on one line, whatever the width.
pub fn is_absolutely_single_line(content: Option<Content>, f: &YamlFormatter<'_>) -> (r: bool)
    requires
        content matches Some(node) ==> node.valid_in(f.source),
    ensures
        r == absolutely_single_line(content, f.source, f.options.prose_wrap),
{
    let node = match content {
        Some(node) => node,
        None => {
            return true;
        },
    };
    if node.kind == ContentKind::Alias {
        return true;
    }
    let raw = match scalar_raw(&node, f) {
        Some(raw) => raw,
        None => {
            return false;
        },
    };
    if f.options.prose_wrap == ProseWrap::Preserve {
        return !contains_char(raw, '\n');
    }
    if has_backslash_continuation(raw) {
        return false;
    }
    if f.options.prose_wrap == ProseWrap::Never {
        // Every line break folds away, so only blank lines keep the text on
        // several lines.
        !has_blank_line(raw)
    } else {
        // The text may wrap at any space.
        !contains_char(raw, '\n') && !contains_char(raw, ' ')
    }
}

/// Whether a scalar keeps a line break though its text is folded: a blank line
/// survives folding, and a backslash at a line end pins the line structure.
pub fn has_forced_break_when_folded(content: Option<Content>, f: &YamlFormatter<'_>) -> (r: bool)
    requires
        content matches Some(node) ==> node.valid_in(f.source),
    ensures
        r == forced_break_when_folded(content, f.source),
{
    match content {
        None => false,
        Some(node) => match scalar_raw(&node, f) {
            // Nothing but a flow scalar is folded.
            None => true,
            Some(raw) => has_blank_line(raw) || has_backslash_continuation(raw),
        },
    }
}

} // verus!
