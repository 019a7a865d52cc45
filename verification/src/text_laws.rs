//! What holds of the text of scalars, line by line and mode by mode.

use crate::ast::Content;
use crate::formatter::ProseWrap;
use crate::scalar;
use vstd::prelude::*;
use vstd::string::*;
use vstd::utf8::*;

verus! {

/// The text of a plain or quoted scalar is what its span covers, quotes
/// included: encoded, it gives those bytes back. No other node has a text.
pub proof fn law_scalar_text_encodes_to_its_span(node: Content, source: &str)
    requires
        node.span.start <= node.span.end <= source.spec_bytes().len(),
        is_char_boundary(source.spec_bytes(), node.span.start as int),
        is_char_boundary(source.spec_bytes(), node.span.end as int),
    ensures
        node.kind is Plain || node.kind is QuoteSingle || node.kind is QuoteDouble
            ==> scalar::scalar_text(node, source) is Some,
        scalar::scalar_text(node, source) matches Some(text) ==> {
            &&& node.kind is Plain || node.kind is QuoteSingle || node.kind is QuoteDouble
            &&& encode_utf8(text) == source.spec_bytes().subrange(
                node.span.start as int,
                node.span.end as int,
            )
        },
{
    let bytes = source.spec_bytes();
    let start = node.span.start as int;
    let end = node.span.end as int;
    let rest = bytes.subrange(start, bytes.len() as int);
    encode_utf8_valid_utf8(source@);
    valid_utf8_split(bytes, start);
    scalar::lemma_boundary_of_rest(bytes, start, end);
    valid_utf8_split(rest, end - start);
    assert(rest.subrange(0, end - start) =~= bytes.subrange(start, end));
    decode_utf8_encode_utf8(bytes.subrange(start, end));
}

/// White space by code point: in ASCII the space and the controls from the
/// tab to the carriage return; up to the general punctuation the next line,
/// the no-break space and the ogham space mark; among that its spaces from
/// the en quad to the hair space, the two separators, the narrow no-break and
/// the mathematical space; beyond it the ideographic space alone.
pub proof fn law_white_space_by_code_point(c: char)
    ensures
        ({
            let n = c as int;
            let white = scalar::white_space(c);
            &&& n <= 0x7F ==> (white <==> n == 32 || 9 <= n <= 13)
            &&& 0x7F < n < 0x2000 ==> (white <==> n == 0x85 || n == 0xA0 || n == 0x1680)
            &&& 0x2000 <= n <= 0x206F ==> (white <==> n < 0x200B || n == 0x2028 || n == 0x2029
                || n == 0x202F || n == 0x205F)
            &&& n > 0x206F ==> (white <==> n == 0x3000)
        }),
{
}

/// One more line makes a text have a blank line exactly if that line holds
/// nothing but white space; the first line never counts.
pub proof fn law_blank_lines_add_up(text: Seq<char>, line: Seq<char>)
    requires
        !line.contains('\n'),
    ensures
        !scalar::blank_line(line),
        scalar::blank_line(text.push('\n') + line) == (scalar::blank_line(text) || forall|k: int|
            0 <= k < line.len() ==> scalar::white_space(#[trigger] line[k])),
{
    let whole = text.push('\n') + line;
    let n = text.len() as int;
    assert(forall|k: int| 0 <= k < n ==> whole[k] == text[k]);
    assert(forall|k: int| n < k < whole.len() ==> whole[k] == line[k - n - 1]);
    if scalar::blank_line(line) {
        let (i, j) = choose|i: int, j: int| #[trigger]
            scalar::blank_between(line, i, j) && scalar::line_end(line, j);
        assert(line[i] == '\n');
    }
    if scalar::blank_line(text) {
        let (i, j) = choose|i: int, j: int| #[trigger]
            scalar::blank_between(text, i, j) && scalar::line_end(text, j);
        assert(scalar::blank_between(whole, i, j) && scalar::line_end(whole, j));
    }
    if forall|k: int| 0 <= k < line.len() ==> scalar::white_space(#[trigger] line[k]) {
        assert(scalar::blank_between(whole, n, whole.len() as int) && scalar::line_end(
            whole,
            whole.len() as int,
        ));
    }
    if scalar::blank_line(whole) {
        let (i, j) = choose|i: int, j: int| #[trigger]
            scalar::blank_between(whole, i, j) && scalar::line_end(whole, j);
        if j <= n {
            assert(scalar::blank_between(text, i, j) && scalar::line_end(text, j));
        } else {
            assert(j < whole.len() ==> line[j - n - 1] == '\n');
            assert(i > n ==> line[i - n - 1] == '\n');
            assert forall|k: int| 0 <= k < line.len() implies scalar::white_space(
                #[trigger] line[k],
            ) by {
                assert(whole[k + n + 1] == line[k]);
            }
        }
    }
}

/// A text on one line is continued exactly if its last character is a
/// backslash; of two texts joined by a line break, one has to be continued.
pub proof fn law_backslashes_add_up(text: Seq<char>, rest: Seq<char>)
    ensures
        !text.contains('\n') ==> scalar::backslash_continuation(text) == (text.len() > 0
            && text.last() == '\\'),
        scalar::backslash_continuation(text.push('\n') + rest) == (scalar::backslash_continuation(
            text,
        ) || scalar::backslash_continuation(rest)),
{
    let whole = text.push('\n') + rest;
    let n = text.len() as int;
    assert(forall|k: int| 0 <= k < n ==> whole[k] == text[k]);
    assert(forall|k: int| n < k < whole.len() ==> whole[k] == rest[k - n - 1]);
    if text.len() > 0 && text.last() == '\\' {
        assert(text[n - 1] == '\\' && scalar::line_end(text, n - 1 + 1));
    }
    if scalar::backslash_continuation(text) {
        let j = choose|j: int|
            0 <= j < text.len() && #[trigger] text[j] == '\\' && scalar::line_end(text, j + 1);
        assert(whole[j] == '\\' && scalar::line_end(whole, j + 1));
    }
    if scalar::backslash_continuation(rest) {
        let j = choose|j: int|
            0 <= j < rest.len() && #[trigger] rest[j] == '\\' && scalar::line_end(rest, j + 1);
        assert(whole[j + n + 1] == '\\' && scalar::line_end(whole, j + n + 1 + 1));
    }
    if scalar::backslash_continuation(whole) {
        let j = choose|j: int|
            0 <= j < whole.len() && #[trigger] whole[j] == '\\' && scalar::line_end(whole, j + 1);
        if j < n {
            assert(text[j] == '\\' && scalar::line_end(text, j + 1));
        } else {
            assert(rest[j - n - 1] == '\\' && scalar::line_end(rest, j - n - 1 + 1));
        }
    }
}

/// A node with a text stands on one line exactly if the text has no line
/// break. Of the others an alias, or no node at all, does; a collection or a
/// block scalar never does.
pub proof fn law_single_line_by_text(node: Content, source: &str)
    ensures
        scalar::single_line(None, source),
        node.kind is Alias ==> scalar::single_line(Some(node), source),
        node.kind is Plain || node.kind is QuoteSingle || node.kind is QuoteDouble ==> (
        scalar::scalar_text(node, source) matches Some(text) ==> scalar::single_line(
            Some(node),
            source,
        ) == forall|k: int| 0 <= k < text.len() ==> #[trigger] text[k] != '\n'),
        node.kind is Mapping || node.kind is Sequence || node.kind is FlowMapping || node.kind
            is FlowSequence || node.kind is BlockLiteral || node.kind is BlockFolded
            ==> !scalar::single_line(Some(node), source),
{
}

/// Whether a node is sure to print on one line depends on its text alone:
/// under `Preserve` there is no line break in it; under `Never` no blank line
/// and no backslash at a line end; under `Always` neither a line break nor a
/// space, and no backslash at the end. An alias, or no node, is sure to, under
/// every mode; a collection or a block scalar under none.
pub proof fn law_one_line_printing_by_text(node: Content, source: &str, wrap: ProseWrap)
    ensures
        scalar::absolutely_single_line(None, source, wrap),
        node.kind is Alias ==> scalar::absolutely_single_line(Some(node), source, wrap),
        node.kind is Mapping || node.kind is Sequence || node.kind is FlowMapping || node.kind
            is FlowSequence || node.kind is BlockLiteral || node.kind is BlockFolded
            ==> !scalar::absolutely_single_line(Some(node), source, wrap),
        node.kind is Plain || node.kind is QuoteSingle || node.kind is QuoteDouble ==> (
        scalar::scalar_text(node, source) matches Some(text) ==> {
            let sure = scalar::absolutely_single_line(Some(node), source, wrap);
            &&& wrap is Preserve ==> sure == (forall|k: int|
                0 <= k < text.len() ==> #[trigger] text[k] != '\n')
            &&& wrap is Never ==> sure == !(scalar::blank_line(text)
                || scalar::backslash_continuation(text))
            &&& wrap is Always ==> sure == (!(text.len() > 0 && text.last() == '\\') && forall|
                k: int,
            |
                0 <= k < text.len() ==> #[trigger] text[k] != '\n' && text[k] != ' ')
        }),
{
    if let Some(text) = scalar::scalar_text(node, source) {
        law_backslashes_add_up(text, seq![]);
        assert(text.contains('\n') == exists|k: int|
            0 <= k < text.len() && #[trigger] text[k] == '\n');
        assert(text.contains(' ') == exists|k: int|
            0 <= k < text.len() && #[trigger] text[k] == ' ');
        assert((forall|k: int| 0 <= k < text.len() ==> #[trigger] text[k] != '\n' && text[k] != ' ')
            == (!text.contains('\n') && !text.contains(' ')));
    }
}

/// Folding leaves a break in a text exactly if it has a blank line or a
/// backslash at a line end. Nothing is left where there is no node, and what
/// is no plain or quoted scalar is not folded at all.
pub proof fn law_forced_breaks_by_text(node: Content, source: &str)
    ensures
        !scalar::forced_break_when_folded(None, source),
        !(node.kind is Plain || node.kind is QuoteSingle || node.kind is QuoteDouble)
            ==> scalar::forced_break_when_folded(Some(node), source),
        node.kind is Plain || node.kind is QuoteSingle || node.kind is QuoteDouble ==> (
        scalar::scalar_text(node, source) matches Some(text) ==> {
            &&& scalar::blank_line(text) ==> scalar::forced_break_when_folded(Some(node), source)
            &&& scalar::backslash_continuation(text) ==> scalar::forced_break_when_folded(
                Some(node),
                source,
            )
            &&& scalar::forced_break_when_folded(Some(node), source) ==> scalar::blank_line(text)
                || scalar::backslash_continuation(text)
        }),
{
}

/// The nodes that are not inline are the block mappings, the block sequences
/// and the block scalars.
pub proof fn law_inline_by_kind(node: Content)
    ensures
        scalar::inline(None),
        scalar::inline(Some(node)) == (node.kind is Plain || node.kind is QuoteSingle || node.kind
            is QuoteDouble || node.kind is FlowMapping || node.kind is FlowSequence || node.kind
            is Alias),
{
}

} // verus!
