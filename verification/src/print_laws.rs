//! What the layouts print: which characters stand around the key and the
//! value, where lines break, and how far the following lines are indented.

use crate::ast::{Content, MappingItem, Span};
use crate::formatter::{Deferred, Element, FormatOptions, Part, YamlFormatter};
use crate::laws;
use crate::mapping_item;
use crate::mapping_item::{FlowParent, Layout};
use crate::scalar;
use vstd::prelude::*;
use vstd::string::*;

verus! {

/// One thing on the page. What stands at an indentation of `n` starts further
/// lines `n` columns to the right of the item.
pub enum Glyph {
    /// A character that the layout itself writes.
    Char(char),
    /// A line break, with the indentation of the line below.
    Break(int),
    /// The key or the value, with the indentation of its further lines.
    Side(Part, int),
    /// Anything else, with its indentation.
    Other(Element, int),
}

/// The indentation inside nested alignments, outermost first, each given with
/// those around it.
pub open spec fn indentation(aligns: Seq<int>) -> int {
    if aligns.len() > 0 {
        aligns.last()
    } else {
        0
    }
}

/// A text, character by character.
pub open spec fn characters(text: Seq<char>) -> Seq<Glyph>
    decreases text.len(),
{
    if text.len() == 0 {
        seq![]
    } else {
        seq![Glyph::Char(text[0])] + characters(text.drop_first())
    }
}

/// What elements put on the page, inside alignments.
pub open spec fn page(aligns: Seq<int>, elements: Seq<Element>) -> Seq<Glyph>
    decreases elements.len(),
{
    if elements.len() == 0 {
        seq![]
    } else {
        let rest = elements.drop_first();
        let indent = indentation(aligns);
        match elements[0] {
            Element::StartAlign(width) => page(aligns.push(indent + width), rest),
            Element::EndAlign => page(aligns.drop_last(), rest),
            Element::Text(text) => characters(text@) + page(aligns, rest),
            Element::Space => seq![Glyph::Char(' ')] + page(aligns, rest),
            Element::HardLineBreak => seq![Glyph::Break(indent)] + page(aligns, rest),
            Element::Key | Element::Memoized(Part::Key) => seq![Glyph::Side(Part::Key, indent)]
                + page(aligns, rest),
            Element::Value | Element::Memoized(Part::Value) => seq![
                Glyph::Side(Part::Value, indent),
            ] + page(aligns, rest),
            other => seq![Glyph::Other(other, indent)] + page(aligns, rest),
        }
    }
}

/// What elements put on the page at the item's own column.
pub open spec fn printed(elements: Seq<Element>) -> Seq<Glyph> {
    page(seq![], elements)
}

proof fn lemma_texts()
    ensures
        characters("? "@) == seq![Glyph::Char('?'), Glyph::Char(' ')],
        characters(": "@) == seq![Glyph::Char(':'), Glyph::Char(' ')],
        characters(":"@) == seq![Glyph::Char(':')],
        characters(" :"@) == seq![Glyph::Char(' '), Glyph::Char(':')],
{
    reveal_strlit("? ");
    reveal_strlit(": ");
    reveal_strlit(":");
    reveal_strlit(" :");
    reveal_with_fuel(characters, 3);
    assert("? "@.len() == 2 && "? "@[0] == '?' && "? "@[1] == ' ');
    assert(": "@.len() == 2 && ": "@[0] == ':' && ": "@[1] == ' ');
    assert(":"@.len() == 1 && ":"@[0] == ':');
    assert(" :"@.len() == 2 && " :"@[0] == ' ' && " :"@[1] == ':');
    assert(characters("? "@) =~= seq![Glyph::Char('?'), Glyph::Char(' ')]);
    assert(characters(": "@) =~= seq![Glyph::Char(':'), Glyph::Char(' ')]);
    assert(characters(":"@) =~= seq![Glyph::Char(':')]);
    assert(characters(" :"@) =~= seq![Glyph::Char(' '), Glyph::Char(':')]);
}

/// The key and the `:` behind it, with a space between them or not.
pub open spec fn key_and_colon(space: bool) -> Seq<Glyph> {
    if space {
        seq![Glyph::Side(Part::Key, 0), Glyph::Char(' '), Glyph::Char(':')]
    } else {
        seq![Glyph::Side(Part::Key, 0), Glyph::Char(':')]
    }
}

/// `? key`, with the further lines of the key below its first character.
pub open spec fn marked_key() -> Seq<Glyph> {
    seq![Glyph::Char('?'), Glyph::Char(' '), Glyph::Side(Part::Key, 2)]
}

/// `: value`, with the further lines of the value below its first character.
pub open spec fn marked_value() -> Seq<Glyph> {
    seq![Glyph::Char(':'), Glyph::Char(' '), Glyph::Side(Part::Value, 2)]
}

/// On one line, `key: value` is printed with a space before the `:` exactly
/// for an alias, and without an indentation.
pub proof fn law_one_line_page(item: MappingItem, key: Content, options: FormatOptions)
    requires
        item.key.content == Some(key),
    ensures
        printed(mapping_item::layout_elements(item, options, Layout::SingleLine)) == key_and_colon(
            key.kind is Alias,
        ) + seq![Glyph::Char(' '), Glyph::Side(Part::Value, 0)],
{
    reveal_with_fuel(page, 6);
    lemma_texts();
    assert(printed(mapping_item::layout_elements(item, options, Layout::SingleLine))
        =~= key_and_colon(key.kind is Alias) + seq![
        Glyph::Char(' '),
        Glyph::Side(Part::Value, 0),
    ]);
}

/// Without a value the page holds the key alone; the key and the `:`, with a
/// space before it exactly for an alias; or the explicit form of the key.
pub proof fn law_lone_key_pages(item: MappingItem, key: Content, options: FormatOptions)
    requires
        item.key.content == Some(key),
    ensures
        printed(mapping_item::layout_elements(item, options, Layout::LoneKey)) == seq![
            Glyph::Side(Part::Key, 0),
        ],
        printed(mapping_item::layout_elements(item, options, Layout::KeyColon)) == key_and_colon(
            key.kind is Alias,
        ),
        printed(mapping_item::layout_elements(item, options, Layout::ExplicitKey)) == marked_key(),
{
    reveal_with_fuel(page, 5);
    lemma_texts();
    assert(printed(mapping_item::layout_elements(item, options, Layout::LoneKey)) =~= seq![
        Glyph::Side(Part::Key, 0),
    ]);
    assert(printed(mapping_item::layout_elements(item, options, Layout::KeyColon))
        =~= key_and_colon(key.kind is Alias));
    assert(printed(mapping_item::layout_elements(item, options, Layout::ExplicitKey))
        =~= marked_key());
}

/// Without a key the page holds `: value`.
pub proof fn law_empty_key_page(item: MappingItem, options: FormatOptions)
    ensures
        printed(mapping_item::layout_elements(item, options, Layout::EmptyKey)) == marked_value(),
{
    reveal_with_fuel(page, 5);
    lemma_texts();
    assert(printed(mapping_item::layout_elements(item, options, Layout::EmptyKey))
        =~= marked_value());
}

/// Without key and value the page holds `: `, and right behind it, at the end
/// of the line, the comment that was taken, which breaks what is around.
pub proof fn law_empty_page(item: MappingItem, options: FormatOptions, span: Span)
    ensures
        printed(
            mapping_item::layout_elements(item, options, Layout::Empty { comment: None }),
        ) == seq![Glyph::Char(':'), Glyph::Char(' ')],
        printed(
            mapping_item::layout_elements(item, options, Layout::Empty { comment: Some(span) }),
        ) == seq![
            Glyph::Char(':'),
            Glyph::Char(' '),
            Glyph::Other(Element::StartLineSuffix, 0),
            Glyph::Other(Element::Comment(span), 0),
            Glyph::Other(Element::EndLineSuffix, 0),
            Glyph::Other(Element::ExpandParent, 0),
        ],
{
    reveal_with_fuel(page, 6);
    lemma_texts();
    assert(printed(
        mapping_item::layout_elements(item, options, Layout::Empty { comment: None }),
    ) =~= seq![Glyph::Char(':'), Glyph::Char(' ')]);
    assert(printed(
        mapping_item::layout_elements(item, options, Layout::Empty { comment: Some(span) }),
    ) =~= seq![
        Glyph::Char(':'),
        Glyph::Char(' '),
        Glyph::Other(Element::StartLineSuffix, 0),
        Glyph::Other(Element::Comment(span), 0),
        Glyph::Other(Element::EndLineSuffix, 0),
        Glyph::Other(Element::ExpandParent, 0),
    ]);
}

/// The explicit form puts `? key` and `: value` on lines of their own, at the
/// item's column. Where the source has a `:`, the comments that close the key
/// stand inside its indentation, measured by the item's column, and the other
/// comments before the `:` between the two lines.
pub proof fn law_explicit_pages(item: MappingItem, options: FormatOptions, colon: u32)
    ensures
        printed(mapping_item::layout_elements(item, options, Layout::Explicit)) == marked_key()
            + seq![Glyph::Break(0)] + marked_value(),
        printed(
            mapping_item::layout_elements(item, options, Layout::ForcedExplicit { colon: None }),
        ) == marked_key() + seq![Glyph::Break(0)] + marked_value(),
        printed(
            mapping_item::layout_elements(
                item,
                options,
                Layout::ForcedExplicit { colon: Some(colon) },
            ),
        ) == marked_key() + seq![
            Glyph::Other(
                Element::Deferred(Deferred::KeyEndComments { colon, column: item.column }),
                2,
            ),
            Glyph::Break(0),
            Glyph::Other(Element::Deferred(Deferred::CommentsBeforeColon { colon }), 0),
        ] + marked_value(),
{
    reveal_with_fuel(page, 12);
    lemma_texts();
    assert(printed(mapping_item::layout_elements(item, options, Layout::Explicit))
        =~= marked_key() + seq![Glyph::Break(0)] + marked_value());
    assert(printed(
        mapping_item::layout_elements(
            item,
            options,
            Layout::ForcedExplicit { colon: Some(colon) },
        ),
    ) =~= marked_key() + seq![
        Glyph::Other(
            Element::Deferred(Deferred::KeyEndComments { colon, column: item.column }),
            2,
        ),
        Glyph::Break(0),
        Glyph::Other(Element::Deferred(Deferred::CommentsBeforeColon { colon }), 0),
    ] + marked_value());
}

/// A pinned value follows the key and the `:`, with a space before the `:`
/// exactly for an alias. It stands at the indent width, whatever that is:
/// behind a space on the same line, or on the next line, below the comment
/// that trails the key's end.
pub proof fn law_pinned_pages(item: MappingItem, key: Content, options: FormatOptions)
    requires
        item.key.content == Some(key),
    ensures
        ({
            let width = options.indent_width as int;
            let value = Glyph::Other(Element::Deferred(Deferred::PinnedValue), width);
            &&& printed(
                mapping_item::layout_elements(item, options, Layout::Pinned { hard_line: false }),
            ) == key_and_colon(key.kind is Alias) + seq![Glyph::Char(' '), value]
            &&& printed(
                mapping_item::layout_elements(item, options, Layout::Pinned { hard_line: true }),
            ) == key_and_colon(key.kind is Alias) + seq![
                Glyph::Other(Element::TrailingSameLineComment(item.key.span.end), width),
                Glyph::Break(width),
                value,
            ]
        }),
{
    reveal_with_fuel(page, 9);
    lemma_texts();
    let width = options.indent_width as int;
    let value = Glyph::Other(Element::Deferred(Deferred::PinnedValue), width);
    assert(printed(
        mapping_item::layout_elements(item, options, Layout::Pinned { hard_line: false }),
    ) =~= key_and_colon(key.kind is Alias) + seq![Glyph::Char(' '), value]);
    assert(printed(
        mapping_item::layout_elements(item, options, Layout::Pinned { hard_line: true }),
    ) =~= key_and_colon(key.kind is Alias) + seq![
        Glyph::Other(Element::TrailingSameLineComment(item.key.span.end), width),
        Glyph::Break(width),
        value,
    ]);
}

/// Where the width decides, the first choice is `key: value` on one line, with
/// the further lines of the value at the indent width; the second puts the
/// value on the next line, at that indentation; the third, where there is one,
/// is the explicit form. The space before the `:` is there exactly for an
/// alias.
pub proof fn law_best_fitting_pages(
    item: MappingItem,
    key: Content,
    options: FormatOptions,
    explicit_fallback: bool,
)
    requires
        item.key.content == Some(key),
    ensures
        ({
            let choices = laws::printings(
                item,
                options,
                Layout::BestFitting { explicit_fallback },
            );
            let width = options.indent_width as int;
            let value = Glyph::Side(Part::Value, width);
            &&& choices.len() == (if explicit_fallback {
                3int
            } else {
                2int
            })
            &&& printed(choices[0]) == key_and_colon(key.kind is Alias) + seq![
                Glyph::Char(' '),
                value,
            ]
            &&& printed(choices[1]) == key_and_colon(key.kind is Alias) + seq![
                Glyph::Break(width),
                value,
            ]
            &&& explicit_fallback ==> printed(choices[2]) == marked_key() + seq![Glyph::Break(0)]
                + marked_value()
        }),
{
    reveal_with_fuel(page, 10);
    lemma_texts();
    let choices = laws::printings(item, options, Layout::BestFitting { explicit_fallback });
    let width = options.indent_width as int;
    let value = Glyph::Side(Part::Value, width);
    assert(printed(choices[0]) =~= key_and_colon(key.kind is Alias) + seq![
        Glyph::Char(' '),
        value,
    ]);
    assert(printed(choices[1]) =~= key_and_colon(key.kind is Alias) + seq![
        Glyph::Break(width),
        value,
    ]);
    if explicit_fallback {
        assert(printed(choices[2]) =~= marked_key() + seq![Glyph::Break(0)] + marked_value());
    }
}

/// Where the width decides, the buffer gets the key as one shared part, then
/// the comments that lead the value and the value in a group as the other, and
/// then the choices, in order, with nothing between or behind them.
pub proof fn law_best_fitting_holds_its_choices(
    item: MappingItem,
    value: Content,
    options: FormatOptions,
    explicit_fallback: bool,
)
    requires
        item.value.content == Some(value),
    ensures
        ({
            let chosen = Layout::BestFitting { explicit_fallback };
            let choices = laws::printings(item, options, chosen);
            let two = seq![
                Element::StartMemoized(Part::Key),
                Element::Key,
                Element::EndMemoized,
                Element::StartMemoized(Part::Value),
                Element::LeadingComments(value.start),
                Element::StartGroup,
                Element::Value,
                Element::EndGroup,
                Element::EndMemoized,
                Element::StartBestFitting,
                Element::StartVariant,
            ] + choices[0] + seq![Element::EndVariant, Element::StartVariant] + choices[1] + seq![
                Element::EndVariant,
            ];
            mapping_item::layout_elements(item, options, chosen) == if explicit_fallback {
                two + seq![Element::StartVariant] + choices[2] + seq![
                    Element::EndVariant,
                    Element::EndBestFitting,
                ]
            } else {
                two + seq![Element::EndBestFitting]
            }
        }),
{
    let chosen = Layout::BestFitting { explicit_fallback };
    let choices = laws::printings(item, options, chosen);
    mapping_item::lemma_bracketed(
        mapping_item::same_line_variant(item, options.indent_width),
        mapping_item::next_line_variant(item, options.indent_width),
        mapping_item::explicit_variant(),
    );
    let two = seq![
        Element::StartMemoized(Part::Key),
        Element::Key,
        Element::EndMemoized,
        Element::StartMemoized(Part::Value),
        Element::LeadingComments(value.start),
        Element::StartGroup,
        Element::Value,
        Element::EndGroup,
        Element::EndMemoized,
        Element::StartBestFitting,
        Element::StartVariant,
    ] + choices[0] + seq![Element::EndVariant, Element::StartVariant] + choices[1] + seq![
        Element::EndVariant,
    ];
    let elements = mapping_item::layout_elements(item, options, chosen);
    if explicit_fallback {
        assert(elements =~= two + seq![Element::StartVariant] + choices[2] + seq![
            Element::EndVariant,
            Element::EndBestFitting,
        ]);
    } else {
        assert(elements =~= two + seq![Element::EndBestFitting]);
    }
}

/// A value that is not sure to print on one line is always indented: in the
/// explicit form by two columns, and by the indent width everywhere else.
pub proof fn law_value_that_may_break_is_indented(
    item: MappingItem,
    parent_tag_is_set: bool,
    in_flow: FlowParent,
    f: YamlFormatter<'_>,
    choice: int,
    at: int,
)
    requires
        item.key.content is Some,
        item.value.content is Some,
        !scalar::absolutely_single_line(item.value.content, f.source, f.options.prose_wrap),
    ensures
        ({
            let chosen = mapping_item::layout(item, parent_tag_is_set, in_flow, f);
            let choices = laws::printings(item, f.options, chosen);
            let page = printed(choices[choice]);
            0 <= choice < choices.len() && 0 <= at < page.len() ==> {
                let indent = if page[0] == Glyph::Char('?') {
                    2
                } else {
                    f.options.indent_width as int
                };
                &&& page[at] matches Glyph::Side(Part::Value, n) ==> n == indent
                &&& page[at] matches Glyph::Other(Element::Deferred(Deferred::PinnedValue), n)
                    ==> n == indent
            }
        }),
{
    let chosen = mapping_item::layout(item, parent_tag_is_set, in_flow, f);
    let key = item.key.content->0;
    match chosen {
        Layout::ForcedExplicit { colon: Some(colon) } => {
            law_explicit_pages(item, f.options, colon);
        },
        Layout::ForcedExplicit { colon: None } | Layout::Explicit => {
            law_explicit_pages(item, f.options, 0);
        },
        Layout::Pinned { hard_line } => {
            law_pinned_pages(item, key, f.options);
        },
        Layout::BestFitting { explicit_fallback } => {
            law_best_fitting_pages(item, key, f.options, explicit_fallback);
        },
        _ => {},
    }
}

/// A pinned value that is a block mapping or sequence prints its leading
/// comments and its content, whatever is suppressed. Any other prints so where
/// it is not suppressed; where it is, the source from its properties to its
/// end goes out as it stands.
pub proof fn law_pinned_value_page(value: Content, suppressed: bool)
    ensures
        ({
            let block = value.kind is Mapping || value.kind is Sequence;
            let elements = mapping_item::pinned_value(value, suppressed);
            if suppressed && !block {
                elements == seq![
                    Element::SuppressedNode(Span { start: value.start, end: value.span.end }),
                ]
            } else {
                elements == seq![
                    Element::ValueLeadingComments { block_collection: block, start: value.start },
                    Element::Value,
                ]
            }
        }),
{
}

/// Writing appends: source, comments and options stay, and the buffer keeps
/// what it held before what is new.
pub proof fn law_appending_keeps_the_rest(
    before: YamlFormatter<'_>,
    after: YamlFormatter<'_>,
    added: Seq<Element>,
)
    requires
        mapping_item::appended(before, after, added),
    ensures
        after.source == before.source,
        after.comments == before.comments,
        after.options == before.options,
        after.elements@.len() == before.elements@.len() + added.len(),
        before.elements@ == after.elements@.take(before.elements@.len() as int),
        added == after.elements@.skip(before.elements@.len() as int),
{
    let n = before.elements@.len() as int;
    assert(before.elements@ =~= after.elements@.take(n));
    assert(added =~= after.elements@.skip(n));
}

/// An empty layout can be written of every item; those of a lone key need the
/// key, that of a lone value needs the value, and all the others need both.
pub proof fn law_sides_that_a_layout_needs(item: MappingItem, chosen: Layout)
    ensures
        ({
            let key = item.key.content is Some;
            let value = item.value.content is Some;
            mapping_item::has_parts_for(item, chosen) == match chosen {
                Layout::Empty { .. } => true,
                Layout::LoneKey | Layout::KeyColon | Layout::ExplicitKey => key,
                Layout::EmptyKey => value,
                _ => key && value,
            }
        }),
{
}

/// One more variant goes behind the others, between its own start and end.
pub proof fn law_variants_stand_in_turn(some: Seq<Seq<Element>>, next: Seq<Element>)
    ensures
        mapping_item::bracketed(Seq::<Seq<Element>>::empty()) == Seq::<Element>::empty(),
        mapping_item::bracketed(some.push(next)) == mapping_item::bracketed(some).push(
            Element::StartVariant,
        ) + next.push(Element::EndVariant),
{
    assert(some.push(next).drop_last() =~= some);
    assert(mapping_item::bracketed(some.push(next)) =~= mapping_item::bracketed(some).push(
        Element::StartVariant,
    ) + next.push(Element::EndVariant));
}

} // verus!
