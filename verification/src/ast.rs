//! The parts of a mapping item that its layout depends on.

use vstd::prelude::*;
use vstd::string::*;
use vstd::utf8::*;

verus! {

/// A range of the source text, in bytes: `start` included, `end` excluded.
#[derive(Clone, Copy, Debug, PartialEq, Eq, Structural)]
pub struct Span {
    pub start: u32,
    pub end: u32,
}

impl Span {
    pub fn new(start: u32, end: u32) -> (span: Span)
        ensures
            span.start == start,
            span.end == end,
    {
        Span { start, end }
    }

    /// The span cuts `source` between characters, so that it covers a text.
    pub open spec fn covers_text(self, source: &str) -> bool {
        &&& self.start <= self.end <= source.spec_bytes().len()
        &&& is_char_boundary(source.spec_bytes(), self.start as int)
        &&& is_char_boundary(source.spec_bytes(), self.end as int)
    }
}

/// The properties of a node: `&anchor` and `!tag`.
#[derive(Clone, Copy, Debug, PartialEq, Eq, Structural)]
pub struct Props {
    pub anchor: Option<Span>,
    pub tag: Option<Span>,
}

/// What a node holds.
#[derive(Clone, Copy, Debug, PartialEq, Eq, Structural)]
pub enum ContentKind {
    Plain,
    QuoteSingle,
    QuoteDouble,
    BlockLiteral,
    BlockFolded,
    Mapping,
    Sequence,
    FlowMapping,
    FlowSequence,
    Alias,
}

impl ContentKind {
    /// Plain and quoted scalars.
    pub open spec fn is_flow_scalar(self) -> bool {
        self is Plain || self is QuoteSingle || self is QuoteDouble
    }

    /// `{...}` and `[...]`.
    pub open spec fn is_flow_collection(self) -> bool {
        self is FlowMapping || self is FlowSequence
    }

    /// Block mappings and block sequences.
    pub open spec fn is_block_collection(self) -> bool {
        self is Mapping || self is Sequence
    }

    /// `|` and `>` scalars.
    pub open spec fn is_block_scalar(self) -> bool {
        self is BlockLiteral || self is BlockFolded
    }
}

/// A content node.
#[derive(Clone, Copy, Debug, PartialEq, Eq, Structural)]
pub struct Content {
    pub kind: ContentKind,
    /// The node's own text, properties excluded.
    pub span: Span,
    pub props: Props,
    /// Where the node starts, properties included.
    pub start: u32,
}

impl Content {
    /// A flow scalar covers a text of `source`.
    pub open spec fn valid_in(self, source: &str) -> bool {
        self.kind.is_flow_scalar() ==> self.span.covers_text(source)
    }

    /// A block collection that carries neither an anchor nor a tag.
    pub open spec fn is_bare_block_collection(self) -> bool {
        self.kind.is_block_collection() && self.props.anchor is None && self.props.tag is None
    }
}

/// The key side of an item.
#[derive(Clone, Copy, Debug, PartialEq, Eq, Structural)]
pub struct MappingKey {
    pub span: Span,
    pub content: Option<Content>,
    /// Whether the source writes the key with `?`.
    pub explicit: bool,
}

/// The value side of an item.
#[derive(Clone, Copy, Debug, PartialEq, Eq, Structural)]
pub struct MappingValue {
    pub content: Option<Content>,
}

/// One `key: value` item of a block mapping, of a flow mapping, or a pair of
/// a flow sequence.
#[derive(Clone, Copy, Debug, PartialEq, Eq, Structural)]
pub struct MappingItem {
    pub span: Span,
    /// The column at which the item starts.
    pub column: u32,
    pub key: MappingKey,
    pub value: MappingValue,
}

impl MappingItem {
    /// The scalars of the item cover texts of `source`.
    pub open spec fn valid_in(self, source: &str) -> bool {
        &&& self.key.content matches Some(key) ==> key.valid_in(source)
        &&& self.value.content matches Some(value) ==> value.valid_in(source)
    }
}

/// Whether a flow scalar covers a text of `source`.
pub fn is_valid_in(content: Option<Content>, source: &str) -> (r: bool)
    ensures
        r == (content matches Some(node) ==> node.valid_in(source)),
{
    match content {
        Some(node) => match node.kind {
            ContentKind::Plain | ContentKind::QuoteSingle | ContentKind::QuoteDouble => {
                let start: usize = node.span.start as usize;
                let end: usize = node.span.end as usize;
                start <= end && end <= source.as_bytes().len() && source.is_char_boundary(start)
                    && source.is_char_boundary(end)
            },
            _ => true,
        },
        None => true,
    }
}

} // verus!
