//! What the layout of an item reads, and the buffer it is appended to.

use crate::ast::Span;
use crate::comments::{Comment, Comments};
use vstd::prelude::*;
use vstd::string::*;

verus! {

/// How the text of a scalar is folded.
#[derive(Clone, Copy, Debug, PartialEq, Eq, Structural)]
pub enum ProseWrap {
    /// Wrap at any space.
    Always,
    /// Fold every line break away that folding can take.
    Never,
    /// Keep the lines of the source.
    Preserve,
}

#[derive(Clone, Copy, Debug, PartialEq, Eq, Structural)]
pub struct FormatOptions {
    /// The width of one indentation level.
    pub indent_width: u8,
    pub prose_wrap: ProseWrap,
}

/// A part of the item that several variants of a best fitting layout share.
/// It is formatted once, where it is first used.
#[derive(Clone, Copy, Debug, PartialEq, Eq, Structural)]
pub enum Part {
    Key,
    Value,
}

/// A piece of the layout that depends on which comments are still pending
/// once everything before it has been written.
#[derive(Clone, Copy, Debug, PartialEq, Eq, Structural)]
pub enum Deferred {
    /// The comments that close an explicit key: see
    /// [`crate::mapping_item::write_key_end_comments`].
    KeyEndComments { colon: u32, column: u32 },
    /// The comments that stand between an explicit key and its `:`: see
    /// [`crate::mapping_item::write_comments_before_colon`].
    CommentsBeforeColon { colon: u32 },
    /// The value behind a pinned separator: see
    /// [`crate::mapping_item::write_pinned_value`].
    PinnedValue,
}

/// One element of a layout, in the order of writing.
#[derive(Clone, Copy, Debug, PartialEq, Eq)]
pub enum Element {
    Text(&'static str),
    Space,
    HardLineBreak,
    /// Makes every enclosing group break.
    ExpandParent,
    /// What follows, up to the matching end, is indented by this many columns.
    StartAlign(u8),
    EndAlign,
    StartGroup,
    EndGroup,
    /// What follows, up to the matching end, moves to the end of the line.
    StartLineSuffix,
    EndLineSuffix,
    /// The variants up to the matching end, of which the first that fits, or
    /// else the last, is printed.
    StartBestFitting,
    EndBestFitting,
    StartVariant,
    EndVariant,
    /// What follows, up to the matching end, defines a shared part.
    StartMemoized(Part),
    EndMemoized,
    /// A shared part.
    Memoized(Part),
    /// The content of the key.
    Key,
    /// The content of the value.
    Value,
    /// One comment.
    Comment(Span),
    /// The pending comment, if there is one, on the line of this position.
    TrailingSameLineComment(u32),
    /// The pending comments before this position, each on its line.
    LeadingComments(u32),
    /// The pending comments that lead a value which starts here. A suppression
    /// marker that the first item of a block collection claims stays pending.
    ValueLeadingComments { block_collection: bool, start: u32 },
    /// A node printed as it stands in the source.
    SuppressedNode(Span),
    Deferred(Deferred),
}

/// The source, the pending comments, the options and the elements so far.
pub struct YamlFormatter<'a> {
    pub source: &'a str,
    pub comments: Comments,
    pub options: FormatOptions,
    pub elements: Vec<Element>,
}

impl<'a> YamlFormatter<'a> {
    pub fn new(source: &'a str, comments: Comments, options: FormatOptions) -> (f: YamlFormatter<
        'a,
    >)
        ensures
            f.source == source,
            f.comments == comments,
            f.options == options,
            f.elements@ == Seq::<Element>::empty(),
    {
        YamlFormatter { source, comments, options, elements: Vec::new() }
    }

    /// The first pending comment.
    pub open spec fn first_pending(self) -> Option<Comment> {
        if self.comments@.len() > 0 {
            Some(self.comments@[0])
        } else {
            None
        }
    }

    /// The first pending comment, if there is one, starts in the source.
    pub open spec fn valid(self) -> bool {
        self.first_pending() matches Some(comment) ==> comment.span.start
            <= self.source.spec_bytes().len()
    }

    /// Nothing but the buffer has changed since `before`.
    pub open spec fn same_context(self, before: YamlFormatter<'a>) -> bool {
        &&& self.source == before.source
        &&& self.comments == before.comments
        &&& self.options == before.options
    }
}

} // verus!
