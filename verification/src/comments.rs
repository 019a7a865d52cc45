//! The comments that are still to be written, in source order.

use crate::ast::Span;
use vstd::prelude::*;

verus! {

/// A `#` comment.
#[derive(Clone, Copy, Debug, PartialEq, Eq, Structural)]
pub struct Comment {
    /// `#` through the end of the comment's text.
    pub span: Span,
    /// The column of the `#`.
    pub column: u32,
    /// Whether the comment has its line to itself.
    pub own_line: bool,
}

/// No comment is empty, and each ends before the next one starts.
pub open spec fn source_ordered(comments: Seq<Comment>) -> bool {
    &&& forall|i: int|
        0 <= i < comments.len() ==> (#[trigger] comments[i]).span.start < comments[i].span.end
    &&& forall|i: int, j: int|
        0 <= i < j < comments.len() ==> (#[trigger] comments[i]).span.end <= (
        #[trigger] comments[j]).span.start
}

/// How many comments at the front end at or before `bound`.
pub open spec fn count_before(comments: Seq<Comment>, bound: int) -> nat
    decreases comments.len(),
{
    if comments.len() > 0 && comments[0].span.end <= bound {
        1 + count_before(comments.drop_first(), bound)
    } else {
        0
    }
}

/// Whether a list of comments is in source order, without empty ones.
pub fn is_source_ordered(comments: &Vec<Comment>) -> (ordered: bool)
    ensures
        ordered == source_ordered(comments@),
{
    let mut i: usize = 0;
    while i < comments.len()
        invariant
            i <= comments.len(),
            source_ordered(comments@.take(i as int)),
        decreases comments.len() - i,
    {
        let ghost done = comments@.take(i as int);
        let ghost next = comments@.take(i + 1);
        assert(forall|k: int| 0 <= k < i ==> #[trigger] next[k] == done[k]);
        assert(next[i as int] == comments@[i as int]);
        if comments[i].span.start >= comments[i].span.end {
            return false;
        }
        if i > 0 && comments[i - 1].span.end > comments[i].span.start {
            return false;
        }
        assert(source_ordered(next)) by {
            assert forall|a: int, b: int| 0 <= a < b < next.len() implies (
            #[trigger] next[a]).span.end <= (#[trigger] next[b]).span.start by {
                if b == i && a < i - 1 {
                    assert(done[a].span.end <= done[i - 1].span.start);
                }
            }
        }
        i += 1;
    }
    assert(comments@.take(i as int) =~= comments@);
    true
}

/// A cursor over the comments of a source text. Its view is what is pending.
pub struct Comments {
    list: Vec<Comment>,
    next: usize,
}

impl View for Comments {
    type V = Seq<Comment>;

    closed spec fn view(&self) -> Seq<Comment> {
        self.list@.skip(self.next as int)
    }
}

impl Comments {
    #[verifier::type_invariant]
    spec fn inv(self) -> bool {
        &&& self.next <= self.list@.len()
        &&& source_ordered(self.list@)
    }

    pub fn new(list: Vec<Comment>) -> (comments: Comments)
        requires
            source_ordered(list@),
        ensures
            comments@ == list@,
    {
        assert(list@.skip(0) =~= list@);
        Comments { list, next: 0 }
    }

    /// The first pending comment.
    pub fn peek(&self) -> (first: Option<Comment>)
        ensures
            first == (if self@.len() > 0 { Some(self@[0]) } else { None }),
    {
        proof {
            use_type_invariant(self);
        }
        if self.next < self.list.len() {
            Some(self.list[self.next])
        } else {
            None
        }
    }

    /// Takes the pending comments that end at or before `bound`.
    pub fn take_before(&mut self, bound: u32) -> (taken: Vec<Comment>)
        ensures
            taken@ == old(self)@.take(count_before(old(self)@, bound as int) as int),
            final(self)@ == old(self)@.skip(count_before(old(self)@, bound as int) as int),
    {
        proof {
            use_type_invariant(&*self);
        }
        let ghost pending = self@;
        let mut taken: Vec<Comment> = Vec::new();
        let mut i: usize = self.next;
        assert(pending.skip(0) =~= pending);
        while i < self.list.len() && self.list[i].span.end <= bound
            invariant
                self.next <= i <= self.list@.len(),
                pending == self.list@.skip(self.next as int),
                taken@ =~= pending.take(i - self.next),
                count_before(pending, bound as int) == i - self.next + count_before(
                    pending.skip(i - self.next),
                    bound as int,
                ),
            decreases self.list.len() - i,
        {
            assert(pending.skip(i - self.next).drop_first() =~= pending.skip(i + 1 - self.next));
            assert(pending.skip(i - self.next)[0] == self.list@[i as int]);
            taken.push(self.list[i]);
            i += 1;
        }
        assert(i < self.list@.len() ==> pending.skip(i - self.next)[0] == self.list@[i as int]);
        assert(self.list@.skip(i as int) =~= pending.skip(i - self.next));
        self.next = i;
        taken
    }

    /// Takes the first pending comment.
    pub fn take_first(&mut self) -> (first: Option<Comment>)
        ensures
            first == (if old(self)@.len() > 0 { Some(old(self)@[0]) } else { None }),
            final(self)@ == (if old(self)@.len() > 0 {
                old(self)@.drop_first()
            } else {
                old(self)@
            }),
    {
        let first = self.peek();
        if let Some(comment) = first {
            proof {
                use_type_invariant(&*self);
                let rest = self@.drop_first();
                assert(rest.len() > 0 ==> self@[0].span.end <= self@[1].span.start);
                assert(count_before(rest, comment.span.end as int) == 0);
                assert(self@.skip(1) =~= rest);
            }
            let _ = self.take_before(comment.span.end);
        }
        first
    }
}

} // verus!
