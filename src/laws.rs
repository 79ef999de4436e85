//! Properties of the walk, proved over its step function.

use vstd::prelude::*;
use crate::document::block_text;
use crate::paths::{is_excluded, label_of, PathView};
use crate::walker::{
    advance, children, next, pop_excluded, skips, OutputView, ReplyView, RequestView, WalkerView,
};

verus! {

/// No content is asked for below an exclusion: the entry the walker
/// inspects (reading its first bytes) or reads is never excluded.
pub open spec fn reads_outside_exclusions(w: WalkerView) -> bool {
    match w.current {
        RequestView::Inspect(p) => !is_excluded(p, w.excluding),
        RequestView::Read(p) => !is_excluded(p, w.excluding),
        _ => true,
    }
}

/// The outputs hold no block.
pub open spec fn no_block(outs: Seq<OutputView>) -> bool {
    forall|i: int| 0 <= i < outs.len() ==> !(#[trigger] outs[i] is Block)
}

/// What `pop_excluded` leaves is a prefix of the stack, topped by an entry
/// that is not excluded, and what it notes are exclusions only.
pub proof fn lemma_pop_excluded(stack: Seq<PathView>, excluding: Seq<PathView>)
    ensures
        pop_excluded(stack, excluding).0.len() <= stack.len(),
        pop_excluded(stack, excluding).0 == stack.subrange(
            0,
            pop_excluded(stack, excluding).0.len() as int,
        ),
        pop_excluded(stack, excluding).0.len() > 0 ==> !is_excluded(
            pop_excluded(stack, excluding).0.last(),
            excluding,
        ),
        no_block(pop_excluded(stack, excluding).1),
    decreases stack.len(),
{
    if stack.len() > 0 && is_excluded(stack.last(), excluding) {
        lemma_pop_excluded(stack.drop_last(), excluding);
        let rest = pop_excluded(stack.drop_last(), excluding);
        assert(rest.0 =~= stack.subrange(0, rest.0.len() as int));
        let notes = seq![OutputView::Excluded(stack.last())] + rest.1;
        assert forall|i: int| 0 <= i < notes.len() implies !(#[trigger] notes[i] is Block) by {
            if i > 0 {
                assert(notes[i] == rest.1[i - 1]);
            }
        }
    } else {
        assert(stack =~= stack.subrange(0, stack.len() as int));
    }
}

/// Moving on never asks to read a file, never writes a block, and never
/// asks for content below an exclusion.
pub proof fn lemma_advance(w: WalkerView)
    ensures
        !(advance(w).0.current is Read),
        no_block(advance(w).1),
        reads_outside_exclusions(advance(w).0),
        advance(w).0.excluding == w.excluding,
{
    lemma_pop_excluded(w.stack, w.excluding);
}

/// Exclusions hold for the whole walk: a new walk asks for no content, and
/// each step keeps the walker from asking for the content of an entry
/// below an exclusion. So an excluded file is never read and gets no block.
pub proof fn lemma_exclusions_respected(w: WalkerView, reply: ReplyView)
    requires
        reads_outside_exclusions(w),
    ensures
        reads_outside_exclusions(next(w, reply).0),
        next(w, reply).0.excluding == w.excluding,
{
    lemma_advance(w);
    match w.current {
        RequestView::List(d) => {
            match reply {
                ReplyView::Listing(names) => {
                    lemma_advance(WalkerView { stack: w.stack + children(d, names).reverse(), ..w });
                },
                _ => {},
            }
        },
        _ => {},
    }
}

/// A file that is binary or an image gets no block: inspecting it yields
/// no block, and the walker moves on without asking to read it.
pub proof fn lemma_skipped_file_has_no_block(w: WalkerView, probe: Seq<u8>)
    requires
        w.current is Inspect,
        skips(w.current->Inspect_0, probe),
    ensures
        next(w, ReplyView::IsFile(probe)).1[0] == OutputView::Skipped(w.current->Inspect_0),
        no_block(next(w, ReplyView::IsFile(probe)).1),
        !(next(w, ReplyView::IsFile(probe)).0.current is Read),
{
    lemma_advance(w);
    let outs = next(w, ReplyView::IsFile(probe)).1;
    assert forall|i: int| 0 <= i < outs.len() implies !(#[trigger] outs[i] is Block) by {
        if i > 0 {
            assert(outs[i] == advance(w).1[i - 1]);
        }
    }
}

/// A file that is neither binary nor an image gets exactly one block: the
/// walker asks to read it, and its text yields one block, first among the
/// outputs of that step, holding the file's label and text.
pub proof fn lemma_text_file_one_block(
    w: WalkerView,
    probe: Seq<u8>,
    text: Seq<char>,
    resolved: Option<Seq<char>>,
)
    requires
        w.current is Inspect,
        !skips(w.current->Inspect_0, probe),
    ensures
        next(w, ReplyView::IsFile(probe)).0.current == RequestView::Read(w.current->Inspect_0),
        next(w, ReplyView::IsFile(probe)).1.len() == 0,
        next(next(w, ReplyView::IsFile(probe)).0, ReplyView::Content(text, resolved)).1[0]
            == OutputView::Block(
            block_text(label_of(w.mode, w.root, w.current->Inspect_0, resolved), text),
        ),
        no_block(
            next(next(w, ReplyView::IsFile(probe)).0, ReplyView::Content(text, resolved)).1.drop_first(),
        ),
{
    let w1 = next(w, ReplyView::IsFile(probe)).0;
    lemma_advance(w1);
    let outs = next(w1, ReplyView::Content(text, resolved)).1;
    assert(outs.drop_first() =~= advance(w1).1);
}

/// A file whose read fails gets a diagnostic and no block, and the walk
/// goes on with the next entry just as after a successful read.
pub proof fn lemma_failed_read_continues(w: WalkerView, text: Seq<char>, resolved: Option<Seq<char>>)
    requires
        w.current is Read,
    ensures
        next(w, ReplyView::ReadFailed).1[0] == OutputView::ReadFailed(w.current->Read_0),
        no_block(next(w, ReplyView::ReadFailed).1),
        next(w, ReplyView::ReadFailed).0 == next(w, ReplyView::Content(text, resolved)).0,
{
    lemma_advance(w);
    let outs = next(w, ReplyView::ReadFailed).1;
    assert forall|i: int| 0 <= i < outs.len() implies !(#[trigger] outs[i] is Block) by {
        if i > 0 {
            assert(outs[i] == advance(w).1[i - 1]);
        }
    }
}

/// The walk is pre-order: after a directory is listed, its entries lie on
/// top of every entry that was pending before, the first listed on top;
/// what remains pending is a prefix of that stack, and the entry inspected
/// next is the one just above it.
pub proof fn lemma_listing_preorder(w: WalkerView, names: Seq<Seq<char>>)
    requires
        w.current is List,
    ensures
        ({
            let d = w.current->List_0;
            let all = w.stack + children(d, names).reverse();
            let w2 = next(w, ReplyView::Listing(names)).0;
            &&& all.len() == w.stack.len() + names.len()
            &&& all.subrange(0, w.stack.len() as int) == w.stack
            &&& forall|i: int|
                0 <= i < names.len() ==> #[trigger] all[w.stack.len() + names.len() - 1 - i]
                    == d.push(names[i])
            &&& w2.stack.len() <= all.len()
            &&& w2.stack == all.subrange(0, w2.stack.len() as int)
            &&& (w2.current is Inspect ==> w2.stack.len() < all.len() && w2.current->Inspect_0
                == all[w2.stack.len() as int])
        }),
{
    let d = w.current->List_0;
    let all = w.stack + children(d, names).reverse();
    lemma_pop_excluded(all, w.excluding);
    assert(all.subrange(0, w.stack.len() as int) =~= w.stack);
    let rest = pop_excluded(all, w.excluding).0;
    if rest.len() > 0 {
        assert(rest.drop_last() =~= all.subrange(0, rest.len() - 1));
        assert(rest.last() == all[rest.len() - 1]);
    }
}

/// The result of feeding the walker a sequence of replies: its final state
/// and everything it produced, in order.
pub open spec fn run(w: WalkerView, replies: Seq<ReplyView>) -> (WalkerView, Seq<OutputView>)
    decreases replies.len(),
{
    if replies.len() == 0 {
        (w, Seq::empty())
    } else {
        let (w1, outs) = next(w, replies[0]);
        let (w2, rest) = run(w1, replies.drop_first());
        (w2, outs + rest)
    }
}

/// The walk is deterministic: two walks that start alike and receive the
/// same replies produce the same outputs, blocks and their order included.
pub proof fn lemma_walk_deterministic(
    w1: WalkerView,
    w2: WalkerView,
    replies1: Seq<ReplyView>,
    replies2: Seq<ReplyView>,
)
    requires
        w1 == w2,
        replies1 == replies2,
    ensures
        run(w1, replies1) == run(w2, replies2),
    decreases replies1.len(),
{
    if replies1.len() > 0 {
        lemma_walk_deterministic(
            next(w1, replies1[0]).0,
            next(w2, replies2[0]).0,
            replies1.drop_first(),
            replies2.drop_first(),
        );
    }
}

} // verus!
