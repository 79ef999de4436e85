//! The walk over a directory tree, as a state machine. The walker asks for
//! one piece of outside work at a time (list a directory, inspect an entry,
//! read a file) and is told the outcome; from it the walker decides what is
//! excluded, skipped or written, and what to ask next. Pending entries are
//! kept on an explicit stack, so the walk is a pre-order walk: a
//! directory's entries, in listing order, come before the entries that
//! were pending when it was listed.

use vstd::prelude::*;
use crate::classify::{has_zero_in_probe, image_name, should_skip_file};
use crate::document::{block_text, render_block};
use crate::paths::{
    child_path, clone_path, file_label, is_excluded, is_excluded_path, label_of, LabelMode,
    PathView,
};

verus! {

/// What the walker asks for next.
pub enum Request {
    /// List the entries of this directory.
    List(Vec<String>),
    /// Tell whether this entry is a directory or a file; for a file, hand
    /// over its first bytes.
    Inspect(Vec<String>),
    /// Read this file as text.
    Read(Vec<String>),
    /// Nothing is left to do.
    Finished,
}

/// The outcome of the work last asked for.
pub enum Reply {
    /// The names of the directory's entries, in listing order.
    Listing(Vec<String>),
    /// The directory could not be listed.
    ListFailed,
    /// The entry is a directory.
    IsDir,
    /// The entry is a file, with its first bytes (none where they could
    /// not be read).
    IsFile(Vec<u8>),
    /// The entry is neither a file nor a directory.
    IsOther,
    /// The file's text, and its resolved absolute path where one was found.
    Content(String, Option<String>),
    /// The file could not be read as text.
    ReadFailed,
}

/// What one step produces: diagnostics, and the blocks of the document.
pub enum Output {
    /// The entry lies under an exclusion and was not looked at.
    Excluded(Vec<String>),
    /// The file is binary or an image.
    Skipped(Vec<String>),
    /// The directory could not be listed.
    ListFailed(Vec<String>),
    /// The file could not be read as text.
    ReadFailed(Vec<String>),
    /// A block of the document.
    Block(String),
}

pub enum RequestView {
    List(PathView),
    Inspect(PathView),
    Read(PathView),
    Finished,
}

pub enum ReplyView {
    Listing(Seq<Seq<char>>),
    ListFailed,
    IsDir,
    IsFile(Seq<u8>),
    IsOther,
    Content(Seq<char>, Option<Seq<char>>),
    ReadFailed,
}

pub enum OutputView {
    Excluded(PathView),
    Skipped(PathView),
    ListFailed(PathView),
    ReadFailed(PathView),
    Block(Seq<char>),
}

impl View for Request {
    type V = RequestView;

    open spec fn view(&self) -> RequestView {
        match self {
            Request::List(p) => RequestView::List(p.deep_view()),
            Request::Inspect(p) => RequestView::Inspect(p.deep_view()),
            Request::Read(p) => RequestView::Read(p.deep_view()),
            Request::Finished => RequestView::Finished,
        }
    }
}

impl View for Reply {
    type V = ReplyView;

    open spec fn view(&self) -> ReplyView {
        match self {
            Reply::Listing(names) => ReplyView::Listing(names.deep_view()),
            Reply::ListFailed => ReplyView::ListFailed,
            Reply::IsDir => ReplyView::IsDir,
            Reply::IsFile(probe) => ReplyView::IsFile(probe@),
            Reply::IsOther => ReplyView::IsOther,
            Reply::Content(text, resolved) => ReplyView::Content(
                text@,
                match resolved {
                    Some(s) => Some(s@),
                    None => None,
                },
            ),
            Reply::ReadFailed => ReplyView::ReadFailed,
        }
    }
}

impl View for Output {
    type V = OutputView;

    open spec fn view(&self) -> OutputView {
        match self {
            Output::Excluded(p) => OutputView::Excluded(p.deep_view()),
            Output::Skipped(p) => OutputView::Skipped(p.deep_view()),
            Output::ListFailed(p) => OutputView::ListFailed(p.deep_view()),
            Output::ReadFailed(p) => OutputView::ReadFailed(p.deep_view()),
            Output::Block(b) => OutputView::Block(b@),
        }
    }
}

/// The views of a sequence of outputs.
pub open spec fn outputs_view(s: Seq<Output>) -> Seq<OutputView> {
    s.map_values(|o: Output| o@)
}

/// A walk in progress.
pub struct Walker {
    /// Entries still to be visited; the last one is visited first.
    pub stack: Vec<Vec<String>>,
    /// The work asked for and not yet answered.
    pub current: Request,
    /// The directory the walk started from.
    pub root: Vec<String>,
    /// Paths below which nothing is looked at.
    pub excluding: Vec<Vec<String>>,
    /// How file labels are formed.
    pub mode: LabelMode,
}

pub struct WalkerView {
    pub stack: Seq<PathView>,
    pub current: RequestView,
    pub root: PathView,
    pub excluding: Seq<PathView>,
    pub mode: LabelMode,
}

impl View for Walker {
    type V = WalkerView;

    open spec fn view(&self) -> WalkerView {
        WalkerView {
            stack: self.stack.deep_view(),
            current: self.current@,
            root: self.root.deep_view(),
            excluding: self.excluding.deep_view(),
            mode: self.mode,
        }
    }
}

/// The last segment of a path, or the empty name for the empty path.
pub open spec fn file_name_of(p: PathView) -> Seq<char> {
    if p.len() > 0 {
        p.last()
    } else {
        Seq::empty()
    }
}

/// The paths of a directory's entries, in listing order.
pub open spec fn children(dir: PathView, names: Seq<Seq<char>>) -> Seq<PathView> {
    Seq::new(names.len(), |i: int| dir.push(names[i]))
}

/// Drops the excluded entries from the top of the stack, noting each; stops
/// at the first entry that is not excluded.
pub open spec fn pop_excluded(stack: Seq<PathView>, excluding: Seq<PathView>) -> (Seq<PathView>, Seq<OutputView>)
    decreases stack.len(),
{
    if stack.len() > 0 && is_excluded(stack.last(), excluding) {
        let (rest, notes) = pop_excluded(stack.drop_last(), excluding);
        (rest, seq![OutputView::Excluded(stack.last())] + notes)
    } else {
        (stack, Seq::empty())
    }
}

/// Moves on to the next entry that is not excluded, or finishes.
pub open spec fn advance(w: WalkerView) -> (WalkerView, Seq<OutputView>) {
    let (rest, notes) = pop_excluded(w.stack, w.excluding);
    if rest.len() == 0 {
        (WalkerView { stack: rest, current: RequestView::Finished, ..w }, notes)
    } else {
        (WalkerView { stack: rest.drop_last(), current: RequestView::Inspect(rest.last()), ..w }, notes)
    }
}

/// `advance`, with `first` noted before what it notes.
pub open spec fn advance_after(w: WalkerView, first: OutputView) -> (WalkerView, Seq<OutputView>) {
    (advance(w).0, seq![first] + advance(w).1)
}

/// The file at `p`, with first bytes `probe`, is left out of the document.
pub open spec fn skips(p: PathView, probe: Seq<u8>) -> bool {
    has_zero_in_probe(probe) || image_name(file_name_of(p))
}

/// One step of the walk: the walker's next state and what it produces,
/// given the outcome of the work it asked for. A reply that does not fit
/// the request changes nothing.
pub open spec fn next(w: WalkerView, reply: ReplyView) -> (WalkerView, Seq<OutputView>) {
    match (w.current, reply) {
        (RequestView::List(d), ReplyView::Listing(names)) => advance(
            WalkerView { stack: w.stack + children(d, names).reverse(), ..w },
        ),
        (RequestView::List(d), ReplyView::ListFailed) => advance_after(
            w,
            OutputView::ListFailed(d),
        ),
        (RequestView::Inspect(p), ReplyView::IsDir) => (
            WalkerView { current: RequestView::List(p), ..w },
            Seq::empty(),
        ),
        (RequestView::Inspect(p), ReplyView::IsFile(probe)) => if skips(p, probe) {
            advance_after(w, OutputView::Skipped(p))
        } else {
            (WalkerView { current: RequestView::Read(p), ..w }, Seq::empty())
        },
        (RequestView::Inspect(p), ReplyView::IsOther) => advance(w),
        (RequestView::Read(p), ReplyView::Content(text, resolved)) => advance_after(
            w,
            OutputView::Block(block_text(label_of(w.mode, w.root, p, resolved), text)),
        ),
        (RequestView::Read(p), ReplyView::ReadFailed) => advance_after(
            w,
            OutputView::ReadFailed(p),
        ),
        _ => (w, Seq::empty()),
    }
}

impl Request {
    /// A copy of the request.
    pub fn duplicate(&self) -> (r: Request)
        ensures
            r@ == self@,
    {
        match self {
            Request::List(p) => Request::List(clone_path(p)),
            Request::Inspect(p) => Request::Inspect(clone_path(p)),
            Request::Read(p) => Request::Read(clone_path(p)),
            Request::Finished => Request::Finished,
        }
    }
}

impl Walker {
    /// A walk that starts by listing `root`.
    pub fn new(root: Vec<String>, excluding: Vec<Vec<String>>, mode: LabelMode) -> (r: Walker)
        ensures
            r@ == (WalkerView {
                stack: Seq::empty(),
                current: RequestView::List(root.deep_view()),
                root: root.deep_view(),
                excluding: excluding.deep_view(),
                mode,
            }),
    {
        let first = clone_path(&root);
        let w = Walker { stack: Vec::new(), current: Request::List(first), root, excluding, mode };
        assert(w@.stack =~= Seq::<PathView>::empty());
        w
    }

    /// The work the walker waits for.
    pub fn request(&self) -> (r: &Request)
        ensures
            r@ == self@.current,
    {
        &self.current
    }

    /// Whether the walk is over.
    pub fn is_finished(&self) -> (r: bool)
        ensures
            r == (self@.current is Finished),
    {
        match self.current {
            Request::Finished => true,
            _ => false,
        }
    }

    /// Moves on to the next entry that is not excluded, noting each
    /// excluded one in `out`.
    fn advance(&mut self, out: &mut Vec<Output>)
        ensures
            final(self)@ == advance(old(self)@).0,
            outputs_view(final(out)@) == outputs_view(old(out)@) + advance(old(self)@).1,
    {
        let ghost w0 = self@;
        let ghost out0 = outputs_view(out@);
        loop
            invariant
                w0 == old(self)@,
                out0 == outputs_view(old(out)@),
                self.root.deep_view() == w0.root,
                self.excluding.deep_view() == w0.excluding,
                self.mode == w0.mode,
                pop_excluded(self.stack.deep_view(), w0.excluding).0 == pop_excluded(
                    w0.stack,
                    w0.excluding,
                ).0,
                out0 + pop_excluded(w0.stack, w0.excluding).1 == outputs_view(out@)
                    + pop_excluded(self.stack.deep_view(), w0.excluding).1,
            decreases self.stack.len(),
        {
            let ghost s = self.stack.deep_view();
            match self.stack.pop() {
                None => {
                    assert(s =~= Seq::<PathView>::empty());
                    assert(pop_excluded(s, w0.excluding) == (s, Seq::<OutputView>::empty()));
                    self.current = Request::Finished;
                    assert(self@.stack == advance(w0).0.stack);
                    assert(outputs_view(out@) =~= out0 + pop_excluded(w0.stack, w0.excluding).1);
                    return;
                },
                Some(p) => {
                    assert(self.stack.deep_view() =~= s.drop_last());
                    assert(p.deep_view() == s.last());
                    if is_excluded_path(&p, &self.excluding) {
                        let ghost before = outputs_view(out@);
                        out.push(Output::Excluded(p));
                        assert(outputs_view(out@) =~= before.push(OutputView::Excluded(s.last())));
                        assert(seq![OutputView::Excluded(s.last())] + pop_excluded(s.drop_last(), w0.excluding).1
                            == pop_excluded(s, w0.excluding).1);
                        assert(before + pop_excluded(s, w0.excluding).1 =~= outputs_view(out@)
                            + pop_excluded(s.drop_last(), w0.excluding).1);
                    } else {
                        assert(pop_excluded(s, w0.excluding) == (s, Seq::<OutputView>::empty()));
                        self.current = Request::Inspect(p);
                        assert(self@.stack == advance(w0).0.stack);
                        assert(self@.current == advance(w0).0.current);
                        assert(outputs_view(out@) =~= out0 + pop_excluded(w0.stack, w0.excluding).1);
                        return;
                    }
                },
            }
        }
    }

    /// Takes the outcome of the work asked for and moves the walk on,
    /// returning the diagnostics and blocks that the step produced.
    pub fn step(&mut self, reply: Reply) -> (r: Vec<Output>)
        ensures
            (final(self)@, outputs_view(r@)) == next(old(self)@, reply@),
    {
        let ghost w0 = self@;
        let ghost rv = reply@;
        let mut out: Vec<Output> = Vec::new();
        assert(outputs_view(out@) =~= Seq::<OutputView>::empty());
        let cur = self.current.duplicate();
        match (cur, reply) {
            (Request::List(d), Reply::Listing(names)) => {
                let mut i: usize = names.len();
                let ghost base = self.stack.deep_view();
                while i > 0
                    invariant
                        i <= names.len(),
                        self.root.deep_view() == w0.root,
                        self.excluding.deep_view() == w0.excluding,
                        self.mode == w0.mode,
                        self.current@ == w0.current,
                        base == w0.stack,
                        d.deep_view() == w0.current->List_0,
                        self.stack.deep_view() =~= base + children(d.deep_view(), names.deep_view()).reverse().subrange(
                            0,
                            (names.len() - i) as int,
                        ),
                    decreases i,
                {
                    i = i - 1;
                    let c = child_path(&d, &names[i]);
                    let ghost before = self.stack.deep_view();
                    self.stack.push(c);
                    assert(self.stack.deep_view() =~= before.push(c.deep_view()));
                }
                assert(children(d.deep_view(), names.deep_view()).reverse().subrange(0, names.len() as int)
                    =~= children(d.deep_view(), names.deep_view()).reverse());
                self.advance(&mut out);
            },
            (Request::List(d), Reply::ListFailed) => {
                out.push(Output::ListFailed(d));
                self.advance(&mut out);
                assert(outputs_view(out@) =~= advance_after(w0, OutputView::ListFailed(w0.current->List_0)).1);
            },
            (Request::Inspect(p), Reply::IsDir) => {
                self.current = Request::List(p);
            },
            (Request::Inspect(p), Reply::IsFile(probe)) => {
                let skip = if p.len() > 0 {
                    should_skip_file(p[p.len() - 1].as_str(), probe.as_slice())
                } else {
                    should_skip_file("", probe.as_slice())
                };
                proof {
                    reveal_strlit("");
                    assert(p.len() > 0 ==> p.deep_view().last() == p[p.len() - 1]@);
                }
                if skip {
                    out.push(Output::Skipped(p));
                    self.advance(&mut out);
                    assert(outputs_view(out@) =~= advance_after(w0, OutputView::Skipped(w0.current->Inspect_0)).1);
                } else {
                    self.current = Request::Read(p);
                }
            },
            (Request::Inspect(p), Reply::IsOther) => {
                self.advance(&mut out);
            },
            (Request::Read(p), Reply::Content(text, resolved)) => {
                let label = file_label(self.mode, &self.root, &p, resolved);
                let block = render_block(label.as_str(), text.as_str());
                out.push(Output::Block(block));
                self.advance(&mut out);
                assert(outputs_view(out@) =~= next(w0, rv).1);
            },
            (Request::Read(p), Reply::ReadFailed) => {
                out.push(Output::ReadFailed(p));
                self.advance(&mut out);
                assert(outputs_view(out@) =~= advance_after(w0, OutputView::ReadFailed(w0.current->Read_0)).1);
            },
            _ => {},
        }
        out
    }
}

} // verus!
