//! What a run has said so far and not posted yet: findings, comments and a verdict, buffered until the
//! run ends.

use vstd::prelude::*;

use crate::text;
use crate::text::{opt_view, views};

verus! {

/// A buffered finding.
#[derive(Debug)]
pub struct PendingInline {
    pub file: String,
    pub line: i32,
    pub title: Option<String>,
    pub priority: Option<String>,
    pub category: Option<String>,
    pub suggestion: Option<String>,
    pub body: String,
}

/// The mathematical value of a [`PendingInline`].
#[verifier::ext_equal]
pub struct InlineView {
    pub file: Seq<char>,
    pub line: i32,
    pub title: Option<Seq<char>>,
    pub priority: Option<Seq<char>>,
    pub category: Option<Seq<char>>,
    pub suggestion: Option<Seq<char>>,
    pub body: Seq<char>,
}

impl View for PendingInline {
    type V = InlineView;

    open spec fn view(&self) -> InlineView {
        InlineView {
            file: self.file@,
            line: self.line,
            title: opt_view(self.title),
            priority: opt_view(self.priority),
            category: opt_view(self.category),
            suggestion: opt_view(self.suggestion),
            body: self.body@,
        }
    }
}

/// A buffered comment. The call it is from tells a replayed one from a new one.
#[derive(Debug)]
pub struct PendingComment {
    pub run_epoch: Option<i32>,
    pub call_id: Option<String>,
    pub body: String,
}

/// The mathematical value of a [`PendingComment`].
#[verifier::ext_equal]
pub struct CommentView {
    pub run_epoch: Option<i32>,
    pub call_id: Option<Seq<char>>,
    pub body: Seq<char>,
}

impl View for PendingComment {
    type V = CommentView;

    open spec fn view(&self) -> CommentView {
        CommentView {
            run_epoch: self.run_epoch,
            call_id: opt_view(self.call_id),
            body: self.body@,
        }
    }
}

/// The classes of what is buffered.
#[derive(Clone, Copy, Debug, PartialEq, Eq, Structural)]
pub enum ActionKind {
    Inline,
    Comment,
    Summary,
}

/// What a run has buffered.
#[derive(Debug)]
pub struct PendingBuffer {
    pub inline: Vec<PendingInline>,
    pub comments: Vec<PendingComment>,
    pub summary: Option<String>,
}

/// The mathematical value of a [`PendingBuffer`].
#[verifier::ext_equal]
pub struct BufferView {
    pub inline: Seq<InlineView>,
    pub comments: Seq<CommentView>,
    pub summary: Option<Seq<char>>,
}

/// The values of buffered findings.
pub open spec fn inline_views(v: Seq<PendingInline>) -> Seq<InlineView> {
    Seq::new(v.len(), |i: int| v[i]@)
}

/// The values of buffered comments.
pub open spec fn comment_views(v: Seq<PendingComment>) -> Seq<CommentView> {
    Seq::new(v.len(), |i: int| v[i]@)
}

impl View for PendingBuffer {
    type V = BufferView;

    open spec fn view(&self) -> BufferView {
        BufferView {
            inline: inline_views(self.inline@),
            comments: comment_views(self.comments@),
            summary: opt_view(self.summary),
        }
    }
}

/// A buffer with nothing in it.
pub open spec fn empty_buffer() -> BufferView {
    BufferView { inline: Seq::empty(), comments: Seq::empty(), summary: None }
}

/// Whether findings stand on different lines.
pub open spec fn lines_differ(inline: Seq<InlineView>) -> bool {
    forall|i: int, j: int|
        0 <= i < j < inline.len() ==> !((#[trigger] inline[i]).file == (#[trigger] inline[j]).file
            && inline[i].line == inline[j].line)
}

/// Whether `i` is the place of the finding on a line; of several, the first.
pub open spec fn is_line_at(inline: Seq<InlineView>, file: Seq<char>, line: i32, i: int) -> bool {
    &&& 0 <= i < inline.len()
    &&& inline[i].file == file && inline[i].line == line
    &&& forall|j: int|
        0 <= j < i ==> !((#[trigger] inline[j]).file == file && inline[j].line == line)
}

/// Whether nothing was found on a line.
pub open spec fn line_is_free(inline: Seq<InlineView>, file: Seq<char>, line: i32) -> bool {
    forall|j: int|
        0 <= j < inline.len() ==> !((#[trigger] inline[j]).file == file && inline[j].line == line)
}

impl PendingBuffer {
    /// A buffer with nothing in it.
    pub fn new() -> (r: PendingBuffer)
        ensures
            r@ == empty_buffer(),
    {
        let r = PendingBuffer { inline: Vec::new(), comments: Vec::new(), summary: None };
        assert(r@ =~= empty_buffer());
        r
    }

    fn line_at(&self, file: &str, line: i32) -> (r: Option<usize>)
        ensures
            match r {
                Some(i) => is_line_at(self@.inline, file@, line, i as int),
                None => line_is_free(self@.inline, file@, line),
            },
    {
        let ghost all = self@.inline;
        let mut i: usize = 0;
        while i < self.inline.len()
            invariant
                i <= self.inline@.len(),
                all == inline_views(self.inline@),
                forall|j: int|
                    0 <= j < i ==> !((#[trigger] all[j]).file == file@ && all[j].line == line),
            decreases self.inline@.len() - i,
        {
            assert(all[i as int] == self.inline@[i as int]@);
            if self.inline[i].line == line && text::same(self.inline[i].file.as_str(), file) {
                return Some(i);
            }
            i = i + 1;
        }
        None
    }

    /// Takes a finding back; nothing happens where there is none on the line.
    pub fn delete_pending_inline(&mut self, file: &str, line: i32)
        ensures
            final(self)@ == (BufferView {
                inline: old(self)@.inline.filter(
                    |f: InlineView| !(f.file == file@ && f.line == line),
                ),
                ..old(self)@
            }),
    {
        let ghost before = self.inline@;
        let ghost all = inline_views(before);
        let ghost p = |f: InlineView| !(f.file == file@ && f.line == line);
        let ghost old_comments = self.comments@;
        let mut rest: Vec<PendingInline> = Vec::new();
        std::mem::swap(&mut rest, &mut self.inline);
        let mut out: Vec<PendingInline> = Vec::new();
        let ghost mut i: int = 0;
        proof {
            reveal(Seq::filter);
            assert(all.take(0) =~= Seq::empty());
            assert(inline_views(out@) =~= Seq::empty());
            assert(rest@ =~= before.skip(0));
        }
        while rest.len() > 0
            invariant
                0 <= i <= before.len(),
                all == inline_views(before),
                rest@ == before.skip(i),
                p == (|f: InlineView| !(f.file == file@ && f.line == line)),
                inline_views(out@) == all.take(i).filter(p),
            decreases rest@.len(),
        {
            let f: PendingInline = rest.remove(0);
            proof {
                reveal(Seq::filter);
                assert(f == before[i]);
                assert(rest@ =~= before.skip(i + 1));
                assert(all.take(i + 1).drop_last() =~= all.take(i));
                assert(all.take(i + 1).last() == f@);
            }
            let ghost out_before = out@;
            if !(f.line == line && text::same(f.file.as_str(), file)) {
                out.push(f);
                assert(inline_views(out@) =~= inline_views(out_before).push(f@));
            }
            proof {
                i = i + 1;
            }
        }
        assert(all.take(i) =~= all);
        std::mem::swap(&mut out, &mut self.inline);
    }

    /// Forgets everything.
    pub fn clear_pending_review(&mut self)
        ensures
            final(self)@ == empty_buffer(),
    {
        self.inline = Vec::new();
        self.comments = Vec::new();
        self.summary = None;
        assert(self@ =~= empty_buffer());
    }

    /// Forgets one class of what is buffered.
    pub fn clear_pending_action(&mut self, action: ActionKind)
        ensures
            final(self)@ == (match action {
                ActionKind::Inline => BufferView { inline: Seq::empty(), ..old(self)@ },
                ActionKind::Comment => BufferView { comments: Seq::empty(), ..old(self)@ },
                ActionKind::Summary => BufferView { summary: None, ..old(self)@ },
            }),
    {
        match action {
            ActionKind::Inline => {
                self.inline = Vec::new();
                assert(inline_views(self.inline@) =~= Seq::empty());
            },
            ActionKind::Comment => {
                self.comments = Vec::new();
                assert(comment_views(self.comments@) =~= Seq::empty());
            },
            ActionKind::Summary => {
                self.summary = None;
            },
        }
    }

    /// Buffers a finding. One on the same line is replaced, in its place.
    pub fn upsert_pending_inline(&mut self, finding: PendingInline)
        ensures
            if line_is_free(old(self)@.inline, finding.file@, finding.line) {
                final(self)@ == (BufferView {
                    inline: old(self)@.inline.push(finding@),
                    ..old(self)@
                })
            } else {
                exists|i: int| #[trigger]
                    is_line_at(old(self)@.inline, finding.file@, finding.line, i) && final(self)@
                        == (BufferView {
                        inline: old(self)@.inline.update(i, finding@),
                        ..old(self)@
                    })
            },
    {
        let ghost before = self@;
        let ghost new = finding@;
        match self.line_at(finding.file.as_str(), finding.line) {
            Some(i) => {
                assert(before.inline[i as int].file == new.file);
                self.inline.set(i, finding);
                assert(self@.inline =~= before.inline.update(i as int, new));
            },
            None => {
                self.inline.push(finding);
                assert(self@.inline =~= before.inline.push(new));
            },
        }
    }

    /// Buffers a comment. One that a call of the same run already left is not buffered again.
    pub fn add_pending_comment(&mut self, run_epoch: Option<i32>, call_id: Option<&str>, body: &str)
        ensures
            final(self)@ == with_comment(
                old(self)@,
                run_epoch,
                text::opt_str_view(call_id),
                body@,
            ),
    {
        let ghost before = self@;
        if let Some(call) = call_id {
            if let Some(epoch) = run_epoch {
                let mut i: usize = 0;
                while i < self.comments.len()
                    invariant
                        i <= self.comments@.len(),
                        before == self@,
                        before == old(self)@,
                        run_epoch == Some(epoch),
                        text::opt_str_view(call_id) == Some(call@),
                        forall|j: int|
                            0 <= j < i ==> !((#[trigger] before.comments[j]).run_epoch == Some(epoch)
                                && before.comments[j].call_id == Some(call@)),
                    decreases self.comments@.len() - i,
                {
                    assert(before.comments[i as int] == self.comments@[i as int]@);
                    let same_epoch: bool = match self.comments[i].run_epoch {
                        Some(e) => e == epoch,
                        None => false,
                    };
                    let same_call: bool = match &self.comments[i].call_id {
                        Some(c) => text::same(c.as_str(), call),
                        None => false,
                    };
                    if same_epoch && same_call {
                        assert(is_replayed(before, run_epoch, text::opt_str_view(call_id)));
                        return ;
                    }
                    i = i + 1;
                }
            }
        }
        let comment = PendingComment {
            run_epoch,
            call_id: match call_id {
                Some(call) => Some(call.to_owned()),
                None => None,
            },
            body: body.to_owned(),
        };
        let ghost new = comment@;
        self.comments.push(comment);
        assert(self@.comments =~= before.comments.push(new));
    }

    /// Sets the verdict.
    pub fn upsert_pending_summary(&mut self, body: &str)
        ensures
            final(self)@ == (BufferView { summary: Some(body@), ..old(self)@ }),
    {
        self.summary = Some(body.to_owned());
    }

    /// What is buffered, for posting.
    pub fn load_pending_review(self) -> (r: PendingReview)
        ensures
            inline_views(r.inline@) == self@.inline,
            views(r.comments@) == Seq::new(
                self@.comments.len(),
                |i: int| self@.comments[i].body,
            ),
            opt_view(r.summary) == self@.summary,
    {
        let ghost given = self.comments@;
        let mut rest: Vec<PendingComment> = self.comments;
        let mut bodies: Vec<String> = Vec::new();
        let ghost mut i: int = 0;
        assert(rest@ =~= given.skip(0));
        while rest.len() > 0
            invariant
                0 <= i <= given.len(),
                rest@ == given.skip(i),
                bodies@.len() == i,
                forall|j: int| 0 <= j < i ==> (#[trigger] bodies@[j])@ == given[j].body@,
            decreases rest@.len(),
        {
            let c: PendingComment = rest.remove(0);
            assert(rest@ =~= given.skip(i + 1));
            bodies.push(c.body);
            proof {
                i = i + 1;
            }
        }
        assert(views(bodies@) =~= Seq::new(
            given.len(),
            |k: int| comment_views(given)[k].body,
        ));
        PendingReview { inline: self.inline, comments: bodies, summary: self.summary }
    }
}

/// Whether a call of a run already left a comment.
pub open spec fn is_replayed(b: BufferView, run_epoch: Option<i32>, call_id: Option<Seq<char>>) -> bool {
    &&& run_epoch is Some
    &&& call_id is Some
    &&& exists|j: int|
        0 <= j < b.comments.len() && (#[trigger] b.comments[j]).run_epoch == run_epoch
            && b.comments[j].call_id == call_id
}

/// A buffer with a comment, unless it is a replayed one.
pub open spec fn with_comment(
    b: BufferView,
    run_epoch: Option<i32>,
    call_id: Option<Seq<char>>,
    body: Seq<char>,
) -> BufferView {
    if is_replayed(b, run_epoch, call_id) {
        b
    } else {
        BufferView {
            comments: b.comments.push(CommentView { run_epoch, call_id, body }),
            ..b
        }
    }
}

/// What a run leaves to be posted.
#[derive(Debug)]
pub struct PendingReview {
    pub inline: Vec<PendingInline>,
    pub comments: Vec<String>,
    pub summary: Option<String>,
}

impl PendingReview {
    /// Whether the run left nothing at all.
    pub fn is_empty(&self) -> (r: bool)
        ensures
            r == (self.inline@.len() == 0 && self.comments@.len() == 0 && self.summary is None),
    {
        self.inline.len() == 0 && self.comments.len() == 0 && self.summary.is_none()
    }
}

/// A comment that a run leaves twice by one call, as when its steps are replayed, is there once.
pub proof fn law_replayed_comment_is_dropped(
    b: BufferView,
    run_epoch: i32,
    call_id: Seq<char>,
    first: Seq<char>,
    second: Seq<char>,
)
    ensures
        ({
            let once = with_comment(b, Some(run_epoch), Some(call_id), first);
            with_comment(once, Some(run_epoch), Some(call_id), second) == once
        }),
{
    let once = with_comment(b, Some(run_epoch), Some(call_id), first);
    if !is_replayed(b, Some(run_epoch), Some(call_id)) {
        assert(once.comments[b.comments.len() as int].run_epoch == Some(run_epoch));
    }
}

/// Findings stay on different lines: a new one on a line that is free, or one in the place of another.
pub proof fn law_one_finding_a_line(inline: Seq<InlineView>, finding: InlineView, i: int)
    requires
        lines_differ(inline),
    ensures
        line_is_free(inline, finding.file, finding.line) ==> lines_differ(inline.push(finding)),
        is_line_at(inline, finding.file, finding.line, i) ==> lines_differ(
            inline.update(i, finding),
        ),
{
    if line_is_free(inline, finding.file, finding.line) {
        let after = inline.push(finding);
        assert forall|a: int, b: int| 0 <= a < b < after.len() implies !((
        #[trigger] after[a]).file == (#[trigger] after[b]).file && after[a].line
            == after[b].line) by {
            assert(after[a] == inline[a]);
            if b < inline.len() {
                assert(after[b] == inline[b]);
            }
        }
    }
    if is_line_at(inline, finding.file, finding.line, i) {
        let after = inline.update(i, finding);
        assert forall|a: int, b: int| 0 <= a < b < after.len() implies !((
        #[trigger] after[a]).file == (#[trigger] after[b]).file && after[a].line
            == after[b].line) by {
            assert(inline[a].file == inline[a].file && inline[b].file == inline[b].file);
        }
    }
}

} // verus!
