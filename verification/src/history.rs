//! The annotations made so far, with undo and redo.

use crate::tools::{self, is_command_trivial, CommandView, DrawCommand};
use vstd::prelude::*;

verus! {

/// The committed annotations, oldest first, and the undone ones, the last one
/// undone at the end.
#[verifier::ext_equal]
pub struct HistoryView {
    pub done: Seq<CommandView>,
    pub undone: Seq<CommandView>,
}

/// Every command is worth keeping and can be drawn.
pub open spec fn keepable(s: Seq<CommandView>) -> bool {
    forall|i: int|
        0 <= i < s.len() ==> !(#[trigger] s[i]).trivial() && s[i].measurable()
}

impl HistoryView {
    pub open spec fn empty() -> HistoryView {
        HistoryView { done: seq![], undone: seq![] }
    }

    pub open spec fn wf(self) -> bool {
        keepable(self.done) && keepable(self.undone)
    }

    /// After a command was finished. A trivial one is dropped; any other is
    /// added, and nothing is left to redo.
    pub open spec fn committed(self, c: CommandView) -> HistoryView {
        if c.trivial() {
            self
        } else {
            HistoryView { done: self.done.push(c), undone: seq![] }
        }
    }

    /// After the last command was undone.
    pub open spec fn undone_last(self) -> HistoryView {
        if self.done.len() == 0 {
            self
        } else {
            HistoryView {
                done: self.done.drop_last(),
                undone: self.undone.push(self.done.last()),
            }
        }
    }

    /// After the command last undone was redone.
    pub open spec fn redone_last(self) -> HistoryView {
        if self.undone.len() == 0 {
            self
        } else {
            HistoryView {
                done: self.done.push(self.undone.last()),
                undone: self.undone.drop_last(),
            }
        }
    }
}

/// The committed annotations and those that can be redone.
#[derive(Debug)]
pub struct History {
    done: Vec<DrawCommand>,
    undone: Vec<DrawCommand>,
}

impl View for History {
    type V = HistoryView;

    closed spec fn view(&self) -> HistoryView {
        HistoryView {
            done: tools::command_views(self.done@),
            undone: tools::command_views(self.undone@),
        }
    }
}

impl History {
    #[verifier::type_invariant]
    spec fn inv(self) -> bool {
        self@.wf()
    }

    pub fn new() -> (r: History)
        ensures
            r@ == HistoryView::empty(),
    {
        let r = History { done: Vec::new(), undone: Vec::new() };
        assert(r@ =~= HistoryView::empty());
        r
    }

    /// The committed commands, oldest first.
    pub fn commands(&self) -> (r: &[DrawCommand])
        ensures
            tools::command_views(r@) == self@.done,
            keepable(self@.done),
            forall|i: int| 0 <= i < r@.len() ==> (#[trigger] r@[i]).measurable(),
    {
        proof {
            use_type_invariant(self);
            assert forall|i: int| 0 <= i < self.done@.len() implies (
            #[trigger] self.done@[i]).measurable() by {
                assert(self@.done[i] == self.done@[i]@);
            }
        }
        self.done.as_slice()
    }

    /// The number of commands that can be redone.
    pub fn redo_len(&self) -> (n: usize)
        ensures
            n == self@.undone.len(),
    {
        self.undone.len()
    }

    /// Adds a finished command, unless it is trivial. Adding one empties the
    /// list of commands to redo.
    pub fn commit(&mut self, c: DrawCommand) -> (kept: bool)
        requires
            c.measurable(),
        ensures
            kept == !c@.trivial(),
            final(self)@ == old(self)@.committed(c@),
    {
        proof {
            use_type_invariant(&*self);
        }
        if is_command_trivial(&c) {
            return false;
        }
        let ghost before = self@;
        let mut done: Vec<DrawCommand> = Vec::new();
        let mut undone: Vec<DrawCommand> = Vec::new();
        std::mem::swap(&mut done, &mut self.done);
        done.push(c);
        proof {
            assert(tools::command_views(done@) =~= before.done.push(c@));
            assert(tools::command_views(undone@) =~= seq![]);
        }
        *self = History { done, undone };
        true
    }

    /// Takes the last command back. Tells whether there was one.
    pub fn undo(&mut self) -> (changed: bool)
        ensures
            changed == (old(self)@.done.len() > 0),
            final(self)@ == old(self)@.undone_last(),
    {
        proof {
            use_type_invariant(&*self);
        }
        let ghost before = self@;
        let mut done: Vec<DrawCommand> = Vec::new();
        let mut undone: Vec<DrawCommand> = Vec::new();
        std::mem::swap(&mut done, &mut self.done);
        std::mem::swap(&mut undone, &mut self.undone);
        let ghost d = done@;
        let changed: bool = match done.pop() {
            Some(c) => {
                undone.push(c);
                true
            },
            None => false,
        };
        proof {
            if d.len() > 0 {
                assert(before.done.last() == d.last()@);
                assert(tools::command_views(done@) =~= before.done.drop_last());
                assert(tools::command_views(undone@) =~= before.undone.push(before.done.last()));
            } else {
                assert(done@ =~= d);
            }
        }
        *self = History { done, undone };
        changed
    }

    /// Puts the command last taken back in place again. Tells whether there was
    /// one.
    pub fn redo(&mut self) -> (changed: bool)
        ensures
            changed == (old(self)@.undone.len() > 0),
            final(self)@ == old(self)@.redone_last(),
    {
        proof {
            use_type_invariant(&*self);
        }
        let ghost before = self@;
        let mut done: Vec<DrawCommand> = Vec::new();
        let mut undone: Vec<DrawCommand> = Vec::new();
        std::mem::swap(&mut done, &mut self.done);
        std::mem::swap(&mut undone, &mut self.undone);
        let ghost u = undone@;
        let changed: bool = match undone.pop() {
            Some(c) => {
                done.push(c);
                true
            },
            None => false,
        };
        proof {
            if u.len() > 0 {
                assert(before.undone.last() == u.last()@);
                assert(tools::command_views(undone@) =~= before.undone.drop_last());
                assert(tools::command_views(done@) =~= before.done.push(before.undone.last()));
            } else {
                assert(undone@ =~= u);
            }
        }
        *self = History { done, undone };
        changed
    }

    /// Forgets everything.
    pub fn clear(&mut self)
        ensures
            final(self)@ == HistoryView::empty(),
    {
        *self = History::new();
    }
}

/// Redoing what was just undone changes nothing.
pub proof fn law_redo_reverts_undo(h: HistoryView)
    requires
        h.done.len() > 0,
    ensures
        h.undone_last().redone_last() == h,
{
    assert(h.undone_last().redone_last() =~= h);
}

/// Undoing what was just redone changes nothing.
pub proof fn law_undo_reverts_redo(h: HistoryView)
    requires
        h.undone.len() > 0,
    ensures
        h.redone_last().undone_last() == h,
{
    assert(h.redone_last().undone_last() =~= h);
}

/// Undoing a command that was just added gives the earlier commands back, and
/// leaves just that command to redo.
pub proof fn law_undo_reverts_commit(h: HistoryView, c: CommandView)
    requires
        !c.trivial(),
    ensures
        h.committed(c).undone_last().done == h.done,
        h.committed(c).undone_last().undone == seq![c],
{
    assert(h.committed(c).undone_last().done =~= h.done);
    assert(h.committed(c).undone_last().undone =~= seq![c]);
}

/// After a command was added there is nothing to redo.
pub proof fn law_commit_forgets_undone(h: HistoryView, c: CommandView)
    requires
        !c.trivial(),
    ensures
        h.committed(c).redone_last() == h.committed(c),
{
}

/// Undo and redo lose nothing: the commands in order, followed by the undone
/// ones from the last undone to the first, stay the same.
pub proof fn law_undo_and_redo_lose_nothing(h: HistoryView)
    ensures
        h.undone_last().done + h.undone_last().undone.reverse() == h.done + h.undone.reverse(),
        h.redone_last().done + h.redone_last().undone.reverse() == h.done + h.undone.reverse(),
{
    assert(h.undone_last().done + h.undone_last().undone.reverse() =~= h.done
        + h.undone.reverse());
    assert(h.redone_last().done + h.redone_last().undone.reverse() =~= h.done
        + h.undone.reverse());
}

/// Whatever is done, only commands that are worth keeping and can be drawn are
/// held.
pub proof fn law_history_stays_keepable(h: HistoryView, c: CommandView)
    requires
        h.wf(),
        c.measurable(),
    ensures
        h.committed(c).wf(),
        h.undone_last().wf(),
        h.redone_last().wf(),
        HistoryView::empty().wf(),
{
}

/// A new command comes after all others, which stay as they are.
pub proof fn law_commit_appends(h: HistoryView, c: CommandView)
    ensures
        !c.trivial() ==> {
            &&& h.committed(c).done.len() == h.done.len() + 1
            &&& h.committed(c).done[h.done.len() as int] == c
            &&& forall|i: int|
                0 <= i < h.done.len() ==> #[trigger] h.committed(c).done[i] == h.done[i]
            &&& h.committed(c).undone.len() == 0
        },
        c.trivial() ==> h.committed(c) == h,
{
}

/// Undo takes the newest command and no other, and redo puts back the one that
/// was taken last and no other.
pub proof fn law_undo_takes_the_newest(h: HistoryView)
    ensures
        h.done.len() > 0 ==> {
            let u = h.undone_last();
            &&& u.done.len() == h.done.len() - 1
            &&& forall|i: int| 0 <= i < u.done.len() ==> #[trigger] u.done[i] == h.done[i]
            &&& u.undone.len() == h.undone.len() + 1
            &&& u.undone[h.undone.len() as int] == h.done[h.done.len() - 1]
            &&& forall|i: int| 0 <= i < h.undone.len() ==> #[trigger] u.undone[i] == h.undone[i]
        },
        h.undone.len() > 0 ==> {
            let r = h.redone_last();
            &&& r.done.len() == h.done.len() + 1
            &&& r.done[h.done.len() as int] == h.undone[h.undone.len() - 1]
            &&& forall|i: int| 0 <= i < h.done.len() ==> #[trigger] r.done[i] == h.done[i]
            &&& r.undone.len() == h.undone.len() - 1
            &&& forall|i: int| 0 <= i < r.undone.len() ==> #[trigger] r.undone[i] == h.undone[i]
        },
        h.done.len() == 0 ==> h.undone_last() == h,
        h.undone.len() == 0 ==> h.redone_last() == h,
{
}

} // verus!
