//! The undo history: a list of steps, each holding the document before and
//! after one operation, and a cursor between the applied steps and the ones
//! that can be redone.

use vstd::prelude::*;

verus! {

/// One recorded operation.
pub struct UndoStep<D, P> {
    pub before: D,
    pub after: D,
    pub label: String,
    pub op_id: String,
    /// The properties it ran with, for adjusting it afterwards.
    pub props: Option<P>,
}

/// Steps `0..cursor` are applied; `cursor..` can be redone.
///
/// Every step carries a serial number, larger than those of the steps
/// before it, so that a position in the history can be told apart from
/// every other one the history has been in (until the numbers run out,
/// after `u64::MAX` steps, when they stay at the largest).
pub struct History<D, P> {
    steps: Vec<UndoStep<D, P>>,
    serials: Vec<u64>,
    cursor: usize,
    pushed: u64,
}

/// `h1` is `h0` with `step` recorded after the applied steps; what could
/// have been redone is gone.
pub open spec fn pushed_step<D, P>(h0: History<D, P>, h1: History<D, P>, step: UndoStep<D, P>) -> bool {
    &&& h1.wf()
    &&& h1.steps() == h0.steps().take(h0.cursor_spec() as int).push(step)
    &&& h1.cursor_spec() == h0.cursor_spec() + 1
    &&& h1.serials() == h0.serials().take(h0.cursor_spec() as int).push(h1.pushed())
    &&& h1.pushed() == (if h0.pushed() < u64::MAX { h0.pushed() + 1 } else { u64::MAX as int })
    &&& h0.pushed() < u64::MAX ==> h1.revision_spec() == h1.pushed()
    &&& h0.pushed() < u64::MAX ==> h1.revision_spec() > h0.revision_spec()
}

/// `h1` is `h0` after an undo that handed back `r`.
pub open spec fn undone<D: Clone, P>(h0: History<D, P>, h1: History<D, P>, r: Option<D>) -> bool {
    &&& h1.wf()
    &&& h1.steps() == h0.steps()
    &&& h1.pushed() == h0.pushed()
    &&& h1.serials() == h0.serials()
    &&& match r {
        Some(d) => h0.cursor_spec() > 0 && h1.cursor_spec() == h0.cursor_spec() - 1
            && cloned(h0.steps()[h1.cursor_spec() as int].before, d),
        None => h0.cursor_spec() == 0 && h1.cursor_spec() == 0,
    }
}

/// `h1` is `h0` after a redo that handed back `r`.
pub open spec fn redone<D: Clone, P>(h0: History<D, P>, h1: History<D, P>, r: Option<D>) -> bool {
    &&& h1.wf()
    &&& h1.steps() == h0.steps()
    &&& h1.pushed() == h0.pushed()
    &&& h1.serials() == h0.serials()
    &&& match r {
        Some(d) => h0.cursor_spec() < h0.steps().len() && h1.cursor_spec() == h0.cursor_spec() + 1
            && cloned(h0.steps()[h0.cursor_spec() as int].after, d),
        None => h0.cursor_spec() == h0.steps().len() && h1.cursor_spec() == h0.cursor_spec(),
    }
}

/// Undo after recording a step gives back (a clone of) the document from
/// before that step, and returns the history to where it stood, with the
/// step now ready to be redone.
pub proof fn law_undo_after_push<D: Clone, P>(
    h0: History<D, P>,
    h1: History<D, P>,
    step: UndoStep<D, P>,
    h2: History<D, P>,
    r: Option<D>,
)
    requires
        h0.wf(),
        pushed_step(h0, h1, step),
        undone(h1, h2, r),
    ensures
        r matches Some(d) && cloned(step.before, d),
        h2.cursor_spec() == h0.cursor_spec(),
        h2.cursor_spec() < h2.steps().len() && h2.steps()[h2.cursor_spec() as int] == step,
        h2.steps().take(h0.cursor_spec() as int) == h0.steps().take(h0.cursor_spec() as int),
{
    assert(h2.steps().take(h0.cursor_spec() as int) =~= h0.steps().take(h0.cursor_spec() as int));
}

/// Redo right after an undo puts the history back where it was, handing
/// back (a clone of) the document the undone step ended in; the revision
/// is the one from before the undo.
pub proof fn law_redo_after_undo<D: Clone, P>(h0: History<D, P>, h1: History<D, P>, d: D, h2: History<D, P>, r: Option<D>)
    requires
        h0.wf(),
        undone(h0, h1, Some(d)),
        redone(h1, h2, r),
    ensures
        r matches Some(d2) && cloned(h0.steps()[h0.cursor_spec() - 1].after, d2),
        h2.steps() == h0.steps(),
        h2.cursor_spec() == h0.cursor_spec(),
        h2.revision_spec() == h0.revision_spec(),
{
}

/// Undo right after a redo puts the history back where it was, handing
/// back (a clone of) the document the redone step started from.
pub proof fn law_undo_after_redo<D: Clone, P>(h0: History<D, P>, h1: History<D, P>, d: D, h2: History<D, P>, r: Option<D>)
    requires
        h0.wf(),
        redone(h0, h1, Some(d)),
        undone(h1, h2, r),
    ensures
        r matches Some(d2) && cloned(h0.steps()[h0.cursor_spec() as int].before, d2),
        h2.steps() == h0.steps(),
        h2.cursor_spec() == h0.cursor_spec(),
        h2.revision_spec() == h0.revision_spec(),
{
}

/// Recording a step moves the history to a revision it has never been at
/// before (every revision it was at is at most the number of steps ever
/// recorded), as long as the serial numbers have not run out.
pub proof fn law_push_new_revision<D, P>(h0: History<D, P>, h1: History<D, P>, step: UndoStep<D, P>, earlier: u64)
    requires
        h0.wf(),
        pushed_step(h0, h1, step),
        earlier <= h0.pushed(),
        h0.pushed() < u64::MAX,
    ensures
        h1.revision_spec() != earlier,
{
}

impl<D, P> History<D, P> {
    /// The recorded steps, oldest first.
    pub closed spec fn steps(&self) -> Seq<UndoStep<D, P>> {
        self.steps@
    }

    /// How many steps are applied.
    pub closed spec fn cursor_spec(&self) -> nat {
        self.cursor as nat
    }

    /// The serial numbers of the steps.
    pub closed spec fn serials(&self) -> Seq<u64> {
        self.serials@
    }

    /// How many steps were ever pushed (the last serial handed out).
    pub closed spec fn pushed(&self) -> u64 {
        self.pushed
    }

    /// Identifies the current position: the serial of the last applied
    /// step, 0 before the first.
    pub open spec fn revision_spec(&self) -> u64 {
        if self.cursor_spec() == 0 {
            0
        } else {
            self.serials()[self.cursor_spec() - 1]
        }
    }

    pub open spec fn wf(&self) -> bool {
        &&& self.cursor_spec() <= self.steps().len()
        &&& self.serials().len() == self.steps().len()
        &&& forall|i: int, j: int| 0 <= i < j < self.serials().len() ==> self.serials()[i] < self.serials()[j] || self.serials()[j] == u64::MAX
        &&& forall|i: int| 0 <= i < self.serials().len() ==> 1 <= #[trigger] self.serials()[i] <= self.pushed()
    }

    pub fn new() -> (h: Self)
        ensures
            h.wf(),
            h.steps().len() == 0,
            h.cursor_spec() == 0,
            h.pushed() == 0,
    {
        History { steps: Vec::new(), serials: Vec::new(), cursor: 0, pushed: 0 }
    }

    /// Record a step after the applied ones, dropping whatever could have
    /// been redone.
    pub fn push(&mut self, step: UndoStep<D, P>)
        requires
            old(self).wf(),
        ensures
            pushed_step(*old(self), *final(self), step),
    {
        self.steps.truncate(self.cursor);
        self.serials.truncate(self.cursor);
        if self.pushed < u64::MAX {
            self.pushed = self.pushed + 1;
        }
        self.steps.push(step);
        self.serials.push(self.pushed);
        self.cursor = self.steps.len();
        proof {
            assert(self.serials@.take(self.cursor - 1) =~= old(self).serials@.take(old(self).cursor as int));
            assert(self.serials@ =~= old(self).serials@.take(old(self).cursor as int).push(self.pushed));
        }
    }

    /// Forget every step.
    pub fn clear(&mut self)
        requires
            old(self).wf(),
        ensures
            final(self).wf(),
            final(self).steps().len() == 0,
            final(self).cursor_spec() == 0,
            final(self).pushed() == old(self).pushed(),
    {
        self.steps.clear();
        self.serials.clear();
        self.cursor = 0;
    }

    /// Number of recorded steps, applied or not.
    pub fn len(&self) -> (r: usize)
        ensures
            r == self.steps().len(),
    {
        self.steps.len()
    }

    pub fn is_empty(&self) -> (r: bool)
        ensures
            r == (self.steps().len() == 0),
    {
        self.steps.len() == 0
    }

    /// Number of applied steps.
    pub fn cursor(&self) -> (r: usize)
        ensures
            r == self.cursor_spec(),
    {
        self.cursor
    }

    pub fn can_undo(&self) -> (r: bool)
        ensures
            r == (self.cursor_spec() > 0),
    {
        self.cursor > 0
    }

    pub fn can_redo(&self) -> (r: bool)
        requires
            self.wf(),
        ensures
            r == (self.cursor_spec() < self.steps().len()),
    {
        self.cursor < self.steps.len()
    }

    /// The current position, for telling whether the document changed
    /// since it was saved.
    pub fn revision(&self) -> (r: u64)
        requires
            self.wf(),
        ensures
            r == self.revision_spec(),
    {
        if self.cursor == 0 {
            0
        } else {
            self.serials[self.cursor - 1]
        }
    }

    /// The last applied step.
    pub fn last(&self) -> (r: Option<&UndoStep<D, P>>)
        requires
            self.wf(),
        ensures
            match r {
                Some(s) => self.cursor_spec() > 0 && *s == self.steps()[self.cursor_spec() - 1],
                None => self.cursor_spec() == 0,
            },
    {
        if self.cursor == 0 {
            None
        } else {
            Some(&self.steps[self.cursor - 1])
        }
    }

    /// The labels of all steps, oldest first, and the cursor.
    pub fn labels(&self) -> (r: (Vec<&str>, usize))
        requires
            self.wf(),
        ensures
            r.0@.len() == self.steps().len(),
            forall|i: int| 0 <= i < r.0@.len() ==> (#[trigger] r.0@[i])@ == self.steps()[i].label@,
            r.1 == self.cursor_spec(),
    {
        let mut out: Vec<&str> = Vec::new();
        let mut i: usize = 0;
        while i < self.steps.len()
            invariant
                i <= self.steps@.len(),
                out@.len() == i,
                forall|k: int| 0 <= k < i ==> (#[trigger] out@[k])@ == self.steps@[k].label@,
            decreases self.steps@.len() - i,
        {
            out.push(self.steps[i].label.as_str());
            i = i + 1;
        }
        (out, self.cursor)
    }
}

impl<D, P> History<D, P> {
    /// Replace what the last applied step ends in, and the properties it
    /// ran with. Nothing happens when no step is applied.
    pub fn set_last(&mut self, after: D, props: Option<P>)
        requires
            old(self).wf(),
        ensures
            final(self).wf(),
            final(self).cursor_spec() == old(self).cursor_spec(),
            final(self).serials() == old(self).serials(),
            final(self).pushed() == old(self).pushed(),
            old(self).cursor_spec() == 0 ==> final(self).steps() == old(self).steps(),
            old(self).cursor_spec() > 0 ==> final(self).steps() == old(self).steps().update(
                old(self).cursor_spec() - 1,
                UndoStep { after, props, ..old(self).steps()[old(self).cursor_spec() - 1] },
            ),
    {
        if self.cursor == 0 {
            return;
        }
        let i = self.cursor - 1;
        let mut s = self.steps.remove(i);
        s.after = after;
        s.props = props;
        self.steps.insert(i, s);
        proof {
            assert(self.steps@ =~= old(self).steps@.update(i as int, s));
        }
    }

    /// The properties of the last applied step, to edit in place.
    pub fn last_props_mut(&mut self) -> (r: Option<&mut P>)
        requires
            old(self).wf(),
        ensures
            final(self).wf(),
            final(self).cursor_spec() == old(self).cursor_spec(),
            final(self).serials() == old(self).serials(),
            final(self).pushed() == old(self).pushed(),
            match r {
                Some(p) => {
                    let i = old(self).cursor_spec() - 1;
                    &&& old(self).cursor_spec() > 0
                    &&& old(self).steps()[i].props == Some(*p)
                    &&& final(self).steps() == old(self).steps().update(i, UndoStep { props: Some(*final(p)), ..old(self).steps()[i] })
                },
                None => {
                    &&& old(self).cursor_spec() == 0 || old(self).steps()[old(self).cursor_spec() - 1].props is None
                    &&& final(self).steps() == old(self).steps()
                },
            },
    {
        if self.cursor == 0 {
            return None;
        }
        let i = self.cursor - 1;
        let step = &mut self.steps[i];
        step.props.as_mut()
    }
}

impl<D: Clone, P> History<D, P> {
    /// Step back over the last applied step, handing back (a clone of) the
    /// document from before it.
    pub fn undo(&mut self) -> (r: Option<D>)
        requires
            old(self).wf(),
        ensures
            undone(*old(self), *final(self), r),
    {
        if self.cursor == 0 {
            return None;
        }
        self.cursor = self.cursor - 1;
        Some(self.steps[self.cursor].before.clone())
    }

    /// Re-apply the first undone step, handing back (a clone of) the
    /// document from after it.
    pub fn redo(&mut self) -> (r: Option<D>)
        requires
            old(self).wf(),
        ensures
            redone(*old(self), *final(self), r),
    {
        if self.cursor >= self.steps.len() {
            return None;
        }
        let d = self.steps[self.cursor].after.clone();
        self.cursor = self.cursor + 1;
        Some(d)
    }
}

} // verus!
