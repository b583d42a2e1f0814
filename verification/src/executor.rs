//! Runs operators transactionally: snapshot, execute, record undo, or roll
//! back on error. Also drives modal operators and adjust-last-operation.
//!
//! What an operator does to the document is the host's code. The executor
//! owns everything around it, as a sequence of steps the host drives: a
//! `begin_*` call checks that the operator may run and snapshots the
//! document, the host runs the operator, and the matching `finish_*` call
//! records, routes requests, or rolls back according to what came back.

use vstd::prelude::*;
use vstd::string::*;

use crate::context::{Ctx, Flow, Outcome, UiRequest};
use crate::history::{History, UndoStep};
use crate::operator::{error_text, OpError, OpFlags, OpResult};
use crate::builtin::{builtin_ops, register_all};
use crate::registry::{add_ops, OpInfo, Registry};

verus! {

/// A modal operator between `invoke` and its last `modal` event.
pub struct RunningModal<D, P, S> {
    pub op: &'static str,
    pub props: P,
    pub state: S,
    /// The document from before `invoke`, restored on cancel.
    pub before: D,
}

/// An operator that passed its checks, with the document it started from.
pub struct Pending<D> {
    pub info: OpInfo,
    pub before: D,
}

/// The last step, ready to be run again from its snapshot.
pub struct Adjusting<D, P> {
    pub info: OpInfo,
    pub props: P,
    /// The document before the re-run started, restored on error.
    pub previous_after: D,
}

pub struct Executor<D, P, S> {
    pub registry: Registry,
    pub history: History<D, P>,
    /// The modal operator in progress, if any.
    pub running: Option<RunningModal<D, P, S>>,
    /// Requests operators made during the last call, for the UI to act on.
    pub requests: Vec<UiRequest>,
    pub last_report: Option<String>,
    /// The history's revision when the document was last saved.
    pub saved_revision: u64,
}

/// The history and request queue as requests are routed one by one.
pub struct Routed<D, P> {
    pub steps: Seq<UndoStep<D, P>>,
    pub serials: Seq<u64>,
    pub cursor: nat,
    /// Requests passed on to the UI, in order.
    pub forwarded: Seq<UiRequest>,
    /// The document was replaced by a clone of this one.
    pub doc: Option<D>,
}

/// Route one request: undo and redo act on the history (when `on_doc`),
/// clearing the history forgets it, anything else goes to the UI.
pub open spec fn route_one<D, P>(s: Routed<D, P>, r: UiRequest, on_doc: bool) -> Routed<D, P> {
    match r {
        UiRequest::Undo if on_doc => if s.cursor > 0 {
            Routed { cursor: (s.cursor - 1) as nat, doc: Some(s.steps[s.cursor - 1].before), ..s }
        } else {
            s
        },
        UiRequest::Redo if on_doc => if s.cursor < s.steps.len() {
            Routed { cursor: s.cursor + 1, doc: Some(s.steps[s.cursor as int].after), ..s }
        } else {
            s
        },
        UiRequest::HistoryClear => Routed { steps: Seq::empty(), serials: Seq::empty(), cursor: 0, ..s },
        _ => Routed { forwarded: s.forwarded.push(r), ..s },
    }
}

/// Route `reqs` in order.
pub open spec fn route<D, P>(s: Routed<D, P>, reqs: Seq<UiRequest>, on_doc: bool) -> Routed<D, P>
    decreases reqs.len(),
{
    if reqs.len() == 0 {
        s
    } else {
        route_one(route(s, reqs.drop_last(), on_doc), reqs.last(), on_doc)
    }
}

/// The status line an error leaves: the operator's label, a colon, the
/// error's text.
pub open spec fn failure_report(label: &str, e: OpError) -> Seq<char> {
    label@ + ": "@ + error_text(e)
}

/// `step` records `info` run with `props`, from `before` to (a clone of)
/// `doc`.
pub open spec fn step_of<D: Clone, P>(step: UndoStep<D, P>, info: OpInfo, props: P, before: D, doc: D) -> bool {
    &&& step.before == before
    &&& cloned(doc, step.after)
    &&& step.label@ == info.label@
    &&& step.op_id@ == info.id@
    &&& step.props == Some(props)
}

/// `s` with `step` recorded after its applied steps, under `serial`.
pub open spec fn with_step<D, P>(s: Routed<D, P>, step: UndoStep<D, P>, serial: u64) -> Routed<D, P> {
    Routed {
        steps: s.steps.take(s.cursor as int).push(step),
        serials: s.serials.take(s.cursor as int).push(serial),
        cursor: s.cursor + 1,
        ..s
    }
}

/// The executor `e` and document `d` are where routing ended (`end`),
/// `d0` being the document routing started from.
pub open spec fn settled<D: Clone, P, S>(e: Executor<D, P, S>, d0: D, d: D, end: Routed<D, P>) -> bool {
    &&& e.history.steps() == end.steps
    &&& e.history.serials() == end.serials
    &&& e.history.cursor_spec() == end.cursor
    &&& e.requests@ == end.forwarded
    &&& match end.doc {
        Some(x) => cloned(x, d),
        None => d == d0,
    }
}

/// The serial number the history hands out next.
pub open spec fn next_serial(n: u64) -> u64 {
    if n < u64::MAX { (n + 1) as u64 } else { n }
}

/// The undo flag.
pub open spec fn undoable(info: OpInfo) -> bool {
    info.flags.has(OpFlags(2))
}

/// What `begin` answers for `id` on executor `e` and document `doc`.
pub open spec fn begun<D: Clone, P, S, F: Fn(&str) -> bool>(e: Executor<D, P, S>, id: &str, doc: D, poll: F, r: OpResult<Pending<D>>) -> bool {
    &&& e.running is Some ==> (r matches Err(OpError::Busy))
    &&& e.running is None ==> match r {
        Ok(p) => p.info.id@ == id@ && e.registry.view().contains(p.info) && call_ensures(poll, (id,), true)
            && cloned(doc, p.before),
        Err(OpError::Unknown(s)) => s@ == id@ && forall|i: int| 0 <= i < e.registry.view().len() ==> e.registry.view()[i].id@ != id@,
        Err(OpError::Poll(s)) => s@ == id@ && call_ensures(poll, (id,), false)
            && exists|i: int| 0 <= i < e.registry.view().len() && e.registry.view()[i].id@ == id@,
        Err(_) => false,
    }
}

/// What `begin_modal` does: `e0` before, `e1` after, `r` handed back.
pub open spec fn modal_taken<D, P, S>(e0: Executor<D, P, S>, e1: Executor<D, P, S>, r: Option<(RunningModal<D, P, S>, OpInfo)>) -> bool {
    &&& e1.wf()
    &&& e1.running is None
    &&& e1.registry == e0.registry
    &&& e1.history == e0.history
    &&& e1.requests == e0.requests
    &&& e1.last_report == e0.last_report
    &&& e1.saved_revision == e0.saved_revision
    &&& match r {
        Some((m, info)) => e0.running == Some(m) && info.id@ == m.op@ && e0.registry.view().contains(info),
        None => e0.running matches Some(m) ==> forall|i: int|
            0 <= i < e0.registry.view().len() ==> e0.registry.view()[i].id@ != m.op@,
    }
}

/// What `finish_run` does: `e0`, `c0`, `d0` before, `e1`, `c1`, `d1` after.
pub open spec fn run_post<D: Clone, P, S>(e0: Executor<D, P, S>, e1: Executor<D, P, S>, p: Pending<D>, props: P, result: OpResult<Outcome>, c0: Ctx, c1: Ctx, d0: D, d1: D, r: OpResult<Outcome>) -> bool {
    &&& e1.wf()
    &&& r == result
    &&& e1.registry == e0.registry
    &&& e1.running == e0.running
    &&& e1.saved_revision == e0.saved_revision
    &&& c1.requests@.len() == 0
    &&& match result {
            Ok(o) => {
                &&& e1.last_report == (if c0.report is Some { c0.report } else { e0.last_report })
                &&& c1.report is None
                &&& if o == Outcome::Finished && undoable(p.info) {
                    &&& e1.history.pushed() == next_serial(e0.history.pushed())
                    &&& exists|step: UndoStep<D, P>| step_of(step, p.info, props, p.before, d0) && settled(
                        e1,
                        d0,
                        d1,
                        route(with_step(e0.routed(), step, e1.history.pushed()), c0.requests@, true),
                    )
                } else {
                    &&& settled(e1, d0, d1, route(e0.routed(), c0.requests@, true))
                    &&& e1.history.pushed() == e0.history.pushed()
                }
            },
            Err(e) => {
                &&& d1 == p.before
                &&& e1.history == e0.history
                &&& e1.requests == e0.requests
                &&& e1.last_report matches Some(m) && m@ == failure_report(p.info.label, e)
                &&& c1.report == c0.report
            }
    }
}

/// What `finish_invoke` does: `e0`, `c0`, `d0` before, `e1`, `c1`, `d1` after.
pub open spec fn invoke_post<D: Clone, P, S>(e0: Executor<D, P, S>, e1: Executor<D, P, S>, p: Pending<D>, props: P, state: S, result: OpResult<Flow>, c0: Ctx, c1: Ctx, d0: D, d1: D, r: OpResult<Flow>) -> bool {
    &&& e1.wf()
    &&& r == result
    &&& e1.registry == e0.registry
    &&& e1.saved_revision == e0.saved_revision
    &&& c1.requests@.len() == 0
    &&& match result {
            Ok(Flow::Running) => {
                &&& e1.running == Some(RunningModal { op: p.info.id, props, state, before: p.before })
                &&& settled(e1, d0, d1, route(e0.routed(), c0.requests@, false))
                &&& e1.history.pushed() == e0.history.pushed()
                &&& e1.last_report == (if c0.report is Some { c0.report } else { e0.last_report })
                &&& c1.report is None
            },
            Ok(Flow::Finished) => {
                &&& e1.running == e0.running
                &&& e1.last_report == (if c0.report is Some { c0.report } else { e0.last_report })
                &&& c1.report is None
                &&& if undoable(p.info) {
                    &&& e1.history.pushed() == next_serial(e0.history.pushed())
                    &&& exists|step: UndoStep<D, P>| step_of(step, p.info, props, p.before, d0) && settled(
                        e1,
                        d0,
                        d1,
                        route(with_step(e0.routed(), step, e1.history.pushed()), c0.requests@, true),
                    )
                } else {
                    &&& settled(e1, d0, d1, route(e0.routed(), c0.requests@, true))
                    &&& e1.history.pushed() == e0.history.pushed()
                }
            },
            Ok(_) => {
                &&& e1.running == e0.running
                &&& settled(e1, p.before, d1, route(e0.routed(), c0.requests@, true))
                &&& e1.history.pushed() == e0.history.pushed()
                &&& e1.last_report == (if c0.report is Some { c0.report } else { e0.last_report })
                &&& c1.report is None
            },
            Err(e) => {
                &&& e1.running == e0.running
                &&& d1 == p.before
                &&& e1.history == e0.history
                &&& e1.requests == e0.requests
                &&& e1.last_report matches Some(m) && m@ == failure_report(p.info.label, e)
                &&& c1.report == c0.report
            }
    }
}

/// What `finish_modal` does: `e0`, `c0`, `d0` before, `e1`, `c1`, `d1` after.
pub open spec fn modal_post<D: Clone, P, S>(e0: Executor<D, P, S>, e1: Executor<D, P, S>, m: RunningModal<D, P, S>, info: OpInfo, result: OpResult<Flow>, c0: Ctx, c1: Ctx, d0: D, d1: D, r: OpResult<Flow>) -> bool {
    &&& e1.wf()
    &&& r == result
    &&& e1.registry == e0.registry
    &&& e1.saved_revision == e0.saved_revision
    &&& c1.requests@.len() == 0
    &&& match result {
            Ok(Flow::Running) | Ok(Flow::PassThrough) => {
                &&& e1.running == Some(m)
                &&& settled(e1, d0, d1, route(e0.routed(), c0.requests@, false))
                &&& e1.history.pushed() == e0.history.pushed()
                &&& e1.last_report == (if c0.report is Some { c0.report } else { e0.last_report })
                &&& c1.report is None
            },
            Ok(Flow::Finished) => {
                &&& e1.running == e0.running
                &&& e1.last_report == (if c0.report is Some { c0.report } else { e0.last_report })
                &&& c1.report is None
                &&& if undoable(info) {
                    &&& e1.history.pushed() == next_serial(e0.history.pushed())
                    &&& exists|step: UndoStep<D, P>| step_of(step, info, m.props, m.before, d0) && settled(
                        e1,
                        d0,
                        d1,
                        route(with_step(e0.routed(), step, e1.history.pushed()), c0.requests@, true),
                    )
                } else {
                    &&& settled(e1, d0, d1, route(e0.routed(), c0.requests@, true))
                    &&& e1.history.pushed() == e0.history.pushed()
                }
            },
            Ok(Flow::Cancelled) => {
                &&& e1.running == e0.running
                &&& d1 == m.before
                &&& e1.history == e0.history
                &&& e1.requests == e0.requests
                &&& e1.last_report == e0.last_report
                &&& c1.report == c0.report
            },
            Err(e) => {
                &&& e1.running == e0.running
                &&& d1 == m.before
                &&& e1.history == e0.history
                &&& e1.requests == e0.requests
                &&& e1.last_report matches Some(t) && t@ == failure_report(info.label, e)
                &&& c1.report == c0.report
            }
    }
}

/// What `finish_adjust` does: `e0`, `c0`, `d0` before, `e1`, `c1`, `d1` after.
pub open spec fn adjust_post<D: Clone, P, S>(e0: Executor<D, P, S>, e1: Executor<D, P, S>, a: Adjusting<D, P>, result: OpResult<Outcome>, c0: Ctx, c1: Ctx, d0: D, d1: D, r: OpResult<()>) -> bool {
    &&& e1.wf()
    &&& e1.registry == e0.registry
    &&& e1.running == e0.running
    &&& e1.saved_revision == e0.saved_revision
    &&& e1.history.pushed() == e0.history.pushed()
    &&& c1.requests@.len() == 0
    &&& match result {
            Ok(_) => {
                &&& r is Ok
                &&& exists|after: D| cloned(d0, after) && settled(e1, d0, d1, route(
                    Routed {
                        steps: if e0.history.cursor_spec() > 0 {
                            e0.history.steps().update(
                                e0.history.cursor_spec() - 1,
                                UndoStep { after, props: Some(a.props), ..e0.history.steps()[e0.history.cursor_spec() - 1] },
                            )
                        } else {
                            e0.history.steps()
                        },
                        ..e0.routed()
                    },
                    c0.requests@,
                    false,
                ))
                &&& e1.last_report == (if c0.report is Some { c0.report } else { e0.last_report })
                &&& c1.report is None
            },
            Err(e) => {
                &&& r == Err::<(), OpError>(e)
                &&& d1 == a.previous_after
                &&& e1.history == e0.history
                &&& e1.requests == e0.requests
                &&& e1.last_report == e0.last_report
                &&& c1.report == c0.report
            },
    }
}

impl<D, P, S> Executor<D, P, S> {
    pub open spec fn wf(&self) -> bool {
        &&& self.history.wf()
        &&& self.saved_revision <= self.history.pushed()
    }

    /// The routing state this executor starts from.
    pub open spec fn routed(&self) -> Routed<D, P> {
        Routed {
            steps: self.history.steps(),
            serials: self.history.serials(),
            cursor: self.history.cursor_spec(),
            forwarded: self.requests@,
            doc: None,
        }
    }

    pub fn new(registry: Registry) -> (r: Self)
        ensures
            r.wf(),
            r.registry == registry,
            r.history.steps().len() == 0,
            r.history.cursor_spec() == 0,
            r.running is None,
            r.requests@.len() == 0,
            r.last_report is None,
            r.saved_revision == 0,
    {
        Executor { registry, history: History::new(), running: None, requests: Vec::new(), last_report: None, saved_revision: 0 }
    }

    /// Every built-in operator registered.
    pub fn with_builtins() -> (r: Self)
        ensures
            r.wf(),
            r.registry.view() == add_ops(Seq::empty(), builtin_ops()),
            r.history.steps().len() == 0,
            r.history.cursor_spec() == 0,
            r.running is None,
            r.requests@.len() == 0,
            r.last_report is None,
            r.saved_revision == 0,
    {
        let mut reg = Registry::new();
        proof {
            assert(reg.view() =~= Seq::<OpInfo>::empty());
        }
        register_all(&mut reg);
        Self::new(reg)
    }

    /// The document on disk matches the current history position.
    pub fn mark_saved(&mut self)
        requires
            old(self).wf(),
        ensures
            final(self).saved_revision == old(self).history.revision_spec(),
            final(self).history == old(self).history,
            final(self).registry == old(self).registry,
            final(self).running == old(self).running,
            final(self).requests == old(self).requests,
            final(self).last_report == old(self).last_report,
    {
        self.saved_revision = self.history.revision();
    }

    /// The history moved since the last `mark_saved`.
    pub fn is_dirty(&self) -> (r: bool)
        requires
            self.wf(),
        ensures
            r == (self.history.revision_spec() != self.saved_revision),
    {
        self.history.revision() != self.saved_revision
    }

    pub fn is_modal(&self) -> (r: bool)
        ensures
            r == (self.running is Some),
    {
        self.running.is_some()
    }

    pub fn running(&self) -> (r: Option<&RunningModal<D, P, S>>)
        ensures
            match r {
                Some(m) => self.running == Some(*m),
                None => self.running is None,
            },
    {
        match &self.running {
            Some(m) => Some(m),
            None => None,
        }
    }

    /// Check that `id` may run now: nothing modal is running, the operator
    /// exists, and it polls true (asked only when the other two hold).
    fn check<F: Fn(&str) -> bool>(&self, id: &str, poll: F) -> (r: OpResult<OpInfo>)
        requires
            self.wf(),
            forall|s: &str| call_requires(poll, (s,)),
        ensures
            self.running is Some ==> r == Err::<OpInfo, OpError>(OpError::Busy),
            self.running is None ==> match r {
                Ok(info) => info.id@ == id@ && self.registry.view().contains(info) && call_ensures(poll, (id,), true),
                Err(OpError::Unknown(s)) => s@ == id@ && forall|i: int| 0 <= i < self.registry.view().len() ==> self.registry.view()[i].id@ != id@,
                Err(OpError::Poll(s)) => s@ == id@ && call_ensures(poll, (id,), false)
                    && exists|i: int| 0 <= i < self.registry.view().len() && self.registry.view()[i].id@ == id@,
                Err(_) => false,
            },
    {
        if self.running.is_some() {
            return Err(OpError::Busy);
        }
        match self.registry.get(id) {
            None => Err(OpError::Unknown(id.to_owned())),
            Some(info) => {
                if poll(id) {
                    Ok(*info)
                } else {
                    Err(OpError::Poll(id.to_owned()))
                }
            },
        }
    }

    /// Pass the requests an operator made on: undo, redo and clearing the
    /// history act here (undo and redo only when `on_doc`), the rest go to
    /// the UI. The operator's report replaces the last one if it made one.
    fn take_requests(&mut self, ctx: &mut Ctx, doc: &mut D, on_doc: bool)
        where D: Clone,
        requires
            old(self).wf(),
        ensures
            final(self).wf(),
            settled(*final(self), *old(doc), *final(doc), route(old(self).routed(), old(ctx).requests@, on_doc)),
            final(self).history.pushed() == old(self).history.pushed(),
            final(self).registry == old(self).registry,
            final(self).running == old(self).running,
            final(self).saved_revision == old(self).saved_revision,
            final(self).last_report == (if old(ctx).report is Some { old(ctx).report } else { old(self).last_report }),
            final(ctx).requests@.len() == 0,
            final(ctx).report is None,
    {
        let report = ctx.report.take();
        if report.is_some() {
            self.last_report = report;
        }
        let mut reqs: Vec<UiRequest> = Vec::new();
        std::mem::swap(&mut reqs, &mut ctx.requests);
        let ghost all = reqs@;
        assert(all.len() == reqs.len());
        let ghost start = self.routed();
        let ghost mut src: Option<D> = None;
        let mut i: usize = 0;
        while reqs.len() > 0
            invariant
                self.wf(),
                i <= all.len(),
                reqs@ == all.skip(i as int),
                reqs@.len() == all.len() - i,
                all.len() <= usize::MAX,
                ({
                    let end = route(start, all.take(i as int), on_doc);
                    &&& self.history.steps() == end.steps
                    &&& self.history.serials() == end.serials
                    &&& self.history.cursor_spec() == end.cursor
                    &&& self.requests@ == end.forwarded
                    &&& src == end.doc
                    &&& match end.doc {
                        Some(x) => cloned(x, *doc),
                        None => *doc == *old(doc),
                    }
                }),
                self.history.pushed() == old(self).history.pushed(),
                self.registry == old(self).registry,
                self.running == old(self).running,
                self.saved_revision == old(self).saved_revision,
                self.last_report == (if old(ctx).report is Some { old(ctx).report } else { old(self).last_report }),
            decreases reqs@.len(),
        {
            let r = reqs.remove(0);
            proof {
                assert(all.take(i + 1).drop_last() =~= all.take(i as int));
                assert(all.take(i + 1).last() == r);
                assert(reqs@ =~= all.skip(i + 1));
            }
            match r {
                UiRequest::Undo if on_doc => {
                    let ghost c = self.history.cursor_spec();
                    let ghost steps = self.history.steps();
                    match self.history.undo() {
                        Some(d) => {
                            proof {
                                src = Some(steps[c - 1].before);
                            }
                            *doc = d;
                        },
                        None => {},
                    }
                },
                UiRequest::Redo if on_doc => {
                    let ghost c = self.history.cursor_spec();
                    let ghost steps = self.history.steps();
                    match self.history.redo() {
                        Some(d) => {
                            proof {
                                src = Some(steps[c as int].after);
                            }
                            *doc = d;
                        },
                        None => {},
                    }
                },
                UiRequest::HistoryClear => {
                    self.history.clear();
                    proof {
                        assert(self.history.serials() =~= Seq::<u64>::empty());
                        assert(self.history.steps() =~= Seq::<UndoStep<D, P>>::empty());
                    }
                },
                other => {
                    self.requests.push(other);
                },
            }
            i = i + 1;
        }
        proof {
            assert(all.take(i as int) =~= all);
        }
    }

    /// Record a finished step that turned `before` into the current `doc`.
    fn record(&mut self, before: D, doc: &D, info: OpInfo, props: P)
        where D: Clone,
        requires
            old(self).wf(),
        ensures
            final(self).wf(),
            step_of(final(self).history.steps().last(), info, props, before, *doc),
            final(self).routed() == with_step(old(self).routed(), final(self).history.steps().last(), final(self).history.pushed()),
            final(self).history.pushed() == (if old(self).history.pushed() < u64::MAX { old(self).history.pushed() + 1 } else { u64::MAX as int }),
            final(self).registry == old(self).registry,
            final(self).running == old(self).running,
            final(self).requests == old(self).requests,
            final(self).last_report == old(self).last_report,
            final(self).saved_revision == old(self).saved_revision,
    {
        let after = doc.clone();
        let step = UndoStep { before, after, label: info.label.to_owned(), op_id: info.id.to_owned(), props: Some(props) };
        self.history.push(step);
    }
}

impl<D: Clone, P, S> Executor<D, P, S> {
    /// Check that `id` may run now and snapshot the document it starts
    /// from. Busy while a modal operator runs; then the operator must exist
    /// and poll true.
    pub fn begin<F: Fn(&str) -> bool>(&self, id: &str, doc: &D, poll: F) -> (r: OpResult<Pending<D>>)
        requires
            self.wf(),
            forall|s: &str| call_requires(poll, (s,)),
        ensures
            begun(*self, id, *doc, poll, r),
    {
        match self.check(id, poll) {
            Ok(info) => Ok(Pending { info, before: doc.clone() }),
            Err(e) => Err(e),
        }
    }

    /// Finish a run that `exec` answered with `result`: a finished
    /// undoable operator records one step; requests are routed; an error
    /// restores the snapshot, drops the requests and reports.
    pub fn finish_run(&mut self, p: Pending<D>, props: P, result: OpResult<Outcome>, ctx: &mut Ctx, doc: &mut D) -> (r: OpResult<Outcome>)
        requires
            old(self).wf(),
        ensures
            run_post(*old(self), *final(self), p, props, result, *old(ctx), *final(ctx), *old(doc), *final(doc), r),
    {
        match result {
            Ok(o) => {
                if o == Outcome::Finished && p.info.flags.contains(OpFlags::undo()) {
                    self.record(p.before, doc, p.info, props);
                }
                self.take_requests(ctx, doc, true);
                Ok(o)
            },
            Err(e) => {
                *doc = p.before;
                ctx.requests.clear();
                self.fail_report(p.info.label, &e);
                Err(e)
            },
        }
    }

    /// Finish an `invoke` that answered `result`: a running operator
    /// becomes the modal one; a finished undoable one records a step;
    /// anything else restores the snapshot.
    pub fn finish_invoke(&mut self, p: Pending<D>, props: P, state: S, result: OpResult<Flow>, ctx: &mut Ctx, doc: &mut D) -> (r: OpResult<Flow>)
        requires
            old(self).wf(),
        ensures
            invoke_post(*old(self), *final(self), p, props, state, result, *old(ctx), *final(ctx), *old(doc), *final(doc), r),
    {
        match result {
            Ok(Flow::Running) => {
                self.running = Some(RunningModal { op: p.info.id, props, state, before: p.before });
                self.take_requests(ctx, doc, false);
                Ok(Flow::Running)
            },
            Ok(Flow::Finished) => {
                if p.info.flags.contains(OpFlags::undo()) {
                    self.record(p.before, doc, p.info, props);
                }
                self.take_requests(ctx, doc, true);
                Ok(Flow::Finished)
            },
            Ok(other) => {
                *doc = p.before;
                self.take_requests(ctx, doc, true);
                Ok(other)
            },
            Err(e) => {
                *doc = p.before;
                ctx.requests.clear();
                self.fail_report(p.info.label, &e);
                Err(e)
            },
        }
    }

    /// Take the running modal operator out to feed it an event, with what
    /// the registry knows of it. `None` when nothing runs, or when its
    /// operator is no longer registered (it is then dropped).
    pub fn begin_modal(&mut self) -> (r: Option<(RunningModal<D, P, S>, OpInfo)>)
        requires
            old(self).wf(),
        ensures
            modal_taken(*old(self), *final(self), r),
    {
        let m = match self.running.take() {
            Some(m) => m,
            None => return None,
        };
        match self.registry.get(m.op) {
            Some(info) => Some((m, *info)),
            None => None,
        }
    }

    /// Finish a `modal` call that answered `result`: still running (or
    /// passing the event on) keeps it modal; finished records one step for
    /// the whole run; cancelled or failed restores the document from
    /// before `invoke`.
    pub fn finish_modal(&mut self, m: RunningModal<D, P, S>, info: OpInfo, result: OpResult<Flow>, ctx: &mut Ctx, doc: &mut D) -> (r: OpResult<Flow>)
        requires
            old(self).wf(),
        ensures
            modal_post(*old(self), *final(self), m, info, result, *old(ctx), *final(ctx), *old(doc), *final(doc), r),
    {
        match result {
            Ok(Flow::Running) => {
                self.running = Some(m);
                self.take_requests(ctx, doc, false);
                Ok(Flow::Running)
            },
            Ok(Flow::PassThrough) => {
                self.running = Some(m);
                self.take_requests(ctx, doc, false);
                Ok(Flow::PassThrough)
            },
            Ok(Flow::Finished) => {
                if info.flags.contains(OpFlags::undo()) {
                    self.record(m.before, doc, info, m.props);
                }
                self.take_requests(ctx, doc, true);
                Ok(Flow::Finished)
            },
            Ok(Flow::Cancelled) => {
                *doc = m.before;
                ctx.requests.clear();
                Ok(Flow::Cancelled)
            },
            Err(e) => {
                *doc = m.before;
                ctx.requests.clear();
                self.fail_report(info.label, &e);
                Err(e)
            },
        }
    }

    /// Cancel the running modal operator, restoring the document from
    /// before it started.
    pub fn cancel_modal(&mut self, doc: &mut D) -> (r: bool)
        ensures
            r == (old(self).running is Some),
            final(self).running is None,
            final(self).registry == old(self).registry,
            final(self).history == old(self).history,
            final(self).requests == old(self).requests,
            final(self).last_report == old(self).last_report,
            final(self).saved_revision == old(self).saved_revision,
            match old(self).running {
                Some(m) => *final(doc) == m.before,
                None => *final(doc) == *old(doc),
            },
    {
        match self.running.take() {
            Some(m) => {
                *doc = m.before;
                true
            },
            None => false,
        }
    }

    /// Undo the last applied step into `doc`.
    pub fn undo(&mut self, doc: &mut D) -> (r: bool)
        requires
            old(self).wf(),
        ensures
            undo_post(*old(self), *final(self), *old(doc), *final(doc), r),
    {
        match self.history.undo() {
            Some(d) => {
                *doc = d;
                true
            },
            None => false,
        }
    }

    /// Redo the first undone step into `doc`.
    pub fn redo(&mut self, doc: &mut D) -> (r: bool)
        requires
            old(self).wf(),
        ensures
            redo_post(*old(self), *final(self), *old(doc), *final(doc), r),
    {
        match self.history.redo() {
            Some(d) => {
                *doc = d;
                true
            },
            None => false,
        }
    }
}

/// `Executor::undo` took `e0` with document `d0` to `e1` with `d1`,
/// answering `r`: with a step applied, the cursor moves back over it and
/// the document becomes (a clone of) the document from before it; with
/// none, nothing changes. Everything but the cursor is kept.
pub open spec fn undo_post<D: Clone, P, S>(e0: Executor<D, P, S>, e1: Executor<D, P, S>, d0: D, d1: D, r: bool) -> bool {
    &&& e1.wf()
    &&& r == (e0.history.cursor_spec() > 0)
    &&& e1.history.steps() == e0.history.steps()
    &&& e1.history.serials() == e0.history.serials()
    &&& e1.history.pushed() == e0.history.pushed()
    &&& r ==> e1.history.cursor_spec() == e0.history.cursor_spec() - 1
        && cloned(e0.history.steps()[e1.history.cursor_spec() as int].before, d1)
    &&& !r ==> e1.history.cursor_spec() == e0.history.cursor_spec() && d1 == d0
    &&& e1.registry == e0.registry
    &&& e1.running == e0.running
    &&& e1.requests == e0.requests
    &&& e1.last_report == e0.last_report
    &&& e1.saved_revision == e0.saved_revision
}

/// `Executor::redo` took `e0` with document `d0` to `e1` with `d1`,
/// answering `r`: with a step undone, the cursor moves forward over it and
/// the document becomes (a clone of) the document it ended in; with none,
/// nothing changes. Everything but the cursor is kept.
pub open spec fn redo_post<D: Clone, P, S>(e0: Executor<D, P, S>, e1: Executor<D, P, S>, d0: D, d1: D, r: bool) -> bool {
    &&& e1.wf()
    &&& r == (e0.history.cursor_spec() < e0.history.steps().len())
    &&& e1.history.steps() == e0.history.steps()
    &&& e1.history.serials() == e0.history.serials()
    &&& e1.history.pushed() == e0.history.pushed()
    &&& r ==> e1.history.cursor_spec() == e0.history.cursor_spec() + 1
        && cloned(e0.history.steps()[e0.history.cursor_spec() as int].after, d1)
    &&& !r ==> e1.history.cursor_spec() == e0.history.cursor_spec() && d1 == d0
    &&& e1.registry == e0.registry
    &&& e1.running == e0.running
    &&& e1.requests == e0.requests
    &&& e1.last_report == e0.last_report
    &&& e1.saved_revision == e0.saved_revision
}

impl<D, P, S> Executor<D, P, S> {
    /// The last applied step's operator id and its properties, to edit
    /// before `begin_adjust`. `None` when no step is applied, its operator
    /// is not registered, or it kept no properties.
    pub fn last_step_props(&mut self) -> (r: Option<(&'static str, &mut P)>)
        requires
            old(self).wf(),
        ensures
            final(self).wf(),
            final(self).registry == old(self).registry,
            final(self).running == old(self).running,
            final(self).requests == old(self).requests,
            final(self).last_report == old(self).last_report,
            final(self).saved_revision == old(self).saved_revision,
            final(self).history.cursor_spec() == old(self).history.cursor_spec(),
            final(self).history.serials() == old(self).history.serials(),
            final(self).history.pushed() == old(self).history.pushed(),
            match r {
                Some((id, p)) => {
                    let i = old(self).history.cursor_spec() - 1;
                    let step = old(self).history.steps()[i];
                    &&& old(self).history.cursor_spec() > 0
                    &&& id@ == step.op_id@
                    &&& exists|k: int| 0 <= k < old(self).registry.view().len() && old(self).registry.view()[k].id == id
                    &&& step.props == Some(*p)
                    &&& final(self).history.steps() == old(self).history.steps().update(i, UndoStep { props: Some(*final(p)), ..step })
                },
                None => {
                    &&& final(self).history.steps() == old(self).history.steps()
                    &&& old(self).history.cursor_spec() > 0 ==> {
                        let step = old(self).history.steps()[old(self).history.cursor_spec() - 1];
                        step.props is None || forall|k: int| 0 <= k < old(self).registry.view().len() ==> old(self).registry.view()[k].id@ != step.op_id@
                    }
                },
            },
    {
        let id = match self.history.last() {
            Some(step) => match self.registry.get(step.op_id.as_str()) {
                Some(info) => info.id,
                None => return None,
            },
            None => return None,
        };
        match self.history.last_props_mut() {
            Some(p) => Some((id, p)),
            None => None,
        }
    }

    fn fail_report(&mut self, label: &str, e: &OpError)
        ensures
            final(self).last_report matches Some(m) && m@ == failure_report(label, *e),
            final(self).registry == old(self).registry,
            final(self).history == old(self).history,
            final(self).running == old(self).running,
            final(self).requests == old(self).requests,
            final(self).saved_revision == old(self).saved_revision,
    {
        let mut m = String::from_str(label);
        m.append(": ");
        let t = e.message();
        m.append(t.as_str());
        self.last_report = Some(m);
    }
}

impl<D: Clone, P: Clone, S> Executor<D, P, S> {
    /// Get ready to re-run the last applied step with the properties now
    /// stored on it: the document goes back to the step's `before`.
    pub fn begin_adjust(&self, doc: &mut D) -> (r: OpResult<Adjusting<D, P>>)
        requires
            self.wf(),
        ensures
            self.history.cursor_spec() == 0 ==> (r matches Err(OpError::Failed(m)) && m@ == "nothing to adjust"@),
            self.history.cursor_spec() > 0 ==> {
                let step = self.history.steps()[self.history.cursor_spec() - 1];
                match step.props {
                    None => (r matches Err(OpError::Failed(m)) && m@ == "last step has no properties"@),
                    Some(props) => match r {
                        Ok(a) => {
                            &&& a.info.id@ == step.op_id@
                            &&& self.registry.view().contains(a.info)
                            &&& cloned(props, a.props)
                            &&& cloned(*old(doc), a.previous_after)
                            &&& cloned(step.before, *final(doc))
                        },
                        Err(OpError::Unknown(id)) => id@ == step.op_id@
                            && forall|i: int| 0 <= i < self.registry.view().len() ==> self.registry.view()[i].id@ != step.op_id@,
                        Err(_) => false,
                    },
                }
            },
            r is Err ==> *final(doc) == *old(doc),
    {
        let step = match self.history.last() {
            Some(s) => s,
            None => return Err(OpError::Failed(String::from_str("nothing to adjust"))),
        };
        let props = match &step.props {
            Some(p) => p.clone(),
            None => return Err(OpError::Failed(String::from_str("last step has no properties"))),
        };
        let info = match self.registry.get(step.op_id.as_str()) {
            Some(i) => *i,
            None => return Err(OpError::Unknown(step.op_id.clone())),
        };
        let previous_after = doc.clone();
        *doc = step.before.clone();
        Ok(Adjusting { info, props, previous_after })
    }

    /// Finish re-running the last step: on success the step now ends in
    /// the new document and keeps the new properties; on error the
    /// document from before the re-run comes back.
    pub fn finish_adjust(&mut self, a: Adjusting<D, P>, result: OpResult<Outcome>, ctx: &mut Ctx, doc: &mut D) -> (r: OpResult<()>)
        requires
            old(self).wf(),
        ensures
            adjust_post(*old(self), *final(self), a, result, *old(ctx), *final(ctx), *old(doc), *final(doc), r),

    {
        match result {
            Ok(_) => {
                let after = doc.clone();
                let ghost w = after;
                let ghost pr = a.props;
                self.history.set_last(after, Some(a.props));
                let ghost mid = self.routed();
                let ghost d1 = *doc;
                self.take_requests(ctx, doc, false);
                proof {
                    let c = old(self).history.cursor_spec();
                    let expect = Routed {
                        steps: if c > 0 {
                            old(self).history.steps().update(c - 1, UndoStep { after: w, props: Some(pr), ..old(self).history.steps()[c - 1] })
                        } else {
                            old(self).history.steps()
                        },
                        ..old(self).routed()
                    };
                    assert(mid == expect);
                    assert(cloned(*old(doc), w));
                }
                Ok(())
            },
            Err(e) => {
                *doc = a.previous_after;
                ctx.requests.clear();
                Err(e)
            },
        }
    }
}

impl<D: Clone, P, S> Executor<D, P, S> {
    /// Undo or redo until `target` steps are applied (or the history runs
    /// out).
    pub fn jump_to(&mut self, target: usize, doc: &mut D)
        requires
            old(self).wf(),
        ensures
            final(self).wf(),
            final(self).history.steps() == old(self).history.steps(),
            final(self).history.serials() == old(self).history.serials(),
            final(self).history.pushed() == old(self).history.pushed(),
            final(self).history.cursor_spec() == (if target < old(self).history.steps().len() { target as nat } else { old(self).history.steps().len() }),
            final(self).history.cursor_spec() < old(self).history.cursor_spec()
                ==> cloned(old(self).history.steps()[final(self).history.cursor_spec() as int].before, *final(doc)),
            final(self).history.cursor_spec() > old(self).history.cursor_spec()
                ==> cloned(old(self).history.steps()[final(self).history.cursor_spec() - 1].after, *final(doc)),
            final(self).history.cursor_spec() == old(self).history.cursor_spec() ==> *final(doc) == *old(doc),
            final(self).registry == old(self).registry,
            final(self).running == old(self).running,
            final(self).requests == old(self).requests,
            final(self).last_report == old(self).last_report,
            final(self).saved_revision == old(self).saved_revision,
    {
        let ghost steps = self.history.steps();
        let ghost c0 = self.history.cursor_spec();
        while self.history.cursor() > target
            invariant
                self.wf(),
                self.history.steps() == steps,
                self.history.serials() == old(self).history.serials(),
                self.history.pushed() == old(self).history.pushed(),
                steps == old(self).history.steps(),
                c0 == old(self).history.cursor_spec(),
                self.history.cursor_spec() <= c0,
                self.history.cursor_spec() >= target || self.history.cursor_spec() == c0,
                self.history.cursor_spec() < c0 ==> cloned(steps[self.history.cursor_spec() as int].before, *doc),
                self.history.cursor_spec() == c0 ==> *doc == *old(doc),
                self.registry == old(self).registry,
                self.running == old(self).running,
                self.requests == old(self).requests,
                self.last_report == old(self).last_report,
                self.saved_revision == old(self).saved_revision,
            decreases self.history.cursor_spec(),
        {
            self.undo(doc);
        }
        let ghost c1 = self.history.cursor_spec();
        while self.history.cursor() < target && self.history.cursor() < self.history.len()
            invariant
                self.wf(),
                self.history.steps() == steps,
                self.history.serials() == old(self).history.serials(),
                self.history.pushed() == old(self).history.pushed(),
                steps == old(self).history.steps(),
                c0 == old(self).history.cursor_spec(),
                c1 <= c0,
                c1 < c0 ==> c1 == target,
                c1 <= self.history.cursor_spec() <= steps.len(),
                c1 < c0 ==> self.history.cursor_spec() == c1,
                self.history.cursor_spec() <= target || self.history.cursor_spec() == c1,
                c1 == c0 && self.history.cursor_spec() > c0 ==> cloned(steps[self.history.cursor_spec() - 1].after, *doc),
                c1 < c0 ==> cloned(steps[c1 as int].before, *doc),
                self.history.cursor_spec() == c0 ==> *doc == *old(doc),
                self.registry == old(self).registry,
                self.running == old(self).running,
                self.requests == old(self).requests,
                self.last_report == old(self).last_report,
                self.saved_revision == old(self).saved_revision,
            decreases steps.len() - self.history.cursor_spec(),
        {
            self.redo(doc);
        }
    }
}

/// A run whose operator fails leaves the document exactly as `begin`
/// snapshotted it, and the history and the queued requests untouched; the
/// failure is reported.
pub proof fn law_failed_run_rolls_back<D: Clone, P, S, F: Fn(&str) -> bool>(
    e0: Executor<D, P, S>,
    id: &str,
    start: D,
    poll: F,
    p: Pending<D>,
    e1: Executor<D, P, S>,
    props: P,
    err: OpError,
    c0: Ctx,
    c1: Ctx,
    d0: D,
    d1: D,
    r: OpResult<Outcome>,
)
    requires
        e0.wf(),
        e0.running is None,
        begun(e0, id, start, poll, Ok(p)),
        run_post(e0, e1, p, props, Err(err), c0, c1, d0, d1, r),
    ensures
        cloned(start, d1),
        e1.history == e0.history,
        e1.requests == e0.requests,
        r == Err::<Outcome, OpError>(err),
        e1.last_report matches Some(m) && m@ == failure_report(p.info.label, err),
{
}

/// A finished undoable operation that asked for nothing else records
/// exactly one step, from the snapshot `begin` took to the document it
/// left, and discards what could have been redone.
pub proof fn law_finished_run_records_one_step<D: Clone, P, S>(
    e0: Executor<D, P, S>,
    p: Pending<D>,
    e1: Executor<D, P, S>,
    props: P,
    c0: Ctx,
    c1: Ctx,
    d0: D,
    d1: D,
    r: OpResult<Outcome>,
)
    requires
        e0.wf(),
        undoable(p.info),
        c0.requests@.len() == 0,
        run_post(e0, e1, p, props, Ok(Outcome::Finished), c0, c1, d0, d1, r),
    ensures
        e1.history.cursor_spec() == e0.history.cursor_spec() + 1,
        e1.history.steps().len() == e1.history.cursor_spec(),
        e1.history.steps().take(e0.history.cursor_spec() as int) == e0.history.steps().take(e0.history.cursor_spec() as int),
        step_of(e1.history.steps().last(), p.info, props, p.before, d0),
        d1 == d0,
        e1.requests@ == e0.requests@,
{
    let step = choose|step: UndoStep<D, P>| step_of(step, p.info, props, p.before, d0) && settled(
        e1, d0, d1, route(with_step(e0.routed(), step, e1.history.pushed()), c0.requests@, true));
    assert(e1.history.steps().take(e0.history.cursor_spec() as int) =~= e0.history.steps().take(e0.history.cursor_spec() as int));
    assert(e1.requests@ =~= e0.requests@);
}

/// Undo right after a finished undoable run gives back (a clone of) the
/// document from before the run, and a redo then gives back (a clone of)
/// the document the run left, with the history where the run left it.
pub proof fn law_undo_then_redo<D: Clone, P, S>(
    e0: Executor<D, P, S>,
    p: Pending<D>,
    e1: Executor<D, P, S>,
    props: P,
    c0: Ctx,
    c1: Ctx,
    d0: D,
    d1: D,
    r: OpResult<Outcome>,
    e2: Executor<D, P, S>,
    d2: D,
    u: bool,
    e3: Executor<D, P, S>,
    d3: D,
    v: bool,
)
    requires
        e0.wf(),
        undoable(p.info),
        c0.requests@.len() == 0,
        run_post(e0, e1, p, props, Ok(Outcome::Finished), c0, c1, d0, d1, r),
        undo_post(e1, e2, d1, d2, u),
        redo_post(e2, e3, d2, d3, v),
    ensures
        u,
        cloned(p.before, d2),
        v,
        step_of(e1.history.steps().last(), p.info, props, p.before, d0),
        cloned(e1.history.steps().last().after, d3),
        e3.history.steps() == e1.history.steps(),
        e3.history.cursor_spec() == e1.history.cursor_spec(),
{
    law_finished_run_records_one_step(e0, p, e1, props, c0, c1, d0, d1, r);
}

/// Operations that do not finish, or are not undoable, record nothing.
pub proof fn law_unrecorded_run<D: Clone, P, S>(
    e0: Executor<D, P, S>,
    p: Pending<D>,
    e1: Executor<D, P, S>,
    props: P,
    o: Outcome,
    c0: Ctx,
    c1: Ctx,
    d0: D,
    d1: D,
    r: OpResult<Outcome>,
)
    requires
        e0.wf(),
        o != Outcome::Finished || !undoable(p.info),
        c0.requests@.len() == 0,
        run_post(e0, e1, p, props, Ok(o), c0, c1, d0, d1, r),
    ensures
        e1.history.steps() == e0.history.steps(),
        e1.history.cursor_spec() == e0.history.cursor_spec(),
        e1.history.revision_spec() == e0.history.revision_spec(),
        d1 == d0,
{
}

/// An `Undo` request an operator makes is carried out on the history and
/// the document, not passed on to the UI; with nothing to undo it is
/// dropped.
pub proof fn law_undo_request_is_consumed<D, P>(s: Routed<D, P>)
    requires
        s.cursor <= s.steps.len(),
    ensures
        ({
            let t = route(s, seq![UiRequest::Undo], true);
            &&& t.forwarded == s.forwarded
            &&& t.steps == s.steps
            &&& s.cursor > 0 ==> t.cursor == s.cursor - 1 && t.doc == Some(s.steps[s.cursor - 1].before)
            &&& s.cursor == 0 ==> t == s
        }),
{
    let reqs = seq![UiRequest::Undo];
    assert(reqs.drop_last() =~= Seq::<UiRequest>::empty());
    assert(route(s, reqs.drop_last(), true) == s);
    assert(reqs.last() == UiRequest::Undo);
}

/// While a modal operator runs, every other operation is refused as busy.
pub proof fn law_busy_while_modal<D: Clone, P, S, F: Fn(&str) -> bool>(
    e0: Executor<D, P, S>,
    e1: Executor<D, P, S>,
    p: Pending<D>,
    props: P,
    state: S,
    c0: Ctx,
    c1: Ctx,
    d0: D,
    d1: D,
    r: OpResult<Flow>,
    id: &str,
    doc: D,
    poll: F,
    r2: OpResult<Pending<D>>,
)
    requires
        e0.wf(),
        invoke_post(e0, e1, p, props, state, Ok(Flow::Running), c0, c1, d0, d1, r),
        begun(e1, id, doc, poll, r2),
    ensures
        r2 matches Err(OpError::Busy),
{
}

/// Cancelling a modal operator puts back the document `begin` snapshotted
/// before `invoke`, and records nothing.
pub proof fn law_modal_cancel_restores<D: Clone, P, S>(
    e0: Executor<D, P, S>,
    e1: Executor<D, P, S>,
    p: Pending<D>,
    props: P,
    state: S,
    c0: Ctx,
    c1: Ctx,
    d0: D,
    d1: D,
    r: OpResult<Flow>,
    e2: Executor<D, P, S>,
    m: RunningModal<D, P, S>,
    info: OpInfo,
    e3: Executor<D, P, S>,
    c2: Ctx,
    c3: Ctx,
    d2: D,
    d3: D,
    r3: OpResult<Flow>,
)
    requires
        e0.wf(),
        invoke_post(e0, e1, p, props, state, Ok(Flow::Running), c0, c1, d0, d1, r),
        modal_taken(e1, e2, Some((m, info))),
        modal_post(e2, e3, m, info, Ok(Flow::Cancelled), c2, c3, d2, d3, r3),
    ensures
        d3 == p.before,
        e3.history == e1.history,
        e3.running is None,
{
}

/// A modal operator that finishes records one step for its whole run: from
/// the snapshot taken before `invoke` to the document it left.
pub proof fn law_modal_run_records_one_step<D: Clone, P, S>(
    e0: Executor<D, P, S>,
    e1: Executor<D, P, S>,
    p: Pending<D>,
    props: P,
    state: S,
    c0: Ctx,
    c1: Ctx,
    d0: D,
    d1: D,
    r: OpResult<Flow>,
    e2: Executor<D, P, S>,
    m: RunningModal<D, P, S>,
    info: OpInfo,
    e3: Executor<D, P, S>,
    c2: Ctx,
    c3: Ctx,
    d2: D,
    d3: D,
    r3: OpResult<Flow>,
)
    requires
        e0.wf(),
        invoke_post(e0, e1, p, props, state, Ok(Flow::Running), c0, c1, d0, d1, r),
        modal_taken(e1, e2, Some((m, info))),
        undoable(info),
        c2.requests@.len() == 0,
        modal_post(e2, e3, m, info, Ok(Flow::Finished), c2, c3, d2, d3, r3),
    ensures
        e3.history.cursor_spec() == e2.history.cursor_spec() + 1,
        e3.history.steps().len() == e3.history.cursor_spec(),
        e3.history.steps().last().before == p.before,
        cloned(d2, e3.history.steps().last().after),
        e3.running is None,
{
    let step = choose|step: UndoStep<D, P>| step_of(step, info, m.props, m.before, d2) && settled(
        e3, d2, d3, route(with_step(e2.routed(), step, e3.history.pushed()), c2.requests@, true));
}

/// Once saved, recording a new step makes the document dirty (as long as
/// the history's serial numbers have not run out).
pub proof fn law_recorded_step_is_dirty<D: Clone, P, S>(
    e0: Executor<D, P, S>,
    p: Pending<D>,
    e1: Executor<D, P, S>,
    props: P,
    c0: Ctx,
    c1: Ctx,
    d0: D,
    d1: D,
    r: OpResult<Outcome>,
)
    requires
        e0.wf(),
        e0.history.pushed() < u64::MAX,
        undoable(p.info),
        c0.requests@.len() == 0,
        run_post(e0, e1, p, props, Ok(Outcome::Finished), c0, c1, d0, d1, r),
    ensures
        e1.history.revision_spec() != e1.saved_revision,
{
    let step = choose|step: UndoStep<D, P>| step_of(step, p.info, props, p.before, d0) && settled(
        e1, d0, d1, route(with_step(e0.routed(), step, e1.history.pushed()), c0.requests@, true));
    let c = e0.history.cursor_spec();
    assert(e1.history.serials() == e0.history.serials().take(c as int).push(e1.history.pushed()));
    assert(e1.history.cursor_spec() == c + 1);
    assert(e1.history.serials()[c as int] == e1.history.pushed());
    assert(e1.history.revision_spec() == e1.history.pushed());
}

/// Adjusting the last operation changes that step in place: the history
/// keeps its length and position, and the step keeps where it started and
/// what it is called, now ending in the re-run's document with the new
/// properties.
pub proof fn law_adjust_replaces_last_step<D: Clone, P, S>(
    e0: Executor<D, P, S>,
    e1: Executor<D, P, S>,
    a: Adjusting<D, P>,
    o: Outcome,
    c0: Ctx,
    c1: Ctx,
    d0: D,
    d1: D,
    r: OpResult<()>,
)
    requires
        e0.wf(),
        e0.history.cursor_spec() > 0,
        c0.requests@.len() == 0,
        adjust_post(e0, e1, a, Ok(o), c0, c1, d0, d1, r),
    ensures
        r is Ok,
        e1.history.steps().len() == e0.history.steps().len(),
        e1.history.cursor_spec() == e0.history.cursor_spec(),
        e1.history.revision_spec() == e0.history.revision_spec(),
        ({
            let i = e0.history.cursor_spec() - 1;
            &&& e1.history.steps()[i].before == e0.history.steps()[i].before
            &&& e1.history.steps()[i].label == e0.history.steps()[i].label
            &&& e1.history.steps()[i].op_id == e0.history.steps()[i].op_id
            &&& e1.history.steps()[i].props == Some(a.props)
            &&& cloned(d0, e1.history.steps()[i].after)
            &&& forall|k: int| 0 <= k < e0.history.steps().len() && k != i ==> e1.history.steps()[k] == e0.history.steps()[k]
        }),
        d1 == d0,
{
}

} // verus!
