//! Window-manager level: undo/redo, files, menus, the palette, quitting.
//! Reading and writing files is the host's; these decide what to ask for
//! and what to report.

use vstd::prelude::*;
use vstd::string::*;

use crate::context::{Ctx, Outcome, UiRequest};
use crate::operator::{OpError, OpFlags, OpResult, Operator};
use crate::registry::{add_ops, OpInfo, Registry};

verus! {

pub struct Undo;

impl Operator for Undo {
    open spec fn spec_info() -> OpInfo {
        OpInfo { id: "ed.undo", label: "Undo", flags: OpFlags(1) }
    }

    fn info() -> (r: OpInfo) {
        OpInfo { id: "ed.undo", label: "Undo", flags: OpFlags(1) }
    }
}

pub struct Redo;

impl Operator for Redo {
    open spec fn spec_info() -> OpInfo {
        OpInfo { id: "ed.redo", label: "Redo", flags: OpFlags(1) }
    }

    fn info() -> (r: OpInfo) {
        OpInfo { id: "ed.redo", label: "Redo", flags: OpFlags(1) }
    }
}

pub struct Save;

impl Operator for Save {
    open spec fn spec_info() -> OpInfo {
        OpInfo { id: "wm.save", label: "Save", flags: OpFlags(1) }
    }

    fn info() -> (r: OpInfo) {
        OpInfo { id: "wm.save", label: "Save", flags: OpFlags(1) }
    }
}

pub struct SaveAs;

impl Operator for SaveAs {
    open spec fn spec_info() -> OpInfo {
        OpInfo { id: "wm.save_as", label: "Save As…", flags: OpFlags(1) }
    }

    fn info() -> (r: OpInfo) {
        OpInfo { id: "wm.save_as", label: "Save As…", flags: OpFlags(1) }
    }
}

pub struct Open;

impl Operator for Open {
    open spec fn spec_info() -> OpInfo {
        OpInfo { id: "wm.open", label: "Open…", flags: OpFlags(1) }
    }

    fn info() -> (r: OpInfo) {
        OpInfo { id: "wm.open", label: "Open…", flags: OpFlags(1) }
    }
}

pub struct New;

impl Operator for New {
    open spec fn spec_info() -> OpInfo {
        OpInfo { id: "wm.new", label: "New", flags: OpFlags(1) }
    }

    fn info() -> (r: OpInfo) {
        OpInfo { id: "wm.new", label: "New", flags: OpFlags(1) }
    }
}

pub struct Quit;

impl Operator for Quit {
    open spec fn spec_info() -> OpInfo {
        OpInfo { id: "wm.quit", label: "Quit", flags: OpFlags(1) }
    }

    fn info() -> (r: OpInfo) {
        OpInfo { id: "wm.quit", label: "Quit", flags: OpFlags(1) }
    }
}

pub struct CallMenu;

impl Operator for CallMenu {
    open spec fn spec_info() -> OpInfo {
        OpInfo { id: "wm.call_menu", label: "Open Menu", flags: OpFlags(0) }
    }

    fn info() -> (r: OpInfo) {
        OpInfo { id: "wm.call_menu", label: "Open Menu", flags: OpFlags(0) }
    }
}

pub struct Palette;

impl Operator for Palette {
    open spec fn spec_info() -> OpInfo {
        OpInfo { id: "wm.palette", label: "Command Palette", flags: OpFlags(1) }
    }

    fn info() -> (r: OpInfo) {
        OpInfo { id: "wm.palette", label: "Command Palette", flags: OpFlags(1) }
    }
}

/// What `register` adds, in order.
pub open spec fn ops() -> Seq<OpInfo> {
    seq![Undo::spec_info(), Redo::spec_info(), Save::spec_info(), SaveAs::spec_info(), Open::spec_info(), New::spec_info(), Quit::spec_info(), CallMenu::spec_info(), Palette::spec_info()]
}

pub fn register(r: &mut Registry)
    ensures
        final(r).view() == add_ops(old(r).view(), ops()),
{
    let infos = vec![Undo::info(), Redo::info(), Save::info(), SaveAs::info(), Open::info(), New::info(), Quit::info(), CallMenu::info(), Palette::info()];
    proof {
        assert(infos@ =~= ops());
    }
    r.register_infos(infos.as_slice());
}

impl Undo {
    /// Ask for the last step to be undone.
    pub fn exec(ctx: &mut Ctx) -> (r: OpResult<Outcome>)
        ensures
            r == Ok::<Outcome, OpError>(Outcome::Finished),
            final(ctx).requests@ == old(ctx).requests@.push(UiRequest::Undo),
            final(ctx).report == old(ctx).report,
    {
        ctx.request(UiRequest::Undo);
        Ok(Outcome::Finished)
    }
}

impl Redo {
    /// Ask for the last undone step to be redone.
    pub fn exec(ctx: &mut Ctx) -> (r: OpResult<Outcome>)
        ensures
            r == Ok::<Outcome, OpError>(Outcome::Finished),
            final(ctx).requests@ == old(ctx).requests@.push(UiRequest::Redo),
            final(ctx).report == old(ctx).report,
    {
        ctx.request(UiRequest::Redo);
        Ok(Outcome::Finished)
    }
}

impl Quit {
    /// Ask the application to quit.
    pub fn exec(ctx: &mut Ctx) -> (r: OpResult<Outcome>)
        ensures
            r == Ok::<Outcome, OpError>(Outcome::Finished),
            final(ctx).requests@ == old(ctx).requests@.push(UiRequest::Quit),
            final(ctx).report == old(ctx).report,
    {
        ctx.request(UiRequest::Quit);
        Ok(Outcome::Finished)
    }
}

impl Palette {
    /// Ask for the command palette.
    pub fn exec(ctx: &mut Ctx) -> (r: OpResult<Outcome>)
        ensures
            r == Ok::<Outcome, OpError>(Outcome::Finished),
            final(ctx).requests@ == old(ctx).requests@.push(UiRequest::Palette),
            final(ctx).report == old(ctx).report,
    {
        ctx.request(UiRequest::Palette);
        Ok(Outcome::Finished)
    }
}

impl New {
    /// After the host has replaced the document with a new one: its history no
    /// longer applies.
    pub fn exec(ctx: &mut Ctx) -> (r: OpResult<Outcome>)
        ensures
            r == Ok::<Outcome, OpError>(Outcome::Finished),
            final(ctx).requests@ == old(ctx).requests@.push(UiRequest::HistoryClear),
            final(ctx).report == old(ctx).report,
    {
        ctx.request(UiRequest::HistoryClear);
        Ok(Outcome::Finished)
    }
}

/// `r` asks for a path for `op`, to save (`save`) or to open, offering
/// `suggest`.
pub open spec fn asks_path(r: UiRequest, op: Seq<char>, save: bool, suggest: Option<Seq<char>>) -> bool {
    &&& r matches UiRequest::PathDialog { op: o, save: s, suggest: g }
    &&& o@ == op
    &&& s == save
    &&& match (g, suggest) {
        (Some(a), Some(b)) => a@ == b,
        (None, None) => true,
        _ => false,
    }
}

/// Ask for a path for `op`, offering `suggest`.
pub(crate) fn ask_path(ctx: &mut Ctx, op: &str, save: bool, suggest: Option<String>)
    ensures
        final(ctx).requests@.len() == old(ctx).requests@.len() + 1,
        final(ctx).requests@.drop_last() == old(ctx).requests@,
        asks_path(
            final(ctx).requests@.last(),
            op@,
            save,
            match suggest {
                Some(s) => Some(s@),
                None => None,
            },
        ),
        final(ctx).report == old(ctx).report,
{
    ctx.request(UiRequest::PathDialog { op: op.to_owned(), save, suggest });
    proof {
        assert(ctx.requests@.drop_last() =~= old(ctx).requests@);
    }
}

impl Save {
    /// Where to save: `path` when given, else the document's own path
    /// `doc_path`; with neither, ask for one (the run then ends
    /// `Cancelled`).
    pub fn target(ctx: &mut Ctx, path: &str, doc_path: Option<&str>) -> (r: Option<String>)
        ensures
            path@.len() > 0 ==> (r matches Some(s) && s@ == path@) && final(ctx).requests@ == old(ctx).requests@,
            path@.len() == 0 && doc_path is Some ==> (r matches Some(s) && s@ == doc_path->0@) && final(ctx).requests@ == old(ctx).requests@,
            path@.len() == 0 && doc_path is None ==> {
                &&& r is None
                &&& final(ctx).requests@.drop_last() == old(ctx).requests@
                &&& asks_path(final(ctx).requests@.last(), "wm.save"@, true, None)
            },
            final(ctx).report == old(ctx).report,
    {
        if path.unicode_len() > 0 {
            return Some(path.to_owned());
        }
        match doc_path {
            Some(p) => Some(p.to_owned()),
            None => {
                ask_path(ctx, "wm.save", true, None);
                None
            },
        }
    }

    /// After the host saved the document to `path`.
    pub fn finish(ctx: &mut Ctx, path: &str) -> (r: OpResult<Outcome>)
        ensures
            r == Ok::<Outcome, OpError>(Outcome::Finished),
            final(ctx).report matches Some(m) && m@ == "Saved "@ + path@,
            final(ctx).requests@ == old(ctx).requests@,
    {
        let mut m = String::from_str("Saved ");
        m.append(path);
        ctx.report(m);
        Ok(Outcome::Finished)
    }
}

impl SaveAs {
    /// Always ask for a path unless `path` is given; with one, saving goes
    /// on as [`Save`] does.
    pub fn target(ctx: &mut Ctx, path: &str) -> (r: Option<String>)
        ensures
            path@.len() > 0 ==> (r matches Some(s) && s@ == path@) && final(ctx).requests@ == old(ctx).requests@,
            path@.len() == 0 ==> {
                &&& r is None
                &&& final(ctx).requests@.drop_last() == old(ctx).requests@
                &&& asks_path(final(ctx).requests@.last(), "wm.save_as"@, true, None)
            },
            final(ctx).report == old(ctx).report,
    {
        if path.unicode_len() > 0 {
            Some(path.to_owned())
        } else {
            ask_path(ctx, "wm.save_as", true, None);
            None
        }
    }
}

impl Open {
    /// The file to open: `path` when given, else ask for one (the run then
    /// ends `Cancelled`).
    pub fn target(ctx: &mut Ctx, path: &str) -> (r: Option<String>)
        ensures
            path@.len() > 0 ==> (r matches Some(s) && s@ == path@) && final(ctx).requests@ == old(ctx).requests@,
            path@.len() == 0 ==> {
                &&& r is None
                &&& final(ctx).requests@.drop_last() == old(ctx).requests@
                &&& asks_path(final(ctx).requests@.last(), "wm.open"@, false, None)
            },
            final(ctx).report == old(ctx).report,
    {
        if path.unicode_len() > 0 {
            Some(path.to_owned())
        } else {
            ask_path(ctx, "wm.open", false, None);
            None
        }
    }

    /// After the host loaded `path` in place of the document: the history
    /// no longer applies.
    pub fn finish(ctx: &mut Ctx, path: &str) -> (r: OpResult<Outcome>)
        ensures
            r == Ok::<Outcome, OpError>(Outcome::Finished),
            final(ctx).requests@ == old(ctx).requests@.push(UiRequest::HistoryClear),
            final(ctx).report matches Some(m) && m@ == "Opened "@ + path@,
    {
        ctx.request(UiRequest::HistoryClear);
        let mut m = String::from_str("Opened ");
        m.append(path);
        ctx.report(m);
        Ok(Outcome::Finished)
    }
}

impl CallMenu {
    /// Ask for the menu called `menu`; there is no menu without a name.
    pub fn exec(ctx: &mut Ctx, menu: &str) -> (r: OpResult<Outcome>)
        ensures
            menu@.len() == 0 ==> (r matches Err(OpError::Failed(m)) && m@ == "no menu named"@) && final(ctx).requests == old(ctx).requests,
            menu@.len() > 0 ==> {
                &&& r == Ok::<Outcome, OpError>(Outcome::Finished)
                &&& final(ctx).requests@.drop_last() == old(ctx).requests@
                &&& final(ctx).requests@.last() matches UiRequest::Menu(m) && m@ == menu@
            },
            final(ctx).report == old(ctx).report,
    {
        if menu.unicode_len() == 0 {
            return Err(OpError::Failed(String::from_str("no menu named")));
        }
        ctx.request(UiRequest::Menu(menu.to_owned()));
        proof {
            assert(ctx.requests@.drop_last() =~= old(ctx).requests@);
        }
        Ok(Outcome::Finished)
    }
}

} // verus!
