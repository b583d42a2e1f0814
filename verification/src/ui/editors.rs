//! Editor types an area can host, and the Properties editor's decisions:
//! which tab shows, where a click in the history list moves the cursor,
//! how each history row is marked, and when "Adjust Last Operation" shows.

use vstd::prelude::*;

use crate::registry::str_eq;

verus! {

#[derive(Clone, Copy, Debug, PartialEq, Eq, Structural)]
pub enum EditorKind {
    Viewport,
    Gallery,
    Preferences,
    Empty,
}

impl EditorKind {
    pub open spec fn label_spec(self) -> Seq<char> {
        match self {
            EditorKind::Viewport => "3D Viewport"@,
            EditorKind::Gallery => "Widget Gallery"@,
            EditorKind::Preferences => "Preferences"@,
            EditorKind::Empty => "Empty"@,
        }
    }

    /// The name shown in an area's editor menu.
    pub fn label(self) -> (r: &'static str)
        ensures
            r@ == self.label_spec(),
    {
        match self {
            EditorKind::Viewport => "3D Viewport",
            EditorKind::Gallery => "Widget Gallery",
            EditorKind::Preferences => "Preferences",
            EditorKind::Empty => "Empty",
        }
    }

    /// Every kind, in menu order.
    pub open spec fn all_spec() -> Seq<EditorKind> {
        seq![EditorKind::Viewport, EditorKind::Gallery, EditorKind::Preferences, EditorKind::Empty]
    }

    /// Every kind, in menu order.
    pub fn all() -> (r: Vec<EditorKind>)
        ensures
            r@ == Self::all_spec(),
    {
        let r = vec![EditorKind::Viewport, EditorKind::Gallery, EditorKind::Preferences, EditorKind::Empty];
        assert(r@ =~= Self::all_spec());
        r
    }

    /// Its position in [`Self::all`].
    pub fn index(self) -> (r: usize)
        ensures
            r < Self::all_spec().len(),
            Self::all_spec()[r as int] == self,
    {
        let all = Self::all();
        let mut i: usize = 0;
        while i < all.len()
            invariant
                all@ == Self::all_spec(),
                i <= all@.len(),
                forall|k: int| 0 <= k < i ==> all@[k] != self,
            decreases all@.len() - i,
        {
            if all[i] == self {
                return i;
            }
            i = i + 1;
        }
        proof {
            assert(all@[0] == EditorKind::Viewport);
            assert(all@[1] == EditorKind::Gallery);
            assert(all@[2] == EditorKind::Preferences);
            assert(all@[3] == EditorKind::Empty);
        }
        0
    }
}

/// The Properties editor's tabs.
#[derive(Clone, Copy, Debug, PartialEq, Eq, Structural)]
pub enum PropertiesTab {
    Object,
    Data,
    Scene,
    History,
}

#[derive(Clone, Copy, Debug, PartialEq, Eq, Structural)]
pub struct PropertiesState {
    pub tab: usize,
}

impl Default for PropertiesState {
    /// The first tab.
    fn default() -> (r: PropertiesState)
        ensures
            r.tab == 0,
    {
        PropertiesState { tab: 0 }
    }
}

impl PropertiesState {
    /// The tab that shows: Object, Data, Scene, and History for any later
    /// index.
    pub fn current(&self) -> (r: PropertiesTab)
        ensures
            r == (if self.tab == 0 {
                PropertiesTab::Object
            } else if self.tab == 1 {
                PropertiesTab::Data
            } else if self.tab == 2 {
                PropertiesTab::Scene
            } else {
                PropertiesTab::History
            }),
    {
        if self.tab == 0 {
            PropertiesTab::Object
        } else if self.tab == 1 {
            PropertiesTab::Data
        } else if self.tab == 2 {
            PropertiesTab::Scene
        } else {
            PropertiesTab::History
        }
    }
}

/// The tab labels, in order.
pub fn tab_label(t: PropertiesTab) -> (r: &'static str)
    ensures
        r@ == match t {
            PropertiesTab::Object => "Object"@,
            PropertiesTab::Data => "Data"@,
            PropertiesTab::Scene => "Scene"@,
            PropertiesTab::History => "History"@,
        },
{
    match t {
        PropertiesTab::Object => "Object",
        PropertiesTab::Data => "Data",
        PropertiesTab::Scene => "Scene",
        PropertiesTab::History => "History",
    }
}

/// How a row of the history list is drawn.
#[derive(Clone, Copy, Debug, PartialEq, Eq, Structural)]
pub enum RowMark {
    /// The position the document is at.
    Current,
    /// Applied, before the current position.
    Applied,
    /// Undone: can be redone.
    Undone,
}

/// The mark of step row `i` (0-based) with `cursor` steps applied. The row
/// above the steps, the document before any of them, is current when
/// nothing is applied.
pub fn row_mark(i: usize, cursor: usize) -> (r: RowMark)
    ensures
        r == (if i + 1 == cursor {
            RowMark::Current
        } else if i < cursor {
            RowMark::Applied
        } else {
            RowMark::Undone
        }),
{
    if i < cursor && i + 1 == cursor {
        RowMark::Current
    } else if i < cursor {
        RowMark::Applied
    } else {
        RowMark::Undone
    }
}

/// Where clicking step row `i` moves the history: to just after that step.
pub fn row_target(i: usize) -> (r: usize)
    requires
        i < usize::MAX,
    ensures
        r == i + 1,
{
    i + 1
}

/// "Adjust Last Operation" shows for the last applied step unless it was a
/// direct edit in a panel (`ui.edit`), which has no operator to re-run.
pub fn adjustable(op_id: &str) -> (r: bool)
    ensures
        r == (op_id@ != "ui.edit"@),
{
    !str_eq(op_id, "ui.edit")
}

} // verus!
