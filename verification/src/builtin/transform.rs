//! Interactive transforms (Move, Rotate, Scale) as modal operators driven
//! by the pointer. What an event means to them, and which axis they are
//! constrained to, is decided here; the geometry (where the pointer lands in
//! the world, what moves) is the host's.

use vstd::prelude::*;

use crate::context::Flow;
use crate::input::{Event, Key, MouseButton};
use crate::keymap::{ascii_lower, to_ascii_lower};
use crate::operator::{OpFlags, Operator};
use crate::registry::{add_ops, OpInfo, Registry};

verus! {

/// Move the selection, following the pointer.
pub struct Translate;

impl Operator for Translate {
    open spec fn spec_info() -> OpInfo {
        OpInfo { id: "transform.translate", label: "Move", flags: OpFlags(7) }
    }

    fn info() -> (r: OpInfo) {
        OpInfo { id: "transform.translate", label: "Move", flags: OpFlags(7) }
    }
}

/// Rotate the selection about its pivot, following the pointer.
pub struct Rotate;

impl Operator for Rotate {
    open spec fn spec_info() -> OpInfo {
        OpInfo { id: "transform.rotate", label: "Rotate", flags: OpFlags(7) }
    }

    fn info() -> (r: OpInfo) {
        OpInfo { id: "transform.rotate", label: "Rotate", flags: OpFlags(7) }
    }
}

/// Scale the selection about its pivot, following the pointer.
pub struct Scale;

impl Operator for Scale {
    open spec fn spec_info() -> OpInfo {
        OpInfo { id: "transform.scale", label: "Scale", flags: OpFlags(7) }
    }

    fn info() -> (r: OpInfo) {
        OpInfo { id: "transform.scale", label: "Scale", flags: OpFlags(7) }
    }
}

/// What `register` adds, in order.
pub open spec fn ops() -> Seq<OpInfo> {
    seq![Translate::spec_info(), Rotate::spec_info(), Scale::spec_info()]
}

pub fn register(r: &mut Registry)
    ensures
        final(r).view() == add_ops(old(r).view(), ops()),
{
    let infos = vec![Translate::info(), Rotate::info(), Scale::info()];
    proof {
        assert(infos@ =~= ops());
    }
    r.register_infos(infos.as_slice());
}

/// A world axis to constrain to; `Free` follows the view.
#[derive(Clone, Copy, Debug, PartialEq, Eq, Structural)]
pub enum Axis {
    Free,
    X,
    Y,
    Z,
}

impl Axis {
    pub open spec fn tag_spec(self) -> Seq<char> {
        match self {
            Axis::Free => ""@,
            Axis::X => "  [X]"@,
            Axis::Y => "  [Y]"@,
            Axis::Z => "  [Z]"@,
        }
    }

    /// What the status line appends for the constraint.
    pub fn tag(self) -> (r: &'static str)
        ensures
            r@ == self.tag_spec(),
    {
        match self {
            Axis::Free => "",
            Axis::X => "  [X]",
            Axis::Y => "  [Y]",
            Axis::Z => "  [Z]",
        }
    }
}

/// What an event means to a running transform-like operator.
#[derive(Clone, Copy, Debug, PartialEq, Eq, Structural)]
pub enum Control {
    /// The pointer moved.
    Move,
    Confirm,
    Cancel,
    /// X / Y / Z pressed: toggle that constraint.
    Axis(Axis),
    Ignore,
}

/// The constraint a letter key asks for.
pub open spec fn axis_key(c: char) -> Option<Axis> {
    let l = ascii_lower(c);
    if l == 'x' {
        Some(Axis::X)
    } else if l == 'y' {
        Some(Axis::Y)
    } else if l == 'z' {
        Some(Axis::Z)
    } else {
        None
    }
}

/// What `event` means to a transform-like operator. `release_confirm`: the
/// operator began with a press (a drag), so the release confirms; otherwise
/// the next click does.
pub open spec fn control_spec(event: Event, release_confirm: bool) -> Control {
    match event {
        Event::PointerMoved => Control::Move,
        Event::Button { button: MouseButton::Left, pressed, .. } => if pressed != release_confirm {
            Control::Confirm
        } else {
            Control::Ignore
        },
        Event::Button { button: MouseButton::Right, pressed: true, .. } => Control::Cancel,
        Event::Key { key: Key::Escape, pressed: true, .. } => Control::Cancel,
        Event::Key { key: Key::Enter, pressed: true, .. } => Control::Confirm,
        Event::Key { key: Key::Space, pressed: true, .. } => Control::Confirm,
        Event::Key { key: Key::Char(c), pressed: true, .. } => match axis_key(c) {
            Some(a) => Control::Axis(a),
            None => Control::Ignore,
        },
        _ => Control::Ignore,
    }
}

/// What `event` means to a transform-like operator.
pub fn control(event: &Event, release_confirm: bool) -> (r: Control)
    ensures
        r == control_spec(*event, release_confirm),
{
    match event {
        Event::PointerMoved => Control::Move,
        Event::Button { button: MouseButton::Left, pressed, .. } => if *pressed != release_confirm {
            Control::Confirm
        } else {
            Control::Ignore
        },
        Event::Button { button: MouseButton::Right, pressed: true, .. } => Control::Cancel,
        Event::Key { key: Key::Escape, pressed: true, .. } => Control::Cancel,
        Event::Key { key: Key::Enter, pressed: true, .. } => Control::Confirm,
        Event::Key { key: Key::Space, pressed: true, .. } => Control::Confirm,
        Event::Key { key: Key::Char(c), pressed: true, .. } => {
            let l = to_ascii_lower(*c);
            if l == 'x' {
                Control::Axis(Axis::X)
            } else if l == 'y' {
                Control::Axis(Axis::Y)
            } else if l == 'z' {
                Control::Axis(Axis::Z)
            } else {
                Control::Ignore
            }
        },
        _ => Control::Ignore,
    }
}

/// A press starts a drag that ends on release; anything else (a key, a menu
/// click that has already released) is confirmed by the next click.
pub fn starts_drag(event: &Event) -> (r: bool)
    ensures
        r == (event matches Event::Button { pressed: true, .. }),
{
    match event {
        Event::Button { pressed, .. } => *pressed,
        _ => false,
    }
}

/// What a running transform does with an event.
#[derive(Clone, Copy, Debug, PartialEq, Eq, Structural)]
pub enum Step {
    /// Recompute from the pointer and the constraint.
    Update,
    Finish,
    Cancel,
    Nothing,
}

/// Pressing an axis key constrains to it, or frees the transform when it
/// is already the constraint.
pub open spec fn toggled(current: Axis, pressed: Axis) -> Axis {
    if current == pressed {
        Axis::Free
    } else {
        pressed
    }
}

/// Feed `event` to a running transform constrained to `*axis`.
pub fn step(axis: &mut Axis, event: &Event, release_confirm: bool) -> (r: Step)
    ensures
        match control_spec(*event, release_confirm) {
            Control::Move => r == Step::Update && *final(axis) == *old(axis),
            Control::Confirm => r == Step::Finish && *final(axis) == *old(axis),
            Control::Cancel => r == Step::Cancel && *final(axis) == *old(axis),
            Control::Axis(a) => r == Step::Update && *final(axis) == toggled(*old(axis), a),
            Control::Ignore => r == Step::Nothing && *final(axis) == *old(axis),
        },
{
    match control(event, release_confirm) {
        Control::Move => Step::Update,
        Control::Confirm => Step::Finish,
        Control::Cancel => Step::Cancel,
        Control::Axis(a) => {
            *axis = if *axis == a {
                Axis::Free
            } else {
                a
            };
            Step::Update
        },
        Control::Ignore => Step::Nothing,
    }
}

/// How a step ends the `modal` call: finishing and cancelling end the run,
/// anything else keeps it going.
pub fn flow_of_step(s: Step) -> (r: Flow)
    ensures
        r == match s {
            Step::Finish => Flow::Finished,
            Step::Cancel => Flow::Cancelled,
            _ => Flow::Running,
        },
{
    match s {
        Step::Finish => Flow::Finished,
        Step::Cancel => Flow::Cancelled,
        _ => Flow::Running,
    }
}

/// Pressing the same axis key twice leaves a free or same-axis transform
/// as it was; from another axis it ends free.
pub proof fn law_axis_key_twice(a: Axis, k: Axis)
    requires
        k != Axis::Free,
    ensures
        (a == Axis::Free || a == k) ==> toggled(toggled(a, k), k) == a,
        (a != Axis::Free && a != k) ==> toggled(toggled(a, k), k) == Axis::Free,
{
}

} // verus!
