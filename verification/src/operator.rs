//! Operator flags, errors, and the `Operator` trait every user action
//! implements.

use vstd::prelude::*;
use vstd::std_specs::ops::BitOrSpecImpl;
use vstd::string::*;

use crate::registry::OpInfo;

verus! {

#[derive(Clone, Copy, Debug, PartialEq, Eq, Structural)]
pub struct OpFlags(pub u32);

impl OpFlags {
    /// No flags.
    pub fn none() -> (r: OpFlags)
        ensures
            r.0 == 0,
    {
        OpFlags(0)
    }

    /// Listed in menus and the palette.
    pub fn register() -> (r: OpFlags)
        ensures
            r.0 == 1,
    {
        OpFlags(1)
    }

    /// Records an undo step when it finishes.
    pub fn undo() -> (r: OpFlags)
        ensures
            r.0 == 2,
    {
        OpFlags(2)
    }

    /// While modal, takes every event.
    pub fn blocking() -> (r: OpFlags)
        ensures
            r.0 == 4,
    {
        OpFlags(4)
    }

    /// Listed, and undoable.
    pub fn default_flags() -> (r: OpFlags)
        ensures
            r.0 == 3,
    {
        assert(1u32 | 2u32 == 3u32) by (bit_vector);
        OpFlags(1 | 2)
    }

    pub open spec fn has(self, o: OpFlags) -> bool {
        self.0 & o.0 == o.0
    }

    /// Every bit of `o` is set in `self`.
    pub fn contains(self, o: OpFlags) -> (r: bool)
        ensures
            r == self.has(o),
    {
        self.0 & o.0 == o.0
    }
}

impl core::ops::BitOr for OpFlags {
    type Output = OpFlags;

    fn bitor(self, o: OpFlags) -> (r: OpFlags)
        ensures
            r.0 == self.0 | o.0,
    {
        OpFlags(self.0 | o.0)
    }
}

impl BitOrSpecImpl for OpFlags {
    open spec fn obeys_bitor_spec() -> bool {
        true
    }

    open spec fn bitor_req(self, rhs: OpFlags) -> bool {
        true
    }

    open spec fn bitor_spec(self, rhs: OpFlags) -> OpFlags {
        OpFlags(self.0 | rhs.0)
    }
}

#[derive(Clone, Debug, PartialEq, Eq)]
pub enum OpError {
    /// `poll` said no.
    Poll(String),
    Unknown(String),
    Failed(String),
    /// A running modal operator owns input right now.
    Busy,
}

/// The text shown for an error.
pub open spec fn error_text(e: OpError) -> Seq<char> {
    match e {
        OpError::Poll(id) => "`"@ + id@ + "` cannot run here"@,
        OpError::Unknown(id) => "unknown operator `"@ + id@ + "`"@,
        OpError::Failed(m) => m@,
        OpError::Busy => "a modal operator is running"@,
    }
}

impl OpError {
    /// The text shown for the error.
    pub fn message(&self) -> (r: String)
        ensures
            r@ == error_text(*self),
    {
        match self {
            OpError::Poll(id) => {
                let mut s = String::from_str("`");
                s.append(id.as_str());
                s.append("` cannot run here");
                s
            },
            OpError::Unknown(id) => {
                let mut s = String::from_str("unknown operator `");
                s.append(id.as_str());
                s.append("`");
                s
            },
            OpError::Failed(m) => m.clone(),
            OpError::Busy => String::from_str("a modal operator is running"),
        }
    }
}

pub type OpResult<T> = Result<T, OpError>;

/// One user-facing verb, described by its id (`"category.name"`), label
/// and flags. What it does to a document is the host's: the executor runs
/// it transactionally around what the host reports.
pub trait Operator {
    spec fn spec_info() -> OpInfo;

    fn info() -> (r: OpInfo)
        ensures
            r == Self::spec_info(),
    ;
}

} // verus!
