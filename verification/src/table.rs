//! The interception table: the guarded primitives and their shapes.
//!
//! One entry per intercepted file-opening primitive. Each entry records what
//! a guarded replacement must know to stand in for the original: where the
//! pathname sits among the arguments, and which native failure sentinel the
//! primitive uses — an integer `-1` for descriptor-returning calls, a null
//! reference for stream-handle-returning calls. On a denial the replacement
//! returns exactly that sentinel; on an allowance it delegates to the real
//! implementation and passes its result through unchanged.

use crate::errno::{deny_errno, PERMISSION_DENIED};
use crate::guard::{decide_against, verdict_against, Probe, Verdict};
use vstd::prelude::*;

verus! {

/// The guarded file-opening primitives.
#[derive(Clone, Copy, Debug, PartialEq, Eq, Structural)]
pub enum Primitive {
    /// File creation.
    Creat,
    /// File creation, large-file-offset build.
    Creat64,
    /// Generic open.
    Open,
    /// Generic open, large-file-offset build.
    Open64,
    /// Open relative to a directory descriptor.
    Openat,
    /// Directory-relative open, large-file-offset build.
    Openat64,
    /// Stream open.
    Fopen,
    /// Stream open, large-file-offset build.
    Fopen64,
    /// Stream reopen.
    Freopen,
    /// Stream reopen, large-file-offset build.
    Freopen64,
    /// Handle lookup by name.
    NameToHandleAt,
}

/// A primitive's native failure value.
#[derive(Clone, Copy, Debug, PartialEq, Eq, Structural)]
pub enum Sentinel {
    /// The integer `-1`, for primitives returning a descriptor or status.
    NegativeOne,
    /// A null reference, for primitives returning a stream handle.
    NullHandle,
}

impl Sentinel {
    /// The sentinel's integer form, for integer-returning primitives.
    pub open spec fn int_value_spec(self) -> Option<i32> {
        match self {
            Sentinel::NegativeOne => Some(-1i32),
            Sentinel::NullHandle => None,
        }
    }

    /// The sentinel's integer form: `-1`, or nothing for a null reference.
    pub fn int_value(&self) -> (r: Option<i32>)
        ensures
            r == self.int_value_spec(),
    {
        match self {
            Sentinel::NegativeOne => Some(-1i32),
            Sentinel::NullHandle => None,
        }
    }
}

impl Primitive {
    /// Whether the primitive returns a stream handle rather than an integer.
    pub open spec fn yields_handle(self) -> bool {
        match self {
            Primitive::Fopen | Primitive::Fopen64 | Primitive::Freopen | Primitive::Freopen64
                => true,
            _ => false,
        }
    }

    /// The primitive's native failure sentinel.
    pub open spec fn sentinel_spec(self) -> Sentinel {
        if self.yields_handle() {
            Sentinel::NullHandle
        } else {
            Sentinel::NegativeOne
        }
    }

    /// Which argument carries the pathname, counting from one: the second
    /// for the primitives that take a directory descriptor first, the first
    /// for all others.
    pub open spec fn path_arg_spec(self) -> int {
        match self {
            Primitive::Openat | Primitive::Openat64 | Primitive::NameToHandleAt => 2,
            _ => 1,
        }
    }

    /// The primitive's native failure sentinel, as `sentinel_spec` states.
    pub fn sentinel(&self) -> (s: Sentinel)
        ensures
            s == self.sentinel_spec(),
    {
        match self {
            Primitive::Fopen | Primitive::Fopen64 | Primitive::Freopen | Primitive::Freopen64
                => Sentinel::NullHandle,
            _ => Sentinel::NegativeOne,
        }
    }

    /// Which argument carries the pathname, as `path_arg_spec` states.
    pub fn path_arg(&self) -> (i: usize)
        ensures
            i as int == self.path_arg_spec(),
    {
        match self {
            Primitive::Openat | Primitive::Openat64 | Primitive::NameToHandleAt => 2,
            _ => 1,
        }
    }

    /// The whole table, one entry per guarded primitive.
    pub fn all() -> (v: Vec<Primitive>)
        ensures
            v@ == seq![
                Primitive::Creat,
                Primitive::Creat64,
                Primitive::Open,
                Primitive::Open64,
                Primitive::Openat,
                Primitive::Openat64,
                Primitive::Fopen,
                Primitive::Fopen64,
                Primitive::Freopen,
                Primitive::Freopen64,
                Primitive::NameToHandleAt,
            ],
    {
        let mut v: Vec<Primitive> = Vec::new();
        v.push(Primitive::Creat);
        v.push(Primitive::Creat64);
        v.push(Primitive::Open);
        v.push(Primitive::Open64);
        v.push(Primitive::Openat);
        v.push(Primitive::Openat64);
        v.push(Primitive::Fopen);
        v.push(Primitive::Fopen64);
        v.push(Primitive::Freopen);
        v.push(Primitive::Freopen64);
        v.push(Primitive::NameToHandleAt);
        proof {
            assert(v@ =~= seq![
                Primitive::Creat,
                Primitive::Creat64,
                Primitive::Open,
                Primitive::Open64,
                Primitive::Openat,
                Primitive::Openat64,
                Primitive::Fopen,
                Primitive::Fopen64,
                Primitive::Freopen,
                Primitive::Freopen64,
                Primitive::NameToHandleAt,
            ]);
        }
        v
    }
}

/// Every primitive's sentinel matches its return shape: a null reference
/// exactly for the stream-handle primitives, the integer `-1` for the rest.
pub proof fn lemma_sentinel_matches_shape(p: Primitive)
    ensures
        p.sentinel_spec() == Sentinel::NullHandle <==> p.yields_handle(),
        p.sentinel_spec() == Sentinel::NegativeOne <==> !p.yields_handle(),
{
}

/// What a guarded replacement does for one call.
#[derive(Clone, Copy, Debug, PartialEq, Eq, Structural)]
pub enum Action {
    /// Refuse the call: write `errno` into the calling thread's error cell
    /// and return `sentinel`, without invoking the real primitive.
    Deny { sentinel: Sentinel, errno: i32 },
    /// Invoke the real primitive with the original arguments, unmodified,
    /// and return its result verbatim.
    Delegate,
}

/// The action a guarded replacement for primitive `p` takes on one call,
/// against the guard `g`: on a denial, the primitive's own failure sentinel
/// and the permission-denied error number; otherwise delegation.
pub open spec fn action_of(g: Seq<u8>, p: Primitive, probe: Probe) -> Action {
    if verdict_against(g, probe) == Verdict::Deny {
        Action::Deny { sentinel: p.sentinel_spec(), errno: PERMISSION_DENIED }
    } else {
        Action::Delegate
    }
}

/// Decides what the guarded replacement for primitive `p` must do for one
/// call, as `action_of` states.
pub fn entry_action(guard: &Vec<u8>, p: &Primitive, probe: &Probe) -> (a: Action)
    ensures
        a == action_of(guard@, *p, *probe),
{
    match decide_against(guard, probe) {
        Verdict::Deny => Action::Deny { sentinel: p.sentinel(), errno: deny_errno() },
        Verdict::Allow => Action::Delegate,
    }
}

/// On a denied pathname, every guarded entry point refuses with its own
/// native failure sentinel and the permission-denied error number, and the
/// real primitive is never invoked.
pub proof fn lemma_denied_entry_refuses(g: Seq<u8>, p: Primitive, probe: Probe)
    requires
        verdict_against(g, probe) == Verdict::Deny,
    ensures
        action_of(g, p, probe) == (Action::Deny {
            sentinel: p.sentinel_spec(),
            errno: PERMISSION_DENIED,
        }),
{
}

/// On an allowed pathname, every guarded entry point delegates to the real
/// primitive with the original arguments and passes its result through.
pub proof fn lemma_allowed_entry_delegates(g: Seq<u8>, p: Primitive, probe: Probe)
    requires
        verdict_against(g, probe) == Verdict::Allow,
    ensures
        action_of(g, p, probe) == Action::Delegate,
{
}

} // verus!
