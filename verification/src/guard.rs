//! The Path Guard: the per-call allow/deny decision.
//!
//! The guarded directory is `/var/run/secrets/kubernetes.io`, held as a byte
//! constant. A pathname is judged by whether the guarded directory is a
//! component-wise prefix of its canonical form: equality, or the guard
//! followed by a separator. A sibling whose name merely begins with the same
//! text (`kubernetes.io2`) is therefore allowed.
//!
//! All comparisons must run canonical against canonical, so the decision is
//! also offered with the guard as an argument ([`decide_against`]): the shim
//! canonicalizes the configured constant once at first use and judges every
//! call against that form, which keeps the guard effective when an ancestor
//! of the configured path is itself a symbolic link.
//!
//! The caller presents each intercepted call as a [`Probe`]: no pathname at
//! all, a pathname whose canonical form is known, or — for targets that do
//! not exist yet — the canonical form of the longest existing ancestor
//! together with the raw trailing components. The trailing components are
//! resolved lexically (`..` pops to the parent), which is sound because a
//! component that does not exist on disk cannot be a symbolic link.

use crate::paths::{resolve, views, SLASH};
use vstd::prelude::*;

verus! {

/// The guarded directory, `/var/run/secrets/kubernetes.io`, as bytes.
pub open spec fn guard_seq() -> Seq<u8> {
    seq![
        47u8, 118u8, 97u8, 114u8, 47u8, 114u8, 117u8, 110u8, 47u8, 115u8, 101u8, 99u8, 114u8,
        101u8, 116u8, 115u8, 47u8, 107u8, 117u8, 98u8, 101u8, 114u8, 110u8, 101u8, 116u8, 101u8,
        115u8, 46u8, 105u8, 111u8,
    ]
}

/// The guarded directory as an owned byte vector.
pub fn guard_dir() -> (g: Vec<u8>)
    ensures
        g@ == guard_seq(),
{
    let mut g: Vec<u8> = Vec::new();
    g.push(47);  // /
    g.push(118);  // v
    g.push(97);  // a
    g.push(114);  // r
    g.push(47);  // /
    g.push(114);  // r
    g.push(117);  // u
    g.push(110);  // n
    g.push(47);  // /
    g.push(115);  // s
    g.push(101);  // e
    g.push(99);  // c
    g.push(114);  // r
    g.push(101);  // e
    g.push(116);  // t
    g.push(115);  // s
    g.push(47);  // /
    g.push(107);  // k
    g.push(117);  // u
    g.push(98);  // b
    g.push(101);  // e
    g.push(114);  // r
    g.push(110);  // n
    g.push(101);  // e
    g.push(116);  // t
    g.push(101);  // e
    g.push(115);  // s
    g.push(46);  // .
    g.push(105);  // i
    g.push(111);  // o
    proof {
        assert(g@ =~= guard_seq());
    }
    g
}

/// Whether `g` is a component-wise prefix of `p`: `p` is `g` itself, or
/// continues past it with a separator.
pub open spec fn prefixed(g: Seq<u8>, p: Seq<u8>) -> bool {
    &&& p.len() >= g.len()
    &&& p.subrange(0, g.len() as int) == g
    &&& (p.len() == g.len() || p[g.len() as int] == SLASH)
}

/// Whether the guarded directory is a component-wise prefix of `p`.
pub open spec fn guarded(p: Seq<u8>) -> bool {
    prefixed(guard_seq(), p)
}

/// The guard's answer for one call.
#[derive(Clone, Copy, Debug, PartialEq, Eq, Structural)]
pub enum Verdict {
    /// Hand the call to the real primitive, unchanged.
    Allow,
    /// Refuse the call: report permission denied and return the primitive's
    /// failure sentinel; the real primitive is never invoked.
    Deny,
}

/// What one intercepted call presents to the guard.
pub enum Probe {
    /// The primitive carries no pathname (a null reference): the call works
    /// purely on a descriptor and is not judged here.
    NoPath,
    /// The pathname's canonical form: absolute, free of symbolic links and
    /// of `.` / `..` components.
    Canonical { path: Vec<u8> },
    /// The pathname names a target that does not exist yet: the canonical
    /// form of its longest existing ancestor, and the raw components after
    /// that ancestor, outermost first.
    Ancestry { ancestor: Vec<u8>, remainder: Vec<Vec<u8>> },
}

/// The verdict on a canonical pathname: denied exactly when the guard `g`
/// is a component-wise prefix of it.
pub open spec fn path_verdict(g: Seq<u8>, p: Seq<u8>) -> Verdict {
    if prefixed(g, p) {
        Verdict::Deny
    } else {
        Verdict::Allow
    }
}

/// The verdict on a not-yet-existing target: its trailing components are
/// resolved lexically against the canonical ancestor, then judged.
pub open spec fn pending_verdict(g: Seq<u8>, ancestor: Seq<u8>, remainder: Seq<Seq<u8>>) -> Verdict {
    path_verdict(g, resolve(ancestor, remainder))
}

/// The verdict on a whole probe, against the guard `g`.
pub open spec fn verdict_against(g: Seq<u8>, probe: Probe) -> Verdict {
    match probe {
        Probe::NoPath => Verdict::Allow,
        Probe::Canonical { path } => path_verdict(g, path@),
        Probe::Ancestry { ancestor, remainder } => pending_verdict(
            g,
            ancestor@,
            views(remainder@),
        ),
    }
}

/// The verdict on a whole probe, against the configured guarded directory.
pub open spec fn verdict_of(probe: Probe) -> Verdict {
    verdict_against(guard_seq(), probe)
}

/// Whether `g` is a component-wise prefix of `p`, as `prefixed` states.
pub fn is_prefixed(g: &Vec<u8>, p: &Vec<u8>) -> (b: bool)
    ensures
        b == prefixed(g@, p@),
{
    let glen = g.len();
    if p.len() < glen {
        return false;
    }
    let mut i: usize = 0;
    while i < glen
        invariant
            i <= glen,
            glen == g@.len(),
            glen <= p@.len(),
            forall|j: int| 0 <= j < i ==> p@[j] == g@[j],
        decreases glen - i,
    {
        if p[i] != g[i] {
            proof {
                assert(p@.subrange(0, g@.len() as int)[i as int] == p@[i as int]);
            }
            return false;
        }
        i = i + 1;
    }
    proof {
        assert(p@.subrange(0, g@.len() as int) =~= g@);
    }
    if p.len() == glen {
        true
    } else {
        p[glen] == SLASH
    }
}

/// Decides one intercepted call against the guard `guard`, which the caller
/// must already hold in canonical form.
pub fn decide_against(guard: &Vec<u8>, probe: &Probe) -> (v: Verdict)
    ensures
        v == verdict_against(guard@, *probe),
{
    match probe {
        Probe::NoPath => Verdict::Allow,
        Probe::Canonical { path } => {
            if is_prefixed(guard, path) {
                Verdict::Deny
            } else {
                Verdict::Allow
            }
        },
        Probe::Ancestry { ancestor, remainder } => {
            let full = crate::paths::resolve_under(ancestor, remainder);
            if is_prefixed(guard, &full) {
                Verdict::Deny
            } else {
                Verdict::Allow
            }
        },
    }
}

/// Decides one intercepted call against the configured guarded directory.
pub fn decide(probe: &Probe) -> (v: Verdict)
    ensures
        v == verdict_of(*probe),
{
    let guard = guard_dir();
    decide_against(&guard, probe)
}

/// A call with no pathname is always allowed, whatever the guard.
pub proof fn lemma_no_path_allows(g: Seq<u8>)
    ensures
        verdict_against(g, Probe::NoPath) == Verdict::Allow,
{
}

/// A canonical pathname lies under the guard exactly when it is the guard
/// itself or a descendant of it: the guard followed by a separator and any
/// trailing bytes.
pub proof fn lemma_prefixed_iff_descendant(g: Seq<u8>, p: Seq<u8>)
    ensures
        prefixed(g, p) <==> (p == g || (exists|rest: Seq<u8>| p == g + seq![SLASH] + rest)),
{
    let glen = g.len() as int;
    if prefixed(g, p) {
        if p.len() == g.len() {
            assert(p =~= g);
        } else {
            let rest = p.skip(glen + 1);
            assert(p =~= g + seq![SLASH] + rest) by {
                assert(forall|j: int| 0 <= j < glen ==> p[j] == #[trigger] p.subrange(0, glen)[j]);
            }
        }
    }
    if p == g {
        assert(p.subrange(0, glen) =~= g);
        assert(prefixed(g, p));
    }
    if exists|rest: Seq<u8>| p == g + seq![SLASH] + rest {
        let rest = choose|rest: Seq<u8>| p == g + seq![SLASH] + rest;
        assert(p.subrange(0, glen) =~= g);
        assert(p[glen] == SLASH);
        assert(prefixed(g, p));
    }
}

/// Every canonical pathname equal to, or a descendant of, the guard is
/// denied.
pub proof fn lemma_guarded_denied(g: Seq<u8>, p: Seq<u8>)
    requires
        p == g || (exists|rest: Seq<u8>| p == g + seq![SLASH] + rest),
    ensures
        path_verdict(g, p) == Verdict::Deny,
{
    lemma_prefixed_iff_descendant(g, p);
}

/// Every canonical pathname outside the guard is allowed, so the call is
/// handed to the real primitive unchanged.
pub proof fn lemma_outside_allowed(g: Seq<u8>, p: Seq<u8>)
    requires
        !prefixed(g, p),
    ensures
        path_verdict(g, p) == Verdict::Allow,
{
}

/// Prefix matching is component-wise: a pathname that continues past the
/// guard's text with anything but a separator — a sibling such as
/// `kubernetes.io2` beside a guard ending in `kubernetes.io` — is allowed.
pub proof fn lemma_sibling_allowed(g: Seq<u8>, tail: Seq<u8>)
    requires
        tail.len() > 0,
        tail[0] != SLASH,
    ensures
        path_verdict(g, g + tail) == Verdict::Allow,
{
    let p = g + tail;
    assert(p[g.len() as int] == tail[0]);
    assert(p.len() != g.len());
}

/// A not-yet-existing target whose trailing components — traversal steps
/// included — resolve to the guard or to a descendant of it is denied.
pub proof fn lemma_traversal_into_guard_denied(
    g: Seq<u8>,
    ancestor: Seq<u8>,
    remainder: Seq<Seq<u8>>,
)
    requires
        resolve(ancestor, remainder) == g || (exists|rest: Seq<u8>|
            resolve(ancestor, remainder) == g + seq![SLASH] + rest
        ),
    ensures
        pending_verdict(g, ancestor, remainder) == Verdict::Deny,
{
    lemma_guarded_denied(g, resolve(ancestor, remainder));
}

} // verus!
