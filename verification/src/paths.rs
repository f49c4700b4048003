//! Byte-level path algebra.
//!
//! Pathnames are handled as raw byte sequences, so no information is lost on
//! names that are not valid Unicode. A path in canonical form is absolute,
//! contains no `.` or `..` components and no repeated or trailing separators.
//! The functions here split a raw path at its last separator and resolve a
//! list of trailing components against a canonical base, popping one
//! component for each `..`, so that a path whose tail does not exist yet can
//! still be judged against the guarded directory.

use vstd::prelude::*;

verus! {

/// The path separator byte, `/`.
pub const SLASH: u8 = 47;

/// The `.` byte.
pub const DOT: u8 = 46;

/// The one-component path `.`: the current directory, resolved to nothing.
pub open spec fn dot_comp() -> Seq<u8> {
    seq![DOT]
}

/// The one-component path `..`: one step up.
pub open spec fn dotdot_comp() -> Seq<u8> {
    seq![DOT, DOT]
}

/// Drops trailing bytes up to (and keeping) the last separator; the whole
/// sequence shrinks to empty when it holds no separator at all.
pub open spec fn chop_name(p: Seq<u8>) -> Seq<u8>
    decreases p.len(),
{
    if p.len() == 0 {
        p
    } else if p[p.len() - 1] == SLASH {
        p
    } else {
        chop_name(p.drop_last())
    }
}

/// The bytes after the last separator (the whole sequence when it has none).
pub open spec fn base_name(p: Seq<u8>) -> Seq<u8> {
    p.skip(chop_name(p).len() as int)
}

/// The parent of an absolute path in canonical form: everything before the
/// last separator, with the root `/` as its own parent.
pub open spec fn parent_of(p: Seq<u8>) -> Seq<u8> {
    if chop_name(p).len() <= 1 {
        seq![SLASH]
    } else {
        chop_name(p).drop_last()
    }
}

/// Appends one component under a canonical base, without doubling the
/// separator when the base is the root.
pub open spec fn child_of(base: Seq<u8>, name: Seq<u8>) -> Seq<u8> {
    if base == seq![SLASH] {
        base + name
    } else {
        base + seq![SLASH] + name
    }
}

/// One resolution step: empty components and `.` resolve to the base itself,
/// `..` to its parent, and any other component to a child.
pub open spec fn step(base: Seq<u8>, c: Seq<u8>) -> Seq<u8> {
    if c.len() == 0 || c == dot_comp() {
        base
    } else if c == dotdot_comp() {
        parent_of(base)
    } else {
        child_of(base, c)
    }
}

/// Resolves a list of components against a canonical base, left to right.
pub open spec fn resolve(base: Seq<u8>, suffix: Seq<Seq<u8>>) -> Seq<u8>
    decreases suffix.len(),
{
    if suffix.len() == 0 {
        base
    } else {
        resolve(step(base, suffix[0]), suffix.drop_first())
    }
}

/// The views of a list of byte vectors.
pub open spec fn views(s: Seq<Vec<u8>>) -> Seq<Seq<u8>> {
    s.map_values(|v: Vec<u8>| v@)
}

/// Resolving one more component at the end is one more step.
pub proof fn lemma_resolve_snoc(base: Seq<u8>, suffix: Seq<Seq<u8>>, c: Seq<u8>)
    ensures
        resolve(base, suffix.push(c)) == step(resolve(base, suffix), c),
    decreases suffix.len(),
{
    let s = suffix.push(c);
    if suffix.len() == 0 {
        assert(s[0] == c);
        assert(s.drop_first() =~~= suffix);
        assert(resolve(base, s) == resolve(step(base, c), suffix));
        assert(resolve(step(base, c), suffix) == step(base, c));
        assert(resolve(base, suffix) == base);
    } else {
        assert(s[0] == suffix[0]);
        assert(s.drop_first() =~~= suffix.drop_first().push(c));
        lemma_resolve_snoc(step(base, suffix[0]), suffix.drop_first(), c);
        assert(resolve(base, s) == resolve(step(base, suffix[0]), s.drop_first()));
        assert(resolve(base, suffix) == resolve(step(base, suffix[0]), suffix.drop_first()));
    }
}

/// A `..` component at the front of the suffix steps the base up to its
/// parent: a traversal sequence resolves exactly as its target would.
pub proof fn lemma_dotdot_steps_up(base: Seq<u8>, rest: Seq<Seq<u8>>)
    ensures
        resolve(base, seq![dotdot_comp()] + rest) == resolve(parent_of(base), rest),
{
    let s = seq![dotdot_comp()] + rest;
    assert(s[0] == dotdot_comp());
    assert(s.drop_first() =~~= rest);
}

/// Scans for the position just after the last separator: returns `k` such
/// that `chop_name(p@) == p@.take(k)`.
fn find_chop(p: &Vec<u8>) -> (k: usize)
    ensures
        k <= p@.len(),
        chop_name(p@) == p@.take(k as int),
        k > 0 ==> p@[k - 1] == SLASH,
{
    let mut i: usize = p.len();
    proof {
        assert(p@.take(i as int) =~= p@);
    }
    while i > 0 && p[i - 1] != SLASH
        invariant
            i <= p@.len(),
            chop_name(p@) == chop_name(p@.take(i as int)),
        decreases i,
    {
        proof {
            assert(p@.take(i as int).drop_last() =~= p@.take(i - 1));
        }
        i = i - 1;
    }
    proof {
        if i > 0 {
            assert(p@.take(i as int)[i - 1] == SLASH);
        }
        assert(chop_name(p@.take(i as int)) == p@.take(i as int));
    }
    i
}

/// Splits a raw path at its last separator into the text before it and the
/// name after it; `None` when the path holds no separator at all (a bare
/// name, relative to the current directory).
pub fn split_last(p: &Vec<u8>) -> (r: Option<(Vec<u8>, Vec<u8>)>)
    ensures
        match r {
            Some(pair) => chop_name(p@).len() > 0 && pair.0@ == parent_of(p@) && pair.1@
                == base_name(p@),
            None => chop_name(p@).len() == 0,
        },
{
    let k = find_chop(p);
    if k == 0 {
        return None;
    }
    let mut par: Vec<u8> = Vec::new();
    if k == 1 {
        par.push(SLASH);
        proof {
            assert(par@ =~= seq![SLASH]);
        }
    } else {
        let mut j: usize = 0;
        while j < k - 1
            invariant
                j <= k - 1,
                k <= p@.len(),
                par@ == p@.take(j as int),
            decreases k - 1 - j,
        {
            par.push(p[j]);
            proof {
                assert(p@.take(j + 1 as int) =~= p@.take(j as int).push(p@[j as int]));
            }
            j = j + 1;
        }
        proof {
            assert(chop_name(p@).drop_last() =~= p@.take(k - 1 as int));
        }
    }
    let mut name: Vec<u8> = Vec::new();
    let mut j: usize = k;
    while j < p.len()
        invariant
            k <= j <= p@.len(),
            name@ == p@.subrange(k as int, j as int),
        decreases p@.len() - j,
    {
        name.push(p[j]);
        proof {
            assert(p@.subrange(k as int, j + 1 as int) =~= p@.subrange(k as int, j as int).push(
                p@[j as int],
            ));
        }
        j = j + 1;
    }
    proof {
        assert(name@ =~= base_name(p@));
    }
    Some((par, name))
}

/// The parent of a path, as `parent_of` gives it.
pub fn parent(p: &Vec<u8>) -> (q: Vec<u8>)
    ensures
        q@ == parent_of(p@),
{
    match split_last(p) {
        Some(pair) => pair.0,
        None => {
            let mut q: Vec<u8> = Vec::new();
            q.push(SLASH);
            proof {
                assert(q@ =~= seq![SLASH]);
            }
            q
        },
    }
}

/// Whether a path is exactly the root `/`.
fn is_root(p: &Vec<u8>) -> (b: bool)
    ensures
        b == (p@ == seq![SLASH]),
{
    let r = p.len() == 1 && p[0] == SLASH;
    proof {
        if r {
            assert(p@ =~= seq![SLASH]);
        }
    }
    r
}

/// Whether a component is empty or the `.` component.
fn is_here(c: &Vec<u8>) -> (b: bool)
    ensures
        b == (c@.len() == 0 || c@ == dot_comp()),
{
    let r = c.len() == 0 || (c.len() == 1 && c[0] == DOT);
    proof {
        if c@.len() == 1 && c@[0] == DOT {
            assert(c@ =~= dot_comp());
        }
    }
    r
}

/// Whether a component is the `..` component.
fn is_up(c: &Vec<u8>) -> (b: bool)
    ensures
        b == (c@ == dotdot_comp()),
{
    let r = c.len() == 2 && c[0] == DOT && c[1] == DOT;
    proof {
        if r {
            assert(c@ =~= dotdot_comp());
        }
    }
    r
}

/// Appends one component under a base, as `child_of` gives it.
fn child(base: &Vec<u8>, name: &Vec<u8>) -> (r: Vec<u8>)
    ensures
        r@ == child_of(base@, name@),
{
    let mut r: Vec<u8> = Vec::new();
    r.extend_from_slice(base.as_slice());
    if !is_root(base) {
        r.push(SLASH);
    }
    r.extend_from_slice(name.as_slice());
    proof {
        if base@ == seq![SLASH] {
            assert(r@ =~= base@ + name@);
        } else {
            assert(r@ =~= base@ + seq![SLASH] + name@);
        }
    }
    r
}

/// Resolves a list of components against a canonical base, as `resolve`
/// gives it: `.` and empty components are dropped, `..` pops to the parent,
/// anything else descends.
pub fn resolve_under(base: &Vec<u8>, suffix: &Vec<Vec<u8>>) -> (r: Vec<u8>)
    ensures
        r@ == resolve(base@, views(suffix@)),
{
    let ghost all = views(suffix@);
    let mut cur: Vec<u8> = Vec::new();
    cur.extend_from_slice(base.as_slice());
    proof {
        assert(cur@ =~= base@);
        assert(all.take(0) =~~= Seq::<Seq<u8>>::empty());
    }
    let mut i: usize = 0;
    while i < suffix.len()
        invariant
            i <= suffix@.len(),
            all == views(suffix@),
            cur@ == resolve(base@, all.take(i as int)),
        decreases suffix@.len() - i,
    {
        let c = &suffix[i];
        proof {
            assert(all[i as int] == c@);
            assert(all.take(i + 1 as int) =~~= all.take(i as int).push(c@));
            lemma_resolve_snoc(base@, all.take(i as int), c@);
        }
        if is_here(c) {
            // the base stands
        } else if is_up(c) {
            cur = parent(&cur);
        } else {
            cur = child(&cur, c);
        }
        i = i + 1;
    }
    proof {
        assert(all.take(suffix@.len() as int) =~~= all);
    }
    cur
}

} // verus!
