//! Topological distance between two particles of a molecule, derived from the
//! bonds between particles.
use vstd::prelude::*;

use crate::topology::Bond;

verus! {

/// The set of topological distances that separate two particles: one, two
/// or three bonds, or more than three (`far`). In a molecule with rings two
/// particles can be separated by several distances at once.
#[derive(Clone, Copy, Debug, PartialEq, Eq, Structural, Hash)]
pub struct Connectivity {
    /// The particles are separated by one bond.
    pub bond12: bool,
    /// The particles are separated by two bonds.
    pub bond13: bool,
    /// The particles are separated by three bonds.
    pub bond14: bool,
    /// The particles are separated by more than three bonds, or not linked.
    pub far: bool,
}

impl Connectivity {
    /// The connectivity of two particles not linked within three bonds.
    pub open spec fn spec_far() -> Connectivity {
        Connectivity { bond12: false, bond13: false, bond14: false, far: true }
    }
}

impl Default for Connectivity {
    fn default() -> (r: Connectivity)
        ensures
            r == Connectivity::spec_far(),
    {
        Connectivity { bond12: false, bond13: false, bond14: false, far: true }
    }
}

/// Some bond of `bonds` joins `a` and `b`.
pub open spec fn linked(bonds: Seq<Bond>, a: usize, b: usize) -> bool {
    exists|k: int| 0 <= k < bonds.len() && #[trigger] bonds[k].joins(a, b)
}

/// A path of two bonds through three distinct particles joins `a` and `c`.
pub open spec fn linked_by_two(bonds: Seq<Bond>, a: usize, c: usize) -> bool {
    exists|x: usize|
        a != c && x != a && x != c && #[trigger] linked(bonds, a, x) && linked(bonds, x, c)
}

/// A path of three bonds through four distinct particles joins `a` and `d`.
pub open spec fn linked_by_three(bonds: Seq<Bond>, a: usize, d: usize) -> bool {
    exists|x: usize, y: usize|
        a != d && x != a && x != d && y != a && y != d && x != y && #[trigger] linked(
            bonds,
            a,
            x,
        ) && #[trigger] linked(bonds, x, y) && linked(bonds, y, d)
}

/// The connectivity of the particles `a` and `b` in the molecule made of
/// `bonds`: every distance of one, two or three bonds realised by some path,
/// and `far` where there is none.
pub open spec fn connectivity_of(bonds: Seq<Bond>, a: usize, b: usize) -> Connectivity {
    let c12 = linked(bonds, a, b);
    let c13 = linked_by_two(bonds, a, b);
    let c14 = linked_by_three(bonds, a, b);
    Connectivity { bond12: c12, bond13: c13, bond14: c14, far: !c12 && !c13 && !c14 }
}

/// The particle that `bond` joins to `a`, if `bond` touches `a`.
fn other_end(bond: &Bond, a: usize) -> (r: Option<usize>)
    ensures
        forall|x: usize| #[trigger] bond.joins(a, x) <==> r == Some(x),
{
    if bond.i() == a {
        Some(bond.j())
    } else if bond.j() == a {
        Some(bond.i())
    } else {
        None
    }
}

/// Whether some bond of `bonds` joins `a` and `b`.
fn is_linked(bonds: &Vec<Bond>, a: usize, b: usize) -> (r: bool)
    ensures
        r == linked(bonds@, a, b),
{
    let mut k: usize = 0;
    while k < bonds.len()
        invariant
            k <= bonds.len(),
            forall|q: int| 0 <= q < k ==> !(#[trigger] bonds@[q].joins(a, b)),
        decreases bonds.len() - k,
    {
        if bonds[k].i() == a && bonds[k].j() == b || bonds[k].i() == b && bonds[k].j() == a {
            assert(bonds@[k as int].joins(a, b));
            return true;
        }
        k += 1;
    }
    false
}

/// Whether a path of two bonds joins `a` and `c`.
fn is_linked_by_two(bonds: &Vec<Bond>, a: usize, c: usize) -> (r: bool)
    ensures
        r == linked_by_two(bonds@, a, c),
{
    if a == c {
        return false;
    }
    let mut p: usize = 0;
    while p < bonds.len()
        invariant
            p <= bonds.len(),
            a != c,
            forall|q: int, x: usize|
                0 <= q < p && #[trigger] bonds@[q].joins(a, x) && x != a && x != c ==> !linked(
                    bonds@,
                    x,
                    c,
                ),
        decreases bonds.len() - p,
    {
        if let Some(x) = other_end(&bonds[p], a) {
            if x != a && x != c && is_linked(bonds, x, c) {
                assert(linked(bonds@, a, x)) by {
                    assert(bonds@[p as int].joins(a, x));
                }
                return true;
            }
        }
        p += 1;
    }
    assert forall|x: usize| x != a && x != c && #[trigger] linked(bonds@, a, x) implies !linked(
        bonds@,
        x,
        c,
    ) by {
        let q = choose|q: int| 0 <= q < bonds@.len() && #[trigger] bonds@[q].joins(a, x);
        assert(bonds@[q].joins(a, x));
    }
    false
}

/// Whether a path of three bonds through distinct particles joins `a` and `d`.
fn is_linked_by_three(bonds: &Vec<Bond>, a: usize, d: usize) -> (r: bool)
    ensures
        r == linked_by_three(bonds@, a, d),
{
    if a == d {
        return false;
    }
    let mut p: usize = 0;
    while p < bonds.len()
        invariant
            p <= bonds.len(),
            a != d,
            forall|q: int, x: usize, y: usize|
                0 <= q < p && #[trigger] bonds@[q].joins(a, x) && x != a && x != d && y != a && y
                    != d && x != y && #[trigger] linked(bonds@, x, y) ==> !linked(bonds@, y, d),
        decreases bonds.len() - p,
    {
        if let Some(x) = other_end(&bonds[p], a) {
            if x != a && x != d {
                let mut s: usize = 0;
                while s < bonds.len()
                    invariant
                        p < bonds.len(),
                        s <= bonds.len(),
                        a != d,
                        x != a,
                        x != d,
                        bonds@[p as int].joins(a, x),
                        forall|q: int, x: usize, y: usize|
                            0 <= q < p && #[trigger] bonds@[q].joins(a, x) && x != a && x != d && y
                                != a && y != d && x != y && #[trigger] linked(bonds@, x, y)
                                ==> !linked(bonds@, y, d),
                        forall|t: int, y: usize|
                            0 <= t < s && #[trigger] bonds@[t].joins(x, y) && y != a && y != d && x
                                != y ==> !linked(bonds@, y, d),
                    decreases bonds.len() - s,
                {
                    if let Some(y) = other_end(&bonds[s], x) {
                        if y != a && y != d && y != x && is_linked(bonds, y, d) {
                            assert(linked(bonds@, a, x)) by {
                                assert(bonds@[p as int].joins(a, x));
                            }
                            assert(linked(bonds@, x, y)) by {
                                assert(bonds@[s as int].joins(x, y));
                            }
                            return true;
                        }
                    }
                    s += 1;
                }
                assert forall|q: int, x2: usize, y: usize|
                    0 <= q < p + 1 && #[trigger] bonds@[q].joins(a, x2) && x2 != a && x2 != d && y
                        != a && y != d && x2 != y && #[trigger] linked(bonds@, x2, y) implies !linked(
                    bonds@,
                    y,
                    d,
                ) by {
                    if q == p {
                        assert(x2 == x);
                        let t = choose|t: int| 0 <= t < bonds@.len() && #[trigger] bonds@[t].joins(x, y);
                        assert(bonds@[t].joins(x, y));
                    }
                }
            }
        }
        p += 1;
    }
    assert forall|x: usize, y: usize|
        x != a && x != d && y != a && y != d && x != y && #[trigger] linked(bonds@, a, x)
            && #[trigger] linked(bonds@, x, y) implies !linked(bonds@, y, d) by {
        let q = choose|q: int| 0 <= q < bonds@.len() && #[trigger] bonds@[q].joins(a, x);
        assert(bonds@[q].joins(a, x));
    }
    false
}

/// Classify the topological distance between the particles `i` and `j` in
/// the molecule made of `bonds`.
pub fn classify(bonds: &Vec<Bond>, i: usize, j: usize) -> (r: Connectivity)
    ensures
        r == connectivity_of(bonds@, i, j),
{
    let c12 = is_linked(bonds, i, j);
    let c13 = is_linked_by_two(bonds, i, j);
    let c14 = is_linked_by_three(bonds, i, j);
    Connectivity { bond12: c12, bond13: c13, bond14: c14, far: !c12 && !c13 && !c14 }
}

/// The connectivity of two particles does not depend on their order.
pub proof fn lemma_classify_symmetric(bonds: Seq<Bond>, a: usize, b: usize)
    ensures
        connectivity_of(bonds, a, b) == connectivity_of(bonds, b, a),
{
    assert forall|u: usize, v: usize| #[trigger] linked(bonds, u, v) implies linked(bonds, v, u) by {
        let k = choose|k: int| 0 <= k < bonds.len() && #[trigger] bonds[k].joins(u, v);
        assert(bonds[k].joins(v, u));
    }
    if linked_by_two(bonds, a, b) {
        let x = choose|x: usize|
            a != b && x != a && x != b && #[trigger] linked(bonds, a, x) && linked(bonds, x, b);
        assert(linked(bonds, b, x) && linked(bonds, x, a));
    }
    if linked_by_two(bonds, b, a) {
        let x = choose|x: usize|
            b != a && x != b && x != a && #[trigger] linked(bonds, b, x) && linked(bonds, x, a);
        assert(linked(bonds, a, x) && linked(bonds, x, b));
    }
    if linked_by_three(bonds, a, b) {
        let (x, y) = choose|x: usize, y: usize|
            a != b && x != a && x != b && y != a && y != b && x != y && #[trigger] linked(
                bonds,
                a,
                x,
            ) && #[trigger] linked(bonds, x, y) && linked(bonds, y, b);
        assert(linked(bonds, b, y) && linked(bonds, y, x) && linked(bonds, x, a));
    }
    if linked_by_three(bonds, b, a) {
        let (x, y) = choose|x: usize, y: usize|
            b != a && x != b && x != a && y != b && y != a && x != y && #[trigger] linked(
                bonds,
                b,
                x,
            ) && #[trigger] linked(bonds, x, y) && linked(bonds, y, a);
        assert(linked(bonds, a, y) && linked(bonds, y, x) && linked(bonds, x, b));
    }
}

} // verus!
