//! Bonds, angles and dihedral angles between particles, each stored in a
//! canonical orientation so that two constructions of the same physical term
//! compare equal.
use vstd::prelude::*;

verus! {

/// A `Bond` between the particles at indexes `i` and `j`, with `i < j`.
#[derive(Clone, Copy, Debug, PartialEq, Eq, Structural, PartialOrd, Ord, Hash)]
pub struct Bond {
    i: usize,
    j: usize,
}

/// Smallest of two indexes.
pub open spec fn min_index(a: usize, b: usize) -> usize {
    if a <= b { a } else { b }
}

/// Largest of two indexes.
pub open spec fn max_index(a: usize, b: usize) -> usize {
    if a <= b { b } else { a }
}

impl Bond {
    /// The canonical bond between `first` and `second`.
    pub closed spec fn spec_new(first: usize, second: usize) -> Bond {
        Bond { i: min_index(first, second), j: max_index(first, second) }
    }

    pub closed spec fn spec_i(&self) -> usize {
        self.i
    }

    pub closed spec fn spec_j(&self) -> usize {
        self.j
    }

    /// Whether this bond joins `a` and `b`, in either order.
    pub open spec fn joins(&self, a: usize, b: usize) -> bool {
        (self.spec_i() == a && self.spec_j() == b) || (self.spec_i() == b && self.spec_j() == a)
    }

    /// Create a new bond between the particles at indexes `first` and `second`.
    pub fn new(first: usize, second: usize) -> (r: Bond)
        requires
            first != second,
        ensures
            r == Bond::spec_new(first, second),
            r.i() == min_index(first, second),
            r.j() == max_index(first, second),
    {
        if first < second {
            Bond { i: first, j: second }
        } else {
            Bond { i: second, j: first }
        }
    }

    /// The first (smallest) particle of the bond.
    #[verifier::when_used_as_spec(spec_i)]
    pub fn i(&self) -> (r: usize)
        ensures
            r == self.spec_i(),
    {
        self.i
    }

    /// The second (largest) particle of the bond.
    #[verifier::when_used_as_spec(spec_j)]
    pub fn j(&self) -> (r: usize)
        ensures
            r == self.spec_j(),
    {
        self.j
    }
}

/// An `Angle` formed by the particles at indexes `i`, `j` and `k`, with `j`
/// the vertex and `i < k`.
#[derive(Clone, Copy, Debug, PartialEq, Eq, Structural, Hash)]
pub struct Angle {
    i: usize,
    j: usize,
    k: usize,
}

impl Angle {
    /// The canonical angle `first`-`second`-`third`, with vertex `second`.
    pub closed spec fn spec_new(first: usize, second: usize, third: usize) -> Angle {
        Angle { i: min_index(first, third), j: second, k: max_index(first, third) }
    }

    pub closed spec fn spec_i(&self) -> usize {
        self.i
    }

    pub closed spec fn spec_j(&self) -> usize {
        self.j
    }

    pub closed spec fn spec_k(&self) -> usize {
        self.k
    }

    /// Create a new angle between the particles at indexes `first`, `second`
    /// and `third`; `second` is the vertex.
    pub fn new(first: usize, second: usize, third: usize) -> (r: Angle)
        requires
            first != second,
            first != third,
            second != third,
        ensures
            r == Angle::spec_new(first, second, third),
            r.i() == min_index(first, third),
            r.j() == second,
            r.k() == max_index(first, third),
    {
        if first < third {
            Angle { i: first, j: second, k: third }
        } else {
            Angle { i: third, j: second, k: first }
        }
    }

    /// The first end of the angle.
    #[verifier::when_used_as_spec(spec_i)]
    pub fn i(&self) -> (r: usize)
        ensures
            r == self.spec_i(),
    {
        self.i
    }

    /// The vertex of the angle.
    #[verifier::when_used_as_spec(spec_j)]
    pub fn j(&self) -> (r: usize)
        ensures
            r == self.spec_j(),
    {
        self.j
    }

    /// The second end of the angle.
    #[verifier::when_used_as_spec(spec_k)]
    pub fn k(&self) -> (r: usize)
        ensures
            r == self.spec_k(),
    {
        self.k
    }
}

/// A `Dihedral` angle formed by the chain of particles `i`-`j`-`k`-`m`.
#[derive(Clone, Copy, Debug, PartialEq, Eq, Structural, Hash)]
pub struct Dihedral {
    i: usize,
    j: usize,
    k: usize,
    m: usize,
}

impl Dihedral {
    /// The canonical dihedral: the chain as given when the largest index of
    /// its first bond is below the largest index of its last bond, else the
    /// reversed chain.
    pub closed spec fn spec_new(first: usize, second: usize, third: usize, fourth: usize) -> Dihedral {
        if max_index(first, second) < max_index(third, fourth) {
            Dihedral { i: first, j: second, k: third, m: fourth }
        } else {
            Dihedral { i: fourth, j: third, k: second, m: first }
        }
    }

    pub closed spec fn spec_i(&self) -> usize {
        self.i
    }

    pub closed spec fn spec_j(&self) -> usize {
        self.j
    }

    pub closed spec fn spec_k(&self) -> usize {
        self.k
    }

    pub closed spec fn spec_m(&self) -> usize {
        self.m
    }

    /// Create a new dihedral angle along the chain `first`-`second`-`third`-`fourth`.
    pub fn new(first: usize, second: usize, third: usize, fourth: usize) -> (r: Dihedral)
        requires
            first != second,
            second != third,
            third != fourth,
        ensures
            r == Dihedral::spec_new(first, second, third, fourth),
            max_index(first, second) < max_index(third, fourth) ==> (r.i() == first && r.j()
                == second && r.k() == third && r.m() == fourth),
            max_index(first, second) >= max_index(third, fourth) ==> (r.i() == fourth && r.j()
                == third && r.k() == second && r.m() == first),
    {
        let a = if first < second { second } else { first };
        let b = if third < fourth { fourth } else { third };
        if a < b {
            Dihedral { i: first, j: second, k: third, m: fourth }
        } else {
            Dihedral { i: fourth, j: third, k: second, m: first }
        }
    }

    /// The first particle of the chain.
    #[verifier::when_used_as_spec(spec_i)]
    pub fn i(&self) -> (r: usize)
        ensures
            r == self.spec_i(),
    {
        self.i
    }

    /// The second particle of the chain.
    #[verifier::when_used_as_spec(spec_j)]
    pub fn j(&self) -> (r: usize)
        ensures
            r == self.spec_j(),
    {
        self.j
    }

    /// The third particle of the chain.
    #[verifier::when_used_as_spec(spec_k)]
    pub fn k(&self) -> (r: usize)
        ensures
            r == self.spec_k(),
    {
        self.k
    }

    /// The fourth particle of the chain.
    #[verifier::when_used_as_spec(spec_m)]
    pub fn m(&self) -> (r: usize)
        ensures
            r == self.spec_m(),
    {
        self.m
    }
}

/// A bond does not depend on the order of its two particles.
pub proof fn lemma_bond_order_independent(a: usize, b: usize)
    requires
        a != b,
    ensures
        Bond::spec_new(a, b) == Bond::spec_new(b, a),
{
}

/// An angle does not depend on the order of its two ends, and its vertex is
/// always the second particle given.
pub proof fn lemma_angle_ends_order_independent(a: usize, b: usize, c: usize)
    requires
        a != b,
        a != c,
        b != c,
    ensures
        Angle::spec_new(a, b, c) == Angle::spec_new(c, b, a),
        Angle::spec_new(a, b, c).spec_j() == b,
{
}

/// A dihedral angle and the reversed chain are the same dihedral angle,
/// whenever the largest particle of the first bond differs from the largest
/// particle of the last bond (always so when the four particles differ).
pub proof fn lemma_dihedral_reversal(a: usize, b: usize, c: usize, d: usize)
    requires
        a != b,
        b != c,
        c != d,
        max_index(a, b) != max_index(c, d),
    ensures
        Dihedral::spec_new(a, b, c, d) == Dihedral::spec_new(d, c, b, a),
{
}

} // verus!
