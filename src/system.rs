//! The particle system that interactions are registered into, and the
//! reading of the interactions sections of a configuration document.
use vstd::prelude::*;

use crate::catalog::{
    read_angle_potential,
    read_coulomb_potential,
    read_dihedral_potential,
    read_pair_computation,
    read_pair_potential,
    read_restriction,
    spec_angle_potential,
    spec_coulomb_potential,
    spec_dihedral_potential,
    spec_pair_computation,
    spec_pair_potential,
    spec_restriction,
    AnglePotential,
    CoulombicPotential,
    DihedralPotential,
    PairPotential,
};
use crate::decimal::{decimal_of, parse_decimal, Decimal};
use crate::document::{same_text, Node};
use crate::error::{ConfigError, Error, Section};
use crate::restriction::PairRestriction;

verus! {

/// A particle, known to the interactions by its name.
#[derive(Clone, Debug, PartialEq, Eq)]
pub struct Particle {
    pub name: String,
    pub charge: Decimal,
}

/// A non-bonded interaction between the particles named `a` and `b`.
#[derive(Debug, PartialEq, Eq)]
pub struct PairInteraction {
    pub a: String,
    pub b: String,
    pub potential: PairPotential,
    pub restriction: Option<PairRestriction>,
}

/// A bond interaction between the particles named `a` and `b`.
#[derive(Debug, PartialEq, Eq)]
pub struct BondInteraction {
    pub a: String,
    pub b: String,
    pub potential: PairPotential,
}

/// An angle interaction between the particles named `a`, `b` and `c`.
#[derive(Debug, PartialEq, Eq)]
pub struct AngleInteraction {
    pub a: String,
    pub b: String,
    pub c: String,
    pub potential: AnglePotential,
}

/// A dihedral interaction between the particles named `a`, `b`, `c` and `d`.
#[derive(Debug, PartialEq, Eq)]
pub struct DihedralInteraction {
    pub a: String,
    pub b: String,
    pub c: String,
    pub d: String,
    pub potential: DihedralPotential,
}

/// The particles of a simulation and the interactions between them, keyed
/// by particle names.
#[derive(Debug)]
pub struct System {
    pub particles: Vec<Particle>,
    pub pair_interactions: Vec<PairInteraction>,
    pub bond_interactions: Vec<BondInteraction>,
    pub angle_interactions: Vec<AngleInteraction>,
    pub dihedral_interactions: Vec<DihedralInteraction>,
    pub coulomb: Option<CoulombicPotential>,
}

/// The particles, with `charge` given to each one named `name`.
pub open spec fn with_charge(particles: Seq<Particle>, name: Seq<char>, charge: Decimal) -> Seq<
    Particle,
> {
    particles.map_values(
        |p: Particle|
            if p.name@ == name {
                Particle { name: p.name, charge }
            } else {
                p
            },
    )
}

/// The number of particles named `name`.
pub open spec fn count_named(particles: Seq<Particle>, name: Seq<char>) -> nat
    decreases particles.len(),
{
    if particles.len() == 0 {
        0
    } else {
        count_named(particles.drop_last(), name) + if particles.last().name@ == name {
            1nat
        } else {
            0nat
        }
    }
}

impl System {
    /// An empty system.
    pub fn new() -> (r: System)
        ensures
            r.particles@.len() == 0,
            r.pair_interactions@.len() == 0,
            r.bond_interactions@.len() == 0,
            r.angle_interactions@.len() == 0,
            r.dihedral_interactions@.len() == 0,
            r.coulomb is None,
    {
        System {
            particles: Vec::new(),
            pair_interactions: Vec::new(),
            bond_interactions: Vec::new(),
            angle_interactions: Vec::new(),
            dihedral_interactions: Vec::new(),
            coulomb: None,
        }
    }

    /// Add a particle named `name`, with no charge.
    pub fn add_particle(&mut self, name: String)
        ensures
            final(self).particles@ == old(self).particles@.push(
                Particle { name, charge: Decimal { negative: false, digits: 0, scale: 0 } },
            ),
            final(self).pair_interactions@ == old(self).pair_interactions@,
            final(self).bond_interactions@ == old(self).bond_interactions@,
            final(self).angle_interactions@ == old(self).angle_interactions@,
            final(self).dihedral_interactions@ == old(self).dihedral_interactions@,
            final(self).coulomb == old(self).coulomb,
    {
        self.particles.push(Particle { name, charge: Decimal { negative: false, digits: 0, scale: 0 } });
    }
}

/// Give `charge` to every particle named `name`, and count them.
pub fn assign_charge(particles: &mut Vec<Particle>, name: &str, charge: Decimal) -> (n: usize)
    ensures
        final(particles)@ == with_charge(old(particles)@, name@, charge),
        n == count_named(old(particles)@, name@),
{
    let ghost start = particles@;
    let mut n: usize = 0;
    let mut i: usize = 0;
    while i < particles.len()
        invariant
            i <= particles@.len() == start.len(),
            n == count_named(start.subrange(0, i as int), name@),
            n <= i,
            forall|j: int|
                0 <= j < i ==> #[trigger] particles@[j] == with_charge(start, name@, charge)[j],
            forall|j: int| i <= j < start.len() ==> #[trigger] particles@[j] == start[j],
        decreases particles.len() - i,
    {
        assert(start.subrange(0, i + 1).drop_last() =~= start.subrange(0, i as int));
        if same_text(particles[i].name.as_str(), name) {
            particles[i].charge = charge;
            n += 1;
        }
        i += 1;
    }
    assert(start.subrange(0, i as int) =~= start);
    assert(particles@ =~= with_charge(start, name@, charge));
    n
}

/// The names of the atoms `items`, or the position of the first that is not
/// a string.
pub open spec fn atom_names(items: Seq<Node>) -> Result<Seq<String>, usize>
    decreases items.len(),
{
    if items.len() == 0 {
        Ok(Seq::empty())
    } else {
        match atom_names(items.drop_last()) {
            Err(p) => Err(p),
            Ok(names) => match items.last() {
                Node::Text(s) => Ok(names.push(s)),
                _ => Err((items.len() - 1) as usize),
            },
        }
    }
}

/// The `count` atom names of a record of `section`.
pub open spec fn spec_atoms(node: Node, section: Section, count: usize) -> Result<Seq<String>, Error> {
    match node.field("atoms"@) {
        Some(Node::List(items)) => if items@.len() != count {
            Err(Error::Config(ConfigError::WrongAtomCount { section, expected: count, found: items@.len() as usize }))
        } else {
            match atom_names(items@) {
                Ok(names) => Ok(names),
                Err(position) => Err(Error::Config(ConfigError::AtomNotText { section, position })),
            }
        },
        _ => Err(Error::Config(ConfigError::MissingAtoms { section })),
    }
}

/// Read the `count` atom names of a record of `section`.
pub fn read_atoms(node: &Node, section: Section, count: usize) -> (r: Result<Vec<String>, Error>)
    ensures
        match r {
            Ok(names) => spec_atoms(*node, section, count) == Ok::<Seq<String>, Error>(names@),
            Err(e) => spec_atoms(*node, section, count) == Err::<Seq<String>, Error>(e),
        },
        r matches Ok(names) ==> names@.len() == count,
{
    let atoms = match node.get("atoms") {
        Some(atoms) => atoms,
        None => return Err(Error::Config(ConfigError::MissingAtoms { section })),
    };
    let items = match atoms {
        Node::List(items) => items,
        _ => return Err(Error::Config(ConfigError::MissingAtoms { section })),
    };
    if items.len() != count {
        return Err(Error::Config(ConfigError::WrongAtomCount { section, expected: count, found: items.len() }));
    }
    let mut names: Vec<String> = Vec::new();
    let mut i: usize = 0;
    while i < items.len()
        invariant
            i <= items@.len(),
            atom_names(items@.subrange(0, i as int)) == Ok::<Seq<String>, usize>(names@),
            node.field("atoms"@) == Some(Node::List(*items)),
            items@.len() == count,
            names@.len() == i,
        decreases items.len() - i,
    {
        assert(items@.subrange(0, i + 1).drop_last() =~= items@.subrange(0, i as int));
        match &items[i] {
            Node::Text(s) => names.push(s.clone()),
            _ => {
                assert(atom_names(items@.subrange(0, i + 1)) == Err::<Seq<String>, usize>(i));
                proof {
                    lemma_atom_names_error_stays(items@, i + 1);
                }
                return Err(Error::Config(ConfigError::AtomNotText { section, position: i }));
            },
        }
        i += 1;
    }
    assert(items@.subrange(0, i as int) =~= items@);
    Ok(names)
}

proof fn lemma_atom_names_error_stays(items: Seq<Node>, n: int)
    requires
        0 <= n <= items.len(),
        atom_names(items.subrange(0, n)) is Err,
    ensures
        atom_names(items) == atom_names(items.subrange(0, n)),
    decreases items.len() - n,
{
    if n == items.len() {
        assert(items.subrange(0, n) =~= items);
    } else {
        assert(items.subrange(0, n + 1).drop_last() =~= items.subrange(0, n));
        lemma_atom_names_error_stays(items, n + 1);
    }
}

/// Read every entry of `entries` with `read`, stopping at the first error:
/// what was read before it, and the error if there is one.
pub open spec fn read_all<T>(entries: Seq<Node>, read: spec_fn(Node) -> Result<T, Error>) -> (
    Seq<T>,
    Option<Error>,
)
    decreases entries.len(),
{
    if entries.len() == 0 {
        (Seq::empty(), None)
    } else {
        let prev = read_all(entries.drop_last(), read);
        if prev.1 is Some {
            prev
        } else {
            match read(entries.last()) {
                Ok(x) => (prev.0.push(x), None),
                Err(e) => (prev.0, Some(e)),
            }
        }
    }
}

proof fn lemma_read_all_step<T>(entries: Seq<Node>, read: spec_fn(Node) -> Result<T, Error>, n: int)
    requires
        0 <= n < entries.len(),
    ensures
        read_all(entries.subrange(0, n + 1), read) == ({
            let prev = read_all(entries.subrange(0, n), read);
            if prev.1 is Some {
                prev
            } else {
                match read(entries[n]) {
                    Ok(x) => (prev.0.push(x), None),
                    Err(e) => (prev.0, Some(e)),
                }
            }
        }),
{
    assert(entries.subrange(0, n + 1).drop_last() =~= entries.subrange(0, n));
}

proof fn lemma_read_all_stops<T>(entries: Seq<Node>, read: spec_fn(Node) -> Result<T, Error>, n: int)
    requires
        0 <= n <= entries.len(),
        read_all(entries.subrange(0, n), read).1 is Some,
    ensures
        read_all(entries, read) == read_all(entries.subrange(0, n), read),
    decreases entries.len() - n,
{
    if n == entries.len() {
        assert(entries.subrange(0, n) =~= entries);
    } else {
        lemma_read_all_step(entries, read, n);
        lemma_read_all_stops(entries, read, n + 1);
    }
}

/// The restriction of a record, if it has a `restriction` mapping.
pub open spec fn spec_optional_restriction(node: Node) -> Result<Option<PairRestriction>, Error> {
    match node.field("restriction"@) {
        Some(r) => match r {
            Node::Hash(_) => match spec_restriction(r) {
                Ok(x) => Ok(Some(x)),
                Err(e) => Err(e),
            },
            _ => Ok(None),
        },
        None => Ok(None),
    }
}

fn read_optional_restriction(node: &Node) -> (r: Result<Option<PairRestriction>, Error>)
    ensures
        r == spec_optional_restriction(*node),
{
    match node.get_hash("restriction") {
        Some(n) => match read_restriction(n) {
            Ok(x) => Ok(Some(x)),
            Err(e) => Err(e),
        },
        None => Ok(None),
    }
}

/// `potential`, wrapped in the computation of a record if it has a
/// `computation` mapping.
pub open spec fn spec_optional_computation(node: Node, potential: PairPotential) -> Result<
    PairPotential,
    Error,
> {
    match node.field("computation"@) {
        Some(c) => match c {
            Node::Hash(_) => spec_pair_computation(c, potential),
            _ => Ok(potential),
        },
        None => Ok(potential),
    }
}

/// The interaction that an entry of the `pairs` or `bonds` sections
/// describes.
pub open spec fn spec_pair_entry(node: Node, section: Section) -> Result<PairInteraction, Error> {
    match spec_atoms(node, section, 2) {
        Err(e) => Err(e),
        Ok(names) => match spec_optional_restriction(node) {
            Err(e) => Err(e),
            Ok(restriction) => match spec_pair_potential(node) {
                Err(e) => Err(e),
                Ok(potential) => match spec_optional_computation(node, potential) {
                    Err(e) => Err(e),
                    Ok(potential) => Ok(
                        PairInteraction { a: names[0], b: names[1], potential, restriction },
                    ),
                },
            },
        },
    }
}

/// Read an entry of the `pairs` or `bonds` sections.
pub fn read_pair_entry(node: &Node, section: Section) -> (r: Result<PairInteraction, Error>)
    ensures
        r == spec_pair_entry(*node, section),
{
    let mut names = match read_atoms(node, section, 2) {
        Ok(names) => names,
        Err(e) => return Err(e),
    };
    let restriction = match read_optional_restriction(node) {
        Ok(r) => r,
        Err(e) => return Err(e),
    };
    let potential = match read_pair_potential(node) {
        Ok(p) => p,
        Err(e) => return Err(e),
    };
    let potential = match node.get_hash("computation") {
        Some(c) => match read_pair_computation(c, potential) {
            Ok(p) => p,
            Err(e) => return Err(e),
        },
        None => potential,
    };
    let ghost all = names@;
    let b = names.pop().unwrap();
    let a = names.pop().unwrap();
    assert(a == all[0] && b == all[1]);
    Ok(PairInteraction { a, b, potential, restriction })
}

/// The bond interaction that keeps the names and potential of `p`.
pub open spec fn bond_of(p: PairInteraction) -> BondInteraction {
    BondInteraction { a: p.a, b: p.b, potential: p.potential }
}

/// The section of errors in the pairs, or in the bonds.
pub open spec fn pair_section(pair_potentials: bool) -> Section {
    if pair_potentials {
        Section::Pairs
    } else {
        Section::Bonds
    }
}

/// Read the `pairs` section, or the `bonds` section, and register its
/// interactions in `system` up to the first entry in error.
pub fn read_pairs(system: &mut System, pairs: &Vec<Node>, pair_potentials: bool) -> (r: Result<(), Error>)
    ensures
        ({
            let section = pair_section(pair_potentials);
            let done = read_all(pairs@, |n: Node| spec_pair_entry(n, section));
            &&& match r {
                Ok(_) => done.1 is None,
                Err(e) => done.1 == Some(e),
            }
            &&& pair_potentials ==> final(system).pair_interactions@ == old(system).pair_interactions@
                + done.0 && final(system).bond_interactions@ == old(system).bond_interactions@
            &&& !pair_potentials ==> final(system).bond_interactions@ == old(system).bond_interactions@
                + done.0.map_values(|p: PairInteraction| bond_of(p))
                && final(system).pair_interactions@ == old(system).pair_interactions@
            &&& final(system).particles@ == old(system).particles@
            &&& final(system).angle_interactions@ == old(system).angle_interactions@
            &&& final(system).dihedral_interactions@ == old(system).dihedral_interactions@
            &&& final(system).coulomb == old(system).coulomb
        }),
{
    let section = if pair_potentials {
        Section::Pairs
    } else {
        Section::Bonds
    };
    let ghost read = |n: Node| spec_pair_entry(n, section);
    let mut i: usize = 0;
    while i < pairs.len()
        invariant
            i <= pairs@.len(),
            section == pair_section(pair_potentials),
            read == (|n: Node| spec_pair_entry(n, section)),
            read_all(pairs@.subrange(0, i as int), read).1 is None,
            pair_potentials ==> system.pair_interactions@ == old(system).pair_interactions@ + read_all(
                pairs@.subrange(0, i as int),
                read,
            ).0 && system.bond_interactions@ == old(system).bond_interactions@,
            !pair_potentials ==> system.bond_interactions@ == old(system).bond_interactions@
                + read_all(pairs@.subrange(0, i as int), read).0.map_values(
                |p: PairInteraction| bond_of(p),
            ) && system.pair_interactions@ == old(system).pair_interactions@,
            system.particles@ == old(system).particles@,
            system.angle_interactions@ == old(system).angle_interactions@,
            system.dihedral_interactions@ == old(system).dihedral_interactions@,
            system.coulomb == old(system).coulomb,
        decreases pairs.len() - i,
    {
        proof {
            lemma_read_all_step(pairs@, read, i as int);
        }
        let ghost before = read_all(pairs@.subrange(0, i as int), read).0;
        match read_pair_entry(&pairs[i], section) {
            Ok(p) => {
                if pair_potentials {
                    system.pair_interactions.push(p);
                } else {
                    system.bond_interactions.push(BondInteraction { a: p.a, b: p.b, potential: p.potential });
                    assert(before.push(p).map_values(|p: PairInteraction| bond_of(p)) =~= before.map_values(
                        |p: PairInteraction| bond_of(p),
                    ).push(bond_of(p)));
                }
            },
            Err(e) => {
                proof {
                    lemma_read_all_stops(pairs@, read, i + 1);
                }
                return Err(e);
            },
        }
        i += 1;
    }
    assert(pairs@.subrange(0, i as int) =~= pairs@);
    Ok(())
}

/// The interaction that an entry of the `angles` section describes.
pub open spec fn spec_angle_entry(node: Node) -> Result<AngleInteraction, Error> {
    match spec_atoms(node, Section::Angles, 3) {
        Err(e) => Err(e),
        Ok(names) => match spec_angle_potential(node) {
            Err(e) => Err(e),
            Ok(potential) => Ok(AngleInteraction { a: names[0], b: names[1], c: names[2], potential }),
        },
    }
}

/// Read an entry of the `angles` section.
pub fn read_angle_entry(node: &Node) -> (r: Result<AngleInteraction, Error>)
    ensures
        r == spec_angle_entry(*node),
{
    let mut names = match read_atoms(node, Section::Angles, 3) {
        Ok(names) => names,
        Err(e) => return Err(e),
    };
    let potential = match read_angle_potential(node) {
        Ok(p) => p,
        Err(e) => return Err(e),
    };
    let ghost all = names@;
    let c = names.pop().unwrap();
    let b = names.pop().unwrap();
    let a = names.pop().unwrap();
    assert(a == all[0] && b == all[1] && c == all[2]);
    Ok(AngleInteraction { a, b, c, potential })
}

/// The interaction that an entry of the `dihedrals` section describes.
pub open spec fn spec_dihedral_entry(node: Node) -> Result<DihedralInteraction, Error> {
    match spec_atoms(node, Section::Dihedrals, 4) {
        Err(e) => Err(e),
        Ok(names) => match spec_dihedral_potential(node) {
            Err(e) => Err(e),
            Ok(potential) => Ok(
                DihedralInteraction { a: names[0], b: names[1], c: names[2], d: names[3], potential },
            ),
        },
    }
}

/// Read an entry of the `dihedrals` section.
pub fn read_dihedral_entry(node: &Node) -> (r: Result<DihedralInteraction, Error>)
    ensures
        r == spec_dihedral_entry(*node),
{
    let mut names = match read_atoms(node, Section::Dihedrals, 4) {
        Ok(names) => names,
        Err(e) => return Err(e),
    };
    let potential = match read_dihedral_potential(node) {
        Ok(p) => p,
        Err(e) => return Err(e),
    };
    let ghost all = names@;
    let d = names.pop().unwrap();
    let c = names.pop().unwrap();
    let b = names.pop().unwrap();
    let a = names.pop().unwrap();
    assert(a == all[0] && b == all[1] && c == all[2] && d == all[3]);
    Ok(DihedralInteraction { a, b, c, d, potential })
}

/// Read the `angles` section, and register its interactions in `system` up
/// to the first entry in error.
pub fn read_angles(system: &mut System, angles: &Vec<Node>) -> (r: Result<(), Error>)
    ensures
        ({
            let done = read_all(angles@, |n: Node| spec_angle_entry(n));
            &&& match r {
                Ok(_) => done.1 is None,
                Err(e) => done.1 == Some(e),
            }
            &&& final(system).angle_interactions@ == old(system).angle_interactions@ + done.0
            &&& final(system).particles@ == old(system).particles@
            &&& final(system).pair_interactions@ == old(system).pair_interactions@
            &&& final(system).bond_interactions@ == old(system).bond_interactions@
            &&& final(system).dihedral_interactions@ == old(system).dihedral_interactions@
            &&& final(system).coulomb == old(system).coulomb
        }),
{
    let ghost read = |n: Node| spec_angle_entry(n);
    let mut i: usize = 0;
    while i < angles.len()
        invariant
            i <= angles@.len(),
            read == (|n: Node| spec_angle_entry(n)),
            read_all(angles@.subrange(0, i as int), read).1 is None,
            system.angle_interactions@ == old(system).angle_interactions@ + read_all(
                angles@.subrange(0, i as int),
                read,
            ).0,
            system.particles@ == old(system).particles@,
            system.pair_interactions@ == old(system).pair_interactions@,
            system.bond_interactions@ == old(system).bond_interactions@,
            system.dihedral_interactions@ == old(system).dihedral_interactions@,
            system.coulomb == old(system).coulomb,
        decreases angles.len() - i,
    {
        proof {
            lemma_read_all_step(angles@, read, i as int);
        }
        match read_angle_entry(&angles[i]) {
            Ok(a) => system.angle_interactions.push(a),
            Err(e) => {
                proof {
                    lemma_read_all_stops(angles@, read, i + 1);
                }
                return Err(e);
            },
        }
        i += 1;
    }
    assert(angles@.subrange(0, i as int) =~= angles@);
    Ok(())
}

/// Read the `dihedrals` section, and register its interactions in `system`
/// up to the first entry in error.
pub fn read_dihedrals(system: &mut System, dihedrals: &Vec<Node>) -> (r: Result<(), Error>)
    ensures
        ({
            let done = read_all(dihedrals@, |n: Node| spec_dihedral_entry(n));
            &&& match r {
                Ok(_) => done.1 is None,
                Err(e) => done.1 == Some(e),
            }
            &&& final(system).dihedral_interactions@ == old(system).dihedral_interactions@ + done.0
            &&& final(system).particles@ == old(system).particles@
            &&& final(system).pair_interactions@ == old(system).pair_interactions@
            &&& final(system).bond_interactions@ == old(system).bond_interactions@
            &&& final(system).angle_interactions@ == old(system).angle_interactions@
            &&& final(system).coulomb == old(system).coulomb
        }),
{
    let ghost read = |n: Node| spec_dihedral_entry(n);
    let mut i: usize = 0;
    while i < dihedrals.len()
        invariant
            i <= dihedrals@.len(),
            read == (|n: Node| spec_dihedral_entry(n)),
            read_all(dihedrals@.subrange(0, i as int), read).1 is None,
            system.dihedral_interactions@ == old(system).dihedral_interactions@ + read_all(
                dihedrals@.subrange(0, i as int),
                read,
            ).0,
            system.particles@ == old(system).particles@,
            system.pair_interactions@ == old(system).pair_interactions@,
            system.bond_interactions@ == old(system).bond_interactions@,
            system.angle_interactions@ == old(system).angle_interactions@,
            system.coulomb == old(system).coulomb,
        decreases dihedrals.len() - i,
    {
        proof {
            lemma_read_all_step(dihedrals@, read, i as int);
        }
        match read_dihedral_entry(&dihedrals[i]) {
            Ok(d) => system.dihedral_interactions.push(d),
            Err(e) => {
                proof {
                    lemma_read_all_stops(dihedrals@, read, i + 1);
                }
                return Err(e);
            },
        }
        i += 1;
    }
    assert(dihedrals@.subrange(0, i as int) =~= dihedrals@);
    Ok(())
}

/// The text of a string or real node.
pub open spec fn written_text(n: Node) -> Option<String> {
    match n {
        Node::Text(s) => Some(s),
        Node::Real(s) => Some(s),
        _ => None,
    }
}

/// The error for the unreadable entry `entry` at `position` of the
/// `charges` mapping.
pub open spec fn spec_bad_charge(entry: (Node, Node), position: usize) -> Error {
    Error::Config(
        ConfigError::BadCharge {
            position,
            name: match entry.0 {
                Node::Text(s) => Some(s),
                _ => None,
            },
            value: written_text(entry.1),
        },
    )
}

fn bad_charge(entry: &(Node, Node), position: usize) -> (e: Error)
    ensures
        e == spec_bad_charge(*entry, position),
{
    let name = match &entry.0 {
        Node::Text(s) => Some(s.clone()),
        _ => None,
    };
    let value = match &entry.1 {
        Node::Text(s) => Some(s.clone()),
        Node::Real(s) => Some(s.clone()),
        _ => None,
    };
    Error::Config(ConfigError::BadCharge { position, name, value })
}

/// The name and charge that the entry `entry` at `position` of the
/// `charges` mapping gives.
pub open spec fn spec_charge_entry(entry: (Node, Node), position: usize) -> Result<(String, Decimal), Error> {
    match (entry.0, entry.1) {
        (Node::Text(name), Node::Real(text)) => match decimal_of(text@) {
            Some(charge) => Ok((name, charge)),
            None => Err(spec_bad_charge(entry, position)),
        },
        _ => Err(spec_bad_charge(entry, position)),
    }
}

/// The particles after the charges `entries` are given in turn, stopping
/// at the first entry in error or naming no particle: the particles, and
/// the error if there is one.
pub open spec fn charge_all(particles: Seq<Particle>, entries: Seq<(Node, Node)>) -> (
    Seq<Particle>,
    Option<Error>,
)
    decreases entries.len(),
{
    if entries.len() == 0 {
        (particles, None)
    } else {
        let prev = charge_all(particles, entries.drop_last());
        if prev.1 is Some {
            prev
        } else {
            match spec_charge_entry(entries.last(), (entries.len() - 1) as usize) {
                Err(e) => (prev.0, Some(e)),
                Ok((name, charge)) => if count_named(prev.0, name@) == 0 {
                    (prev.0, Some(Error::Config(ConfigError::NoParticleNamed { name })))
                } else {
                    (with_charge(prev.0, name@, charge), None)
                },
            }
        }
    }
}

proof fn lemma_count_named_zero(particles: Seq<Particle>, name: Seq<char>)
    requires
        count_named(particles, name) == 0,
    ensures
        forall|i: int| 0 <= i < particles.len() ==> #[trigger] particles[i].name@ != name,
    decreases particles.len(),
{
    if particles.len() > 0 {
        lemma_count_named_zero(particles.drop_last(), name);
        assert forall|i: int| 0 <= i < particles.len() implies #[trigger] particles[i].name@ != name by {
            if i < particles.len() - 1 {
                assert(particles.drop_last()[i] == particles[i]);
            }
        }
    }
}

/// Giving a charge to a name that no particle has changes nothing.
proof fn lemma_charge_nobody(particles: Seq<Particle>, name: Seq<char>, charge: Decimal)
    requires
        count_named(particles, name) == 0,
    ensures
        with_charge(particles, name, charge) == particles,
{
    lemma_count_named_zero(particles, name);
    assert(with_charge(particles, name, charge) =~= particles);
}

proof fn lemma_charge_all_stops(particles: Seq<Particle>, entries: Seq<(Node, Node)>, n: int)
    requires
        0 <= n <= entries.len(),
        charge_all(particles, entries.subrange(0, n)).1 is Some,
    ensures
        charge_all(particles, entries) == charge_all(particles, entries.subrange(0, n)),
    decreases entries.len() - n,
{
    if n == entries.len() {
        assert(entries.subrange(0, n) =~= entries);
    } else {
        assert(entries.subrange(0, n + 1).drop_last() =~= entries.subrange(0, n));
        lemma_charge_all_stops(particles, entries, n + 1);
    }
}

/// Give the charges of the `charges` mapping to the particles of `system`
/// named in it, up to the first entry in error or naming no particle.
pub fn assign_charges(system: &mut System, charges: &Vec<(Node, Node)>) -> (r: Result<(), Error>)
    ensures
        ({
            let done = charge_all(old(system).particles@, charges@);
            &&& final(system).particles@ == done.0
            &&& match r {
                Ok(_) => done.1 is None,
                Err(e) => done.1 == Some(e),
            }
            &&& final(system).pair_interactions@ == old(system).pair_interactions@
            &&& final(system).bond_interactions@ == old(system).bond_interactions@
            &&& final(system).angle_interactions@ == old(system).angle_interactions@
            &&& final(system).dihedral_interactions@ == old(system).dihedral_interactions@
            &&& final(system).coulomb == old(system).coulomb
        }),
{
    let ghost start = system.particles@;
    let mut i: usize = 0;
    while i < charges.len()
        invariant
            i <= charges@.len(),
            charge_all(start, charges@.subrange(0, i as int)).1 is None,
            system.particles@ == charge_all(start, charges@.subrange(0, i as int)).0,
            system.pair_interactions@ == old(system).pair_interactions@,
            system.bond_interactions@ == old(system).bond_interactions@,
            system.angle_interactions@ == old(system).angle_interactions@,
            system.dihedral_interactions@ == old(system).dihedral_interactions@,
            system.coulomb == old(system).coulomb,
            start == old(system).particles@,
        decreases charges.len() - i,
    {
        assert(charges@.subrange(0, i + 1).drop_last() =~= charges@.subrange(0, i as int));
        let entry = &charges[i];
        let found = match (&entry.0, &entry.1) {
            (Node::Text(name), Node::Real(text)) => match parse_decimal(text.as_str()) {
                Some(charge) => {
                    let ghost before = system.particles@;
                    let n = assign_charge(&mut system.particles, name.as_str(), charge);
                    if n == 0 {
                        proof {
                            lemma_charge_nobody(before, name@, charge);
                        }
                        Err(Error::Config(ConfigError::NoParticleNamed { name: name.clone() }))
                    } else {
                        Ok(())
                    }
                },
                None => Err(bad_charge(entry, i)),
            },
            _ => Err(bad_charge(entry, i)),
        };
        if let Err(e) = found {
            proof {
                lemma_charge_all_stops(start, charges@, i + 1);
            }
            return Err(e);
        }
        i += 1;
    }
    assert(charges@.subrange(0, i as int) =~= charges@);
    Ok(())
}

/// The entries of the `charges` mapping of a record, if it has one.
pub open spec fn charges_of(config: Node) -> Option<Seq<(Node, Node)>> {
    match config.field("charges"@) {
        Some(Node::Hash(entries)) => Some(entries@),
        _ => None,
    }
}

/// The electrostatic interactions that the `coulomb` record describes,
/// with their restriction.
pub open spec fn spec_coulomb(config: Node) -> Result<CoulombicPotential, Error> {
    match spec_coulomb_potential(config) {
        Err(e) => Err(e),
        Ok(p) => match spec_optional_restriction(config) {
            Err(e) => Err(e),
            Ok(restriction) => Ok(CoulombicPotential { solver: p.solver, restriction }),
        },
    }
}

/// What reading the `coulomb` record `config` does to the particles and the
/// electrostatic interactions of a system, and returns.
pub open spec fn coulomb_outcome(
    config: Node,
    old_particles: Seq<Particle>,
    old_coulomb: Option<CoulombicPotential>,
    particles: Seq<Particle>,
    coulomb: Option<CoulombicPotential>,
    r: Result<(), Error>,
) -> bool {
    match spec_coulomb(config) {
        Err(e) => r == Err::<(), Error>(e) && coulomb == old_coulomb && particles == old_particles,
        Ok(potential) => coulomb == Some(potential) && match charges_of(config) {
            None => r is Ok && particles == old_particles,
            Some(entries) => {
                let done = charge_all(old_particles, entries);
                &&& particles == done.0
                &&& match r {
                    Ok(_) => done.1 is None,
                    Err(e) => done.1 == Some(e),
                }
            },
        },
    }
}

/// Read the `coulomb` record: set the electrostatic interactions of
/// `system`, then give the charges of its `charges` mapping if it has one.
pub fn read_coulomb(system: &mut System, config: &Node) -> (r: Result<(), Error>)
    ensures
        final(system).pair_interactions@ == old(system).pair_interactions@,
        final(system).bond_interactions@ == old(system).bond_interactions@,
        final(system).angle_interactions@ == old(system).angle_interactions@,
        final(system).dihedral_interactions@ == old(system).dihedral_interactions@,
        coulomb_outcome(
            *config,
            old(system).particles@,
            old(system).coulomb,
            final(system).particles@,
            final(system).coulomb,
            r,
        ),
{
    let potential = match read_coulomb_potential(config) {
        Ok(p) => p,
        Err(e) => return Err(e),
    };
    let restriction = match read_optional_restriction(config) {
        Ok(r) => r,
        Err(e) => return Err(e),
    };
    system.coulomb = Some(CoulombicPotential { solver: potential.solver, restriction });
    match config.get("charges") {
        Some(Node::Hash(entries)) => assign_charges(system, entries),
        _ => Ok(()),
    }
}

/// Read the interactions of a configuration document into `system`: the
/// `pairs`, `bonds`, `angles` and `dihedrals` sequences and the `coulomb`
/// mapping, in that order, each one that is there. Reading stops at the
/// first error; what was registered before it stays.
pub fn read_interactions_document(system: &mut System, doc: &Node) -> (r: Result<(), Error>)
    ensures
        ({
            let pairs = read_all(doc.list_field("pairs"@), |n: Node| spec_pair_entry(n, Section::Pairs));
            let bonds = read_all(doc.list_field("bonds"@), |n: Node| spec_pair_entry(n, Section::Bonds));
            let angles = read_all(doc.list_field("angles"@), |n: Node| spec_angle_entry(n));
            let dihedrals = read_all(doc.list_field("dihedrals"@), |n: Node| spec_dihedral_entry(n));
            let to_bonds = pairs.1 is None;
            let to_angles = to_bonds && bonds.1 is None;
            let to_dihedrals = to_angles && angles.1 is None;
            let to_coulomb = to_dihedrals && dihedrals.1 is None;
            &&& final(system).pair_interactions@ == old(system).pair_interactions@ + pairs.0
            &&& final(system).bond_interactions@ == old(system).bond_interactions@ + if to_bonds {
                bonds.0.map_values(|p: PairInteraction| bond_of(p))
            } else {
                Seq::empty()
            }
            &&& final(system).angle_interactions@ == old(system).angle_interactions@ + if to_angles {
                angles.0
            } else {
                Seq::empty()
            }
            &&& final(system).dihedral_interactions@ == old(system).dihedral_interactions@
                + if to_dihedrals {
                dihedrals.0
            } else {
                Seq::empty()
            }
            &&& pairs.1 matches Some(e) ==> r == Err::<(), Error>(e)
            &&& to_bonds ==> (bonds.1 matches Some(e) ==> r == Err::<(), Error>(e))
            &&& to_angles ==> (angles.1 matches Some(e) ==> r == Err::<(), Error>(e))
            &&& to_dihedrals ==> (dihedrals.1 matches Some(e) ==> r == Err::<(), Error>(e))
            &&& to_coulomb ==> (doc.field("coulomb"@) matches Some(config) ==> (config is Hash
                ==> coulomb_outcome(
                config,
                old(system).particles@,
                old(system).coulomb,
                final(system).particles@,
                final(system).coulomb,
                r,
            )))
            &&& !(to_coulomb && doc.has_hash("coulomb"@)) ==> final(system).particles@ == old(
                system,
            ).particles@ && final(system).coulomb == old(system).coulomb
            &&& to_coulomb && !doc.has_hash("coulomb"@) ==> r is Ok
        }),
{
    let ghost start_bonds = system.bond_interactions@;
    let ghost start_angles = system.angle_interactions@;
    let ghost start_dihedrals = system.dihedral_interactions@;
    match doc.get_list("pairs") {
        Some(pairs) => {
            if let Err(e) = read_pairs(system, pairs, true) {
                assert(system.bond_interactions@ =~= start_bonds + Seq::empty());
                assert(system.angle_interactions@ =~= start_angles + Seq::empty());
                assert(system.dihedral_interactions@ =~= start_dihedrals + Seq::empty());
                return Err(e);
            }
        },
        None => {
            assert(system.pair_interactions@ =~= system.pair_interactions@ + Seq::empty());
        },
    }
    match doc.get_list("bonds") {
        Some(bonds) => {
            if let Err(e) = read_pairs(system, bonds, false) {
                assert(system.angle_interactions@ =~= start_angles + Seq::empty());
                assert(system.dihedral_interactions@ =~= start_dihedrals + Seq::empty());
                return Err(e);
            }
        },
        None => {
            assert(system.bond_interactions@ =~= start_bonds + Seq::<PairInteraction>::empty().map_values(
                |p: PairInteraction| bond_of(p),
            ));
        },
    }
    match doc.get_list("angles") {
        Some(angles) => {
            if let Err(e) = read_angles(system, angles) {
                assert(system.dihedral_interactions@ =~= start_dihedrals + Seq::empty());
                return Err(e);
            }
        },
        None => {
            assert(system.angle_interactions@ =~= start_angles + Seq::empty());
        },
    }
    match doc.get_list("dihedrals") {
        Some(dihedrals) => {
            if let Err(e) = read_dihedrals(system, dihedrals) {
                return Err(e);
            }
        },
        None => {
            assert(system.dihedral_interactions@ =~= start_dihedrals + Seq::empty());
        },
    }
    match doc.get_hash("coulomb") {
        Some(config) => read_coulomb(system, config),
        None => Ok(()),
    }
}

/// An entry of the `pairs` or `bonds` sections whose `atoms` list holds
/// three names is refused, with an error that gives the expected and the
/// found size.
pub proof fn lemma_pair_entry_wrong_size(node: Node, section: Section)
    requires
        node.field("atoms"@) matches Some(Node::List(items)) && items@.len() == 3,
    ensures
        spec_pair_entry(node, section) == Err::<PairInteraction, Error>(
            Error::Config(ConfigError::WrongAtomCount { section, expected: 2, found: 3 }),
        ),
{
}

/// A `charges` mapping with one valid entry is refused when no particle has
/// its name, and otherwise gives its charge to exactly the particles of
/// that name, leaving the others as they were.
pub proof fn lemma_one_charge(particles: Seq<Particle>, name: String, text: String, charge: Decimal)
    requires
        decimal_of(text@) == Some(charge),
    ensures
        ({
            let done = charge_all(particles, seq![(Node::Text(name), Node::Real(text))]);
            &&& count_named(particles, name@) == 0 ==> done == (
                particles,
                Some(Error::Config(ConfigError::NoParticleNamed { name })),
            )
            &&& count_named(particles, name@) > 0 ==> done.1 is None && done.0.len() == particles.len()
                && forall|i: int|
                0 <= i < particles.len() ==> #[trigger] done.0[i] == if particles[i].name@ == name@ {
                    Particle { name: particles[i].name, charge }
                } else {
                    particles[i]
                }
        }),
{
    let entries = seq![(Node::Text(name), Node::Real(text))];
    assert(entries.drop_last() =~= Seq::<(Node, Node)>::empty());
    assert(charge_all(particles, Seq::<(Node, Node)>::empty()) == (particles, None::<Error>));
    assert(entries.last() == (Node::Text(name), Node::Real(text)));
    assert(spec_charge_entry(entries.last(), 0) == Ok::<(String, Decimal), Error>((name, charge)));
}

proof fn lemma_read_one<T>(entries: Seq<Node>, read: spec_fn(Node) -> Result<T, Error>)
    requires
        entries.len() == 1,
        read(entries[0]) is Ok,
    ensures
        read_all(entries, read) == (seq![read(entries[0])->Ok_0], None::<Error>),
{
    assert(entries.drop_last() =~= Seq::<Node>::empty());
    assert(read_all(Seq::<Node>::empty(), read) == (Seq::<T>::empty(), None::<Error>));
    assert(Seq::<T>::empty().push(read(entries[0])->Ok_0) =~= seq![read(entries[0])->Ok_0]);
}

/// A document whose `pairs`, `bonds`, `angles` and `dihedrals` sequences
/// each hold one entry that reads without error is read without error up
/// to its `coulomb` record, and each of these sections yields exactly the
/// interaction of its entry.
pub proof fn lemma_one_entry_per_section(doc: Node)
    requires
        doc.list_field("pairs"@).len() == 1,
        doc.list_field("bonds"@).len() == 1,
        doc.list_field("angles"@).len() == 1,
        doc.list_field("dihedrals"@).len() == 1,
        spec_pair_entry(doc.list_field("pairs"@)[0], Section::Pairs) is Ok,
        spec_pair_entry(doc.list_field("bonds"@)[0], Section::Bonds) is Ok,
        spec_angle_entry(doc.list_field("angles"@)[0]) is Ok,
        spec_dihedral_entry(doc.list_field("dihedrals"@)[0]) is Ok,
    ensures
        read_all(doc.list_field("pairs"@), |n: Node| spec_pair_entry(n, Section::Pairs)) == (
            seq![spec_pair_entry(doc.list_field("pairs"@)[0], Section::Pairs)->Ok_0],
            None::<Error>,
        ),
        read_all(doc.list_field("bonds"@), |n: Node| spec_pair_entry(n, Section::Bonds)) == (
            seq![spec_pair_entry(doc.list_field("bonds"@)[0], Section::Bonds)->Ok_0],
            None::<Error>,
        ),
        read_all(doc.list_field("angles"@), |n: Node| spec_angle_entry(n)) == (
            seq![spec_angle_entry(doc.list_field("angles"@)[0])->Ok_0],
            None::<Error>,
        ),
        read_all(doc.list_field("dihedrals"@), |n: Node| spec_dihedral_entry(n)) == (
            seq![spec_dihedral_entry(doc.list_field("dihedrals"@)[0])->Ok_0],
            None::<Error>,
        ),
{
    lemma_read_one(doc.list_field("pairs"@), |n: Node| spec_pair_entry(n, Section::Pairs));
    lemma_read_one(doc.list_field("bonds"@), |n: Node| spec_pair_entry(n, Section::Bonds));
    lemma_read_one(doc.list_field("angles"@), |n: Node| spec_angle_entry(n));
    lemma_read_one(doc.list_field("dihedrals"@), |n: Node| spec_dihedral_entry(n));
}

} // verus!
