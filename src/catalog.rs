//! Interaction potentials, and how each is read from a configuration record.
//!
//! Physical quantities are kept as written (such as `"3.4 A"`): turning them
//! into numbers in internal units is left to the consumer of the catalog.
use vstd::prelude::*;

use crate::decimal::{decimal_of, is_non_finite, non_finite_of, parse_decimal};
use crate::document::{lowercase_of, same_text, to_lowercase, Node};
use crate::error::{ConfigError, Error, ParameterSet, Section};
use crate::restriction::PairRestriction;

verus! {

/// A potential between two particles, as a function of their distance.
#[derive(Debug, PartialEq, Eq)]
pub enum PairPotential {
    /// Always zero.
    NullPotential,
    /// `k/2 (r - x0)^2`.
    Harmonic { k: String, x0: String },
    /// Lennard-Jones with size `sigma` and depth `epsilon`.
    LennardJones { sigma: String, epsilon: String },
    /// `inner`, shifted to zero at `cutoff` and zero beyond it.
    Cutoff { inner: Box<PairPotential>, cutoff: String },
    /// `inner`, interpolated in a table of `n` points up to `max`.
    Table { inner: Box<PairPotential>, n: u64, max: String },
}

/// A potential of an angle between three particles.
#[derive(Clone, Debug, PartialEq, Eq)]
pub enum AnglePotential {
    NullPotential,
    Harmonic { k: String, x0: String },
    CosineHarmonic { k: String, x0: String },
}

/// A potential of a dihedral angle between four particles.
#[derive(Clone, Debug, PartialEq, Eq)]
pub enum DihedralPotential {
    NullPotential,
    Harmonic { k: String, x0: String },
    CosineHarmonic { k: String, x0: String },
    /// `k (1 + cos(n phi - delta))`.
    Torsion { n: u64, k: String, delta: String },
}

/// A solver for the electrostatic interactions.
#[derive(Clone, Debug, PartialEq, Eq)]
pub enum CoulombSolver {
    Wolf { cutoff: String },
    Ewald { cutoff: String, kmax: u64 },
}

/// The electrostatic interactions, with the restriction of the pairs they
/// apply to.
#[derive(Clone, Debug, PartialEq, Eq)]
pub struct CoulombicPotential {
    pub solver: CoulombSolver,
    pub restriction: Option<PairRestriction>,
}

pub open spec fn config_error(e: ConfigError) -> Error {
    Error::Config(e)
}

/// The two strings under `a` and `b`, if both are there.
pub open spec fn spec_two_texts(node: Node, a: Seq<char>, b: Seq<char>, set: ParameterSet) -> Result<
    (String, String),
    Error,
> {
    match (node.text_field(a), node.text_field(b)) {
        (Some(x), Some(y)) => Ok((x, y)),
        _ => Err(config_error(ConfigError::MissingParameters { set })),
    }
}

fn two_texts(node: &Node, a: &str, b: &str, set: ParameterSet) -> (r: Result<(String, String), Error>)
    ensures
        r == spec_two_texts(*node, a@, b@, set),
{
    match (node.get_text(a), node.get_text(b)) {
        (Some(x), Some(y)) => Ok((x.clone(), y.clone())),
        _ => Err(Error::Config(ConfigError::MissingParameters { set })),
    }
}

/// The `type` string of a record of `section`.
pub open spec fn spec_record_type(node: Node, section: Section) -> Result<String, Error> {
    match node.text_field("type"@) {
        Some(t) => Ok(t),
        None => Err(config_error(ConfigError::MissingType { section })),
    }
}

fn record_type(node: &Node, section: Section) -> (r: Result<&String, Error>)
    ensures
        match r {
            Ok(t) => spec_record_type(*node, section) == Ok::<String, Error>(*t),
            Err(e) => spec_record_type(*node, section) == Err::<String, Error>(e),
        },
{
    match node.get_text("type") {
        Some(t) => Ok(t),
        None => Err(Error::Config(ConfigError::MissingType { section })),
    }
}

/// The pair potential that a record describes. The type is read without
/// regard to case.
pub open spec fn spec_pair_potential(node: Node) -> Result<PairPotential, Error> {
    match spec_record_type(node, Section::Pairs) {
        Err(e) => Err(e),
        Ok(t) => spec_pair_potential_of_type(node, t, lowercase_of(t@)),
    }
}

/// What a record of type `t`, read as `l` without regard to case, describes.
pub open spec fn spec_pair_potential_of_type(node: Node, t: String, l: Seq<char>) -> Result<PairPotential, Error> {
    if l == "harmonic"@ {
        match spec_two_texts(node, "k"@, "x0"@, ParameterSet::Harmonic) {
            Ok((k, x0)) => Ok(PairPotential::Harmonic { k, x0 }),
            Err(e) => Err(e),
        }
    } else if l == "lennard-jones"@ || l == "lennardjones"@ {
        match spec_two_texts(node, "sigma"@, "epsilon"@, ParameterSet::LennardJones) {
            Ok((sigma, epsilon)) => Ok(PairPotential::LennardJones { sigma, epsilon }),
            Err(e) => Err(e),
        }
    } else if l == "null"@ || l == "nullpotential"@ {
        Ok(PairPotential::NullPotential)
    } else {
        Err(config_error(ConfigError::UnknownType { section: Section::Pairs, name: t }))
    }
}

/// Read the pair potential that a record describes.
pub fn read_pair_potential(node: &Node) -> (r: Result<PairPotential, Error>)
    ensures
        r == spec_pair_potential(*node),
{
    let t = match record_type(node, Section::Pairs) {
        Ok(t) => t,
        Err(e) => return Err(e),
    };
    let l = to_lowercase(t.as_str());
    pair_potential_of_type(node, t, l.as_str())
}

/// Read a pair potential from a record of type `t`, read as `l` without regard to case.
pub fn pair_potential_of_type(node: &Node, t: &String, l: &str) -> (r: Result<PairPotential, Error>)
    ensures
        r == spec_pair_potential_of_type(*node, *t, l@),
{
    if same_text(l, "harmonic") {
        match two_texts(node, "k", "x0", ParameterSet::Harmonic) {
            Ok((k, x0)) => Ok(PairPotential::Harmonic { k, x0 }),
            Err(e) => Err(e),
        }
    } else if same_text(l, "lennard-jones") || same_text(l, "lennardjones") {
        match two_texts(node, "sigma", "epsilon", ParameterSet::LennardJones) {
            Ok((sigma, epsilon)) => Ok(PairPotential::LennardJones { sigma, epsilon }),
            Err(e) => Err(e),
        }
    } else if same_text(l, "null") || same_text(l, "nullpotential") {
        Ok(PairPotential::NullPotential)
    } else {
        Err(Error::Config(ConfigError::UnknownType { section: Section::Pairs, name: t.clone() }))
    }
}

/// The computation that a record asks for around `potential`.
pub open spec fn spec_pair_computation(node: Node, potential: PairPotential) -> Result<
    PairPotential,
    Error,
> {
    match spec_record_type(node, Section::Computation) {
        Err(e) => Err(e),
        Ok(t) => spec_pair_computation_of_type(node, t, lowercase_of(t@), potential),
    }
}

/// What a record of type `t`, read as `l` without regard to case, describes.
pub open spec fn spec_pair_computation_of_type(node: Node, t: String, l: Seq<char>, potential: PairPotential) -> Result<PairPotential, Error> {
    if l == "cutoff"@ {
        match node.text_field("cutoff"@) {
            Some(cutoff) => Ok(PairPotential::Cutoff { inner: Box::new(potential), cutoff }),
            None => Err(config_error(ConfigError::MissingParameters { set: ParameterSet::Cutoff })),
        }
    } else if l == "table"@ {
        match (node.integer_field("n"@), node.text_field("max"@)) {
            (Some(n), Some(max)) => if n < 2 {
                Err(config_error(ConfigError::TableTooSmall))
            } else {
                Ok(PairPotential::Table { inner: Box::new(potential), n: n as u64, max })
            },
            _ => Err(config_error(ConfigError::MissingParameters { set: ParameterSet::Table })),
        }
    } else {
        Err(config_error(ConfigError::UnknownType { section: Section::Computation, name: t }))
    }
}


/// Wrap `potential` in the computation that a record asks for.
pub fn read_pair_computation(node: &Node, potential: PairPotential) -> (r: Result<PairPotential, Error>)
    ensures
        r == spec_pair_computation(*node, potential),
{
    let t = match record_type(node, Section::Computation) {
        Ok(t) => t,
        Err(e) => return Err(e),
    };
    let l = to_lowercase(t.as_str());
    pair_computation_of_type(node, t, l.as_str(), potential)
}

/// Read a computation around `potential` from a record of type `t`, read as `l` without regard to case.
pub fn pair_computation_of_type(node: &Node, t: &String, l: &str, potential: PairPotential) -> (r: Result<PairPotential, Error>)
    ensures
        r == spec_pair_computation_of_type(*node, *t, l@, potential),
{
    if same_text(l, "cutoff") {
        match node.get_text("cutoff") {
            Some(cutoff) => Ok(PairPotential::Cutoff { inner: Box::new(potential), cutoff: cutoff.clone() }),
            None => Err(Error::Config(ConfigError::MissingParameters { set: ParameterSet::Cutoff })),
        }
    } else if same_text(l, "table") {
        match (node.get_integer("n"), node.get_text("max")) {
            (Some(n), Some(max)) => if n < 2 {
                Err(Error::Config(ConfigError::TableTooSmall))
            } else {
                Ok(PairPotential::Table { inner: Box::new(potential), n: n as u64, max: max.clone() })
            },
            _ => Err(Error::Config(ConfigError::MissingParameters { set: ParameterSet::Table })),
        }
    } else {
        Err(Error::Config(ConfigError::UnknownType { section: Section::Computation, name: t.clone() }))
    }
}

/// The restriction that a record describes.
pub open spec fn spec_restriction(node: Node) -> Result<PairRestriction, Error> {
    match spec_record_type(node, Section::Restriction) {
        Err(e) => Err(e),
        Ok(t) => spec_restriction_of_type(node, t, lowercase_of(t@)),
    }
}

/// What a record of type `t`, read as `l` without regard to case, describes.
pub open spec fn spec_restriction_of_type(node: Node, t: String, l: Seq<char>) -> Result<PairRestriction, Error> {
    if l == "none"@ {
        Ok(PairRestriction::NoRestriction)
    } else if l == "intramolecular"@ {
        Ok(PairRestriction::IntraMolecular)
    } else if l == "intermolecular"@ {
        Ok(PairRestriction::InterMolecular)
    } else if l == "exclude12"@ {
        Ok(PairRestriction::Exclude12)
    } else if l == "exclude13"@ {
        Ok(PairRestriction::Exclude13)
    } else if l == "exclude14"@ {
        Ok(PairRestriction::Exclude14)
    } else if l == "scale14"@ {
        match node.field("scaling"@) {
            Some(Node::Real(text)) => match decimal_of(text@) {
                Some(scaling) => if scaling.in_unit_interval() {
                    Ok(PairRestriction::Scale14 { scaling })
                } else {
                    Err(config_error(ConfigError::ScalingOutOfRange))
                },
                None => if non_finite_of(text@) {
                    Err(config_error(ConfigError::ScalingOutOfRange))
                } else {
                    Err(config_error(ConfigError::MissingScaling))
                },
            },
            _ => Err(config_error(ConfigError::MissingScaling)),
        }
    } else {
        Err(config_error(ConfigError::UnknownType { section: Section::Restriction, name: t }))
    }
}

/// Read the restriction that a record describes.
pub fn read_restriction(node: &Node) -> (r: Result<PairRestriction, Error>)
    ensures
        r == spec_restriction(*node),
        r matches Ok(restriction) ==> restriction.wf(),
{
    let t = match record_type(node, Section::Restriction) {
        Ok(t) => t,
        Err(e) => return Err(e),
    };
    let l = to_lowercase(t.as_str());
    restriction_of_type(node, t, l.as_str())
}

/// Read a restriction from a record of type `t`, read as `l` without regard to case.
pub fn restriction_of_type(node: &Node, t: &String, l: &str) -> (r: Result<PairRestriction, Error>)
    ensures
        r == spec_restriction_of_type(*node, *t, l@),
{
    if same_text(l, "none") {
        Ok(PairRestriction::NoRestriction)
    } else if same_text(l, "intramolecular") {
        Ok(PairRestriction::IntraMolecular)
    } else if same_text(l, "intermolecular") {
        Ok(PairRestriction::InterMolecular)
    } else if same_text(l, "exclude12") {
        Ok(PairRestriction::Exclude12)
    } else if same_text(l, "exclude13") {
        Ok(PairRestriction::Exclude13)
    } else if same_text(l, "exclude14") {
        Ok(PairRestriction::Exclude14)
    } else if same_text(l, "scale14") {
        match node.get("scaling") {
            Some(Node::Real(text)) => match parse_decimal(text.as_str()) {
                Some(scaling) => match PairRestriction::scale14(scaling) {
                    Some(restriction) => Ok(restriction),
                    None => Err(Error::Config(ConfigError::ScalingOutOfRange)),
                },
                None => if is_non_finite(text.as_str()) {
                    Err(Error::Config(ConfigError::ScalingOutOfRange))
                } else {
                    Err(Error::Config(ConfigError::MissingScaling))
                },
            },
            _ => Err(Error::Config(ConfigError::MissingScaling)),
        }
    } else {
        Err(Error::Config(ConfigError::UnknownType { section: Section::Restriction, name: t.clone() }))
    }
}

/// The angle potential that a record describes.
pub open spec fn spec_angle_potential(node: Node) -> Result<AnglePotential, Error> {
    match spec_record_type(node, Section::Angles) {
        Err(e) => Err(e),
        Ok(t) => spec_angle_potential_of_type(node, t, lowercase_of(t@)),
    }
}

/// What a record of type `t`, read as `l` without regard to case, describes.
pub open spec fn spec_angle_potential_of_type(node: Node, t: String, l: Seq<char>) -> Result<AnglePotential, Error> {
    if l == "harmonic"@ {
        match spec_two_texts(node, "k"@, "x0"@, ParameterSet::Harmonic) {
            Ok((k, x0)) => Ok(AnglePotential::Harmonic { k, x0 }),
            Err(e) => Err(e),
        }
    } else if l == "cosine-harmonic"@ || l == "cosineharmonic"@ {
        match spec_two_texts(node, "k"@, "x0"@, ParameterSet::CosineHarmonic) {
            Ok((k, x0)) => Ok(AnglePotential::CosineHarmonic { k, x0 }),
            Err(e) => Err(e),
        }
    } else if l == "null"@ {
        Ok(AnglePotential::NullPotential)
    } else {
        Err(config_error(ConfigError::UnknownType { section: Section::Angles, name: t }))
    }
}

/// Read the angle potential that a record describes.
pub fn read_angle_potential(node: &Node) -> (r: Result<AnglePotential, Error>)
    ensures
        r == spec_angle_potential(*node),
{
    let t = match record_type(node, Section::Angles) {
        Ok(t) => t,
        Err(e) => return Err(e),
    };
    let l = to_lowercase(t.as_str());
    angle_potential_of_type(node, t, l.as_str())
}

/// Read an angle potential from a record of type `t`, read as `l` without regard to case.
pub fn angle_potential_of_type(node: &Node, t: &String, l: &str) -> (r: Result<AnglePotential, Error>)
    ensures
        r == spec_angle_potential_of_type(*node, *t, l@),
{
    if same_text(l, "harmonic") {
        match two_texts(node, "k", "x0", ParameterSet::Harmonic) {
            Ok((k, x0)) => Ok(AnglePotential::Harmonic { k, x0 }),
            Err(e) => Err(e),
        }
    } else if same_text(l, "cosine-harmonic") || same_text(l, "cosineharmonic") {
        match two_texts(node, "k", "x0", ParameterSet::CosineHarmonic) {
            Ok((k, x0)) => Ok(AnglePotential::CosineHarmonic { k, x0 }),
            Err(e) => Err(e),
        }
    } else if same_text(l, "null") {
        Ok(AnglePotential::NullPotential)
    } else {
        Err(Error::Config(ConfigError::UnknownType { section: Section::Angles, name: t.clone() }))
    }
}

/// The torsion potential that a record describes.
pub open spec fn spec_torsion(node: Node) -> Result<DihedralPotential, Error> {
    match (node.integer_field("n"@), node.text_field("k"@), node.text_field("delta"@)) {
        (Some(n), Some(k), Some(delta)) => if n < 0 {
            Err(config_error(ConfigError::NegativeMultiplicity))
        } else {
            Ok(DihedralPotential::Torsion { n: n as u64, k, delta })
        },
        _ => Err(config_error(ConfigError::MissingParameters { set: ParameterSet::Torsion })),
    }
}

fn read_torsion(node: &Node) -> (r: Result<DihedralPotential, Error>)
    ensures
        r == spec_torsion(*node),
{
    match (node.get_integer("n"), node.get_text("k"), node.get_text("delta")) {
        (Some(n), Some(k), Some(delta)) => if n < 0 {
            Err(Error::Config(ConfigError::NegativeMultiplicity))
        } else {
            Ok(DihedralPotential::Torsion { n: n as u64, k: k.clone(), delta: delta.clone() })
        },
        _ => Err(Error::Config(ConfigError::MissingParameters { set: ParameterSet::Torsion })),
    }
}

/// The dihedral potential that a record describes.
pub open spec fn spec_dihedral_potential(node: Node) -> Result<DihedralPotential, Error> {
    match spec_record_type(node, Section::Dihedrals) {
        Err(e) => Err(e),
        Ok(t) => spec_dihedral_potential_of_type(node, t, lowercase_of(t@)),
    }
}

/// What a record of type `t`, read as `l` without regard to case, describes.
pub open spec fn spec_dihedral_potential_of_type(node: Node, t: String, l: Seq<char>) -> Result<DihedralPotential, Error> {
    if l == "harmonic"@ {
        match spec_two_texts(node, "k"@, "x0"@, ParameterSet::Harmonic) {
            Ok((k, x0)) => Ok(DihedralPotential::Harmonic { k, x0 }),
            Err(e) => Err(e),
        }
    } else if l == "cosine-harmonic"@ || l == "cosineharmonic"@ {
        match spec_two_texts(node, "k"@, "x0"@, ParameterSet::CosineHarmonic) {
            Ok((k, x0)) => Ok(DihedralPotential::CosineHarmonic { k, x0 }),
            Err(e) => Err(e),
        }
    } else if l == "torsion"@ {
        spec_torsion(node)
    } else if l == "null"@ {
        Ok(DihedralPotential::NullPotential)
    } else {
        Err(config_error(ConfigError::UnknownType { section: Section::Dihedrals, name: t }))
    }
}

/// Read the dihedral potential that a record describes.
pub fn read_dihedral_potential(node: &Node) -> (r: Result<DihedralPotential, Error>)
    ensures
        r == spec_dihedral_potential(*node),
{
    let t = match record_type(node, Section::Dihedrals) {
        Ok(t) => t,
        Err(e) => return Err(e),
    };
    let l = to_lowercase(t.as_str());
    dihedral_potential_of_type(node, t, l.as_str())
}

/// Read a dihedral potential from a record of type `t`, read as `l` without regard to case.
pub fn dihedral_potential_of_type(node: &Node, t: &String, l: &str) -> (r: Result<DihedralPotential, Error>)
    ensures
        r == spec_dihedral_potential_of_type(*node, *t, l@),
{
    if same_text(l, "harmonic") {
        match two_texts(node, "k", "x0", ParameterSet::Harmonic) {
            Ok((k, x0)) => Ok(DihedralPotential::Harmonic { k, x0 }),
            Err(e) => Err(e),
        }
    } else if same_text(l, "cosine-harmonic") || same_text(l, "cosineharmonic") {
        match two_texts(node, "k", "x0", ParameterSet::CosineHarmonic) {
            Ok((k, x0)) => Ok(DihedralPotential::CosineHarmonic { k, x0 }),
            Err(e) => Err(e),
        }
    } else if same_text(l, "torsion") {
        read_torsion(node)
    } else if same_text(l, "null") {
        Ok(DihedralPotential::NullPotential)
    } else {
        Err(Error::Config(ConfigError::UnknownType { section: Section::Dihedrals, name: t.clone() }))
    }
}

/// The electrostatic solver that a record describes, without restriction.
pub open spec fn spec_coulomb_potential(node: Node) -> Result<CoulombicPotential, Error> {
    match spec_record_type(node, Section::Coulomb) {
        Err(e) => Err(e),
        Ok(t) => spec_coulomb_potential_of_type(node, t, lowercase_of(t@)),
    }
}

/// What a record of type `t`, read as `l` without regard to case, describes.
pub open spec fn spec_coulomb_potential_of_type(node: Node, t: String, l: Seq<char>) -> Result<CoulombicPotential, Error> {
    if l == "wolf"@ {
        match node.text_field("cutoff"@) {
            Some(cutoff) => Ok(
                CoulombicPotential { solver: CoulombSolver::Wolf { cutoff }, restriction: None },
            ),
            None => Err(config_error(ConfigError::MissingParameters { set: ParameterSet::Wolf })),
        }
    } else if l == "ewald"@ {
        match (node.text_field("cutoff"@), node.integer_field("kmax"@)) {
            (Some(cutoff), Some(kmax)) => if kmax < 0 {
                Err(config_error(ConfigError::NegativeKmax))
            } else {
                Ok(
                    CoulombicPotential {
                        solver: CoulombSolver::Ewald { cutoff, kmax: kmax as u64 },
                        restriction: None,
                    },
                )
            },
            _ => Err(config_error(ConfigError::MissingParameters { set: ParameterSet::Ewald })),
        }
    } else {
        Err(config_error(ConfigError::UnknownType { section: Section::Coulomb, name: t }))
    }
}

/// Read the electrostatic solver that a record describes, without
/// restriction.
pub fn read_coulomb_potential(node: &Node) -> (r: Result<CoulombicPotential, Error>)
    ensures
        r == spec_coulomb_potential(*node),
{
    let t = match record_type(node, Section::Coulomb) {
        Ok(t) => t,
        Err(e) => return Err(e),
    };
    let l = to_lowercase(t.as_str());
    coulomb_potential_of_type(node, t, l.as_str())
}

/// Read an electrostatic solver from a record of type `t`, read as `l` without regard to case.
pub fn coulomb_potential_of_type(node: &Node, t: &String, l: &str) -> (r: Result<CoulombicPotential, Error>)
    ensures
        r == spec_coulomb_potential_of_type(*node, *t, l@),
{
    if same_text(l, "wolf") {
        match node.get_text("cutoff") {
            Some(cutoff) => Ok(
                CoulombicPotential {
                    solver: CoulombSolver::Wolf { cutoff: cutoff.clone() },
                    restriction: None,
                },
            ),
            None => Err(Error::Config(ConfigError::MissingParameters { set: ParameterSet::Wolf })),
        }
    } else if same_text(l, "ewald") {
        match (node.get_text("cutoff"), node.get_integer("kmax")) {
            (Some(cutoff), Some(kmax)) => if kmax < 0 {
                Err(Error::Config(ConfigError::NegativeKmax))
            } else {
                Ok(
                    CoulombicPotential {
                        solver: CoulombSolver::Ewald { cutoff: cutoff.clone(), kmax: kmax as u64 },
                        restriction: None,
                    },
                )
            },
            _ => Err(Error::Config(ConfigError::MissingParameters { set: ParameterSet::Ewald })),
        }
    } else {
        Err(Error::Config(ConfigError::UnknownType { section: Section::Coulomb, name: t.clone() }))
    }
}

} // verus!
