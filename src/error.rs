//! What can go wrong while reading interactions.
use vstd::prelude::*;

verus! {

/// The part of the configuration where an error was found.
#[derive(Clone, Copy, Debug, PartialEq, Eq, Structural, Hash)]
pub enum Section {
    Pairs,
    Bonds,
    Angles,
    Dihedrals,
    Coulomb,
    Restriction,
    Computation,
    Charges,
}

/// A potential, computation or solver whose parameters are read.
#[derive(Clone, Copy, Debug, PartialEq, Eq, Structural, Hash)]
pub enum ParameterSet {
    Harmonic,
    LennardJones,
    CosineHarmonic,
    Torsion,
    Cutoff,
    Table,
    Wolf,
    Ewald,
}

/// A document that is well formed but does not describe valid interactions.
#[derive(Clone, Debug, PartialEq, Eq)]
pub enum ConfigError {
    /// An entry has no `atoms` list.
    MissingAtoms { section: Section },
    /// The `atoms` list of an entry has `found` names instead of `expected`.
    WrongAtomCount { section: Section, expected: usize, found: usize },
    /// The atom name at `position` is not a string.
    AtomNotText { section: Section, position: usize },
    /// An entry has no `type` string.
    MissingType { section: Section },
    /// The `type` of an entry names nothing known.
    UnknownType { section: Section, name: String },
    /// A parameter of `set` is missing or has the wrong kind of value.
    MissingParameters { set: ParameterSet },
    /// A `Scale14` restriction has no `scaling` that reads as a finite
    /// decimal number.
    MissingScaling,
    /// A `Scale14` restriction has a `scaling` outside `[0, 1]`, infinite or
    /// undefined.
    ScalingOutOfRange,
    /// An Ewald solver has a negative `kmax`.
    NegativeKmax,
    /// A torsion potential has a negative multiplicity `n`.
    NegativeMultiplicity,
    /// A table has fewer than two points.
    TableTooSmall,
    /// The entry at `position` of the charges has a name that is not a
    /// string, or a charge that is not a decimal number. `name` and `value`
    /// hold the name and the charge as written, where they are text.
    BadCharge { position: usize, name: Option<String>, value: Option<String> },
    /// No particle of the system has the name given a charge.
    NoParticleNamed { name: String },
}

/// The error of reading interactions.
#[derive(Clone, Debug, PartialEq, Eq)]
pub enum Error {
    /// The document is not valid YAML.
    Yaml { msg: String },
    /// The document could not be read.
    File { msg: String },
    /// The document does not describe valid interactions.
    Config(ConfigError),
    /// A physical quantity could not be read.
    UnitParsing { msg: String },
}

} // verus!
