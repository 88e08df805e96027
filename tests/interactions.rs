use cymbalum::catalog::{
    angle_potential_of_type, coulomb_potential_of_type, dihedral_potential_of_type,
    pair_computation_of_type, pair_potential_of_type, read_pair_potential, read_restriction,
    restriction_of_type, AnglePotential, CoulombSolver, CoulombicPotential,
    DihedralPotential, PairPotential,
};
use cymbalum::decimal::Decimal;
use cymbalum::document::Node;
use cymbalum::error::{ConfigError, Error, ParameterSet, Section};
use cymbalum::restriction::PairRestriction;
use cymbalum::system::{
    assign_charge, read_interactions_document, AngleInteraction, BondInteraction,
    DihedralInteraction, PairInteraction, Particle, System,
};

fn text(s: &str) -> Node {
    Node::Text(s.to_string())
}

fn decimal_text(s: &str) -> Node {
    Node::Real(s.to_string())
}

fn list(items: Vec<Node>) -> Node {
    Node::List(items)
}

fn hash(entries: Vec<(&str, Node)>) -> Node {
    Node::Hash(entries.into_iter().map(|(k, v)| (text(k), v)).collect())
}

fn atoms(names: &[&str]) -> Node {
    list(names.iter().map(|n| text(n)).collect())
}

fn config(e: ConfigError) -> Result<(), Error> {
    Err(Error::Config(e))
}

fn read(doc: &Node) -> (System, Result<(), Error>) {
    let mut system = System::new();
    let r = read_interactions_document(&mut system, doc);
    (system, r)
}

fn pairs_doc() -> Node {
    hash(vec![(
        "pairs",
        list(vec![
            hash(vec![
                ("atoms", atoms(&["He", "He"])),
                ("type", text("LennardJones")),
                ("sigma", text("3.4 A")),
                ("epsilon", text("0.45 kJ/mol")),
                (
                    "computation",
                    hash(vec![("type", text("table")), ("n", Node::Integer(5000)), ("max", text("20.0 A"))]),
                ),
            ]),
            hash(vec![
                ("atoms", atoms(&["He", "Ar"])),
                ("type", text("Lennard-Jones")),
                ("sigma", text("3.8 A")),
                ("epsilon", text("0.67 kJ/mol")),
                ("restriction", hash(vec![("type", text("IntraMolecular"))])),
            ]),
            hash(vec![("atoms", atoms(&["He", "Ar"])), ("type", text("NullPotential"))]),
            hash(vec![
                ("atoms", atoms(&["Ar", "Ar"])),
                ("type", text("harmonic")),
                ("k", text("67 kJ/mol/A^2")),
                ("x0", text("1.2 A")),
                ("computation", hash(vec![("type", text("Cutoff")), ("cutoff", text("8 A"))])),
            ]),
        ]),
    )])
}

#[test]
fn pairs() {
    let (system, r) = read(&pairs_doc());
    assert_eq!(r, Ok(()));
    assert_eq!(system.pair_interactions.len(), 4);
    assert_eq!(
        system.pair_interactions[0],
        PairInteraction {
            a: "He".to_string(),
            b: "He".to_string(),
            potential: PairPotential::Table {
                inner: Box::new(PairPotential::LennardJones {
                    sigma: "3.4 A".to_string(),
                    epsilon: "0.45 kJ/mol".to_string()
                }),
                n: 5000,
                max: "20.0 A".to_string(),
            },
            restriction: None,
        }
    );
    assert_eq!(system.pair_interactions[1].restriction, Some(PairRestriction::IntraMolecular));
    assert_eq!(system.pair_interactions[2].potential, PairPotential::NullPotential);
    assert_eq!(
        system.pair_interactions[3].potential,
        PairPotential::Cutoff {
            inner: Box::new(PairPotential::Harmonic { k: "67 kJ/mol/A^2".to_string(), x0: "1.2 A".to_string() }),
            cutoff: "8 A".to_string(),
        }
    );
    assert!(system.bond_interactions.is_empty());
}

fn one_pair(section: &str, entry: Node) -> Node {
    hash(vec![(section, list(vec![entry]))])
}

#[test]
fn bad_pairs() {
    let cases = vec![
        (hash(vec![("type", text("null"))]), config(ConfigError::MissingAtoms { section: Section::Pairs })),
        (
            hash(vec![("atoms", atoms(&["He", "He", "He"])), ("type", text("null"))]),
            config(ConfigError::WrongAtomCount { section: Section::Pairs, expected: 2, found: 3 }),
        ),
        (
            hash(vec![("atoms", list(vec![text("He"), Node::Integer(3)])), ("type", text("null"))]),
            config(ConfigError::AtomNotText { section: Section::Pairs, position: 1 }),
        ),
        (hash(vec![("atoms", atoms(&["He", "He"]))]), config(ConfigError::MissingType { section: Section::Pairs })),
        (
            hash(vec![("atoms", atoms(&["He", "He"])), ("type", text("Morse"))]),
            config(ConfigError::UnknownType { section: Section::Pairs, name: "Morse".to_string() }),
        ),
        (
            hash(vec![("atoms", atoms(&["He", "He"])), ("type", text("lennardjones")), ("sigma", text("3 A"))]),
            config(ConfigError::MissingParameters { set: ParameterSet::LennardJones }),
        ),
        (
            hash(vec![
                ("atoms", atoms(&["He", "He"])),
                ("type", text("null")),
                ("restriction", hash(vec![("type", text("scale14")), ("scaling", decimal_text("1.5"))])),
            ]),
            config(ConfigError::ScalingOutOfRange),
        ),
        (
            hash(vec![
                ("atoms", atoms(&["He", "He"])),
                ("type", text("null")),
                ("restriction", hash(vec![("type", text("scale14"))])),
            ]),
            config(ConfigError::MissingScaling),
        ),
        (
            hash(vec![
                ("atoms", atoms(&["He", "He"])),
                ("type", text("null")),
                ("restriction", hash(vec![("type", text("exclude15"))])),
            ]),
            config(ConfigError::UnknownType { section: Section::Restriction, name: "exclude15".to_string() }),
        ),
        (
            hash(vec![
                ("atoms", atoms(&["He", "He"])),
                ("type", text("null")),
                ("computation", hash(vec![("type", text("table")), ("n", Node::Integer(1)), ("max", text("9 A"))])),
            ]),
            config(ConfigError::TableTooSmall),
        ),
        (
            hash(vec![
                ("atoms", atoms(&["He", "He"])),
                ("type", text("null")),
                ("computation", hash(vec![("type", text("cutoff"))])),
            ]),
            config(ConfigError::MissingParameters { set: ParameterSet::Cutoff }),
        ),
        (
            hash(vec![
                ("atoms", atoms(&["He", "He"])),
                ("type", text("null")),
                ("computation", hash(vec![("type", text("spline"))])),
            ]),
            config(ConfigError::UnknownType { section: Section::Computation, name: "spline".to_string() }),
        ),
    ];
    for (entry, expected) in cases {
        let (system, r) = read(&one_pair("pairs", entry));
        assert_eq!(r, expected);
        assert!(system.pair_interactions.is_empty());
    }
}

#[test]
fn bonds() {
    let doc = one_pair(
        "bonds",
        hash(vec![
            ("atoms", atoms(&["C", "C"])),
            ("type", text("Harmonic")),
            ("k", text("67 kJ/mol/A^2")),
            ("x0", text("1.20 A")),
        ]),
    );
    let (system, r) = read(&doc);
    assert_eq!(r, Ok(()));
    assert!(system.pair_interactions.is_empty());
    assert_eq!(
        system.bond_interactions,
        vec![BondInteraction {
            a: "C".to_string(),
            b: "C".to_string(),
            potential: PairPotential::Harmonic { k: "67 kJ/mol/A^2".to_string(), x0: "1.20 A".to_string() },
        }]
    );
}

#[test]
fn bad_bonds() {
    let cases = vec![
        (
            hash(vec![("atoms", atoms(&["C"])), ("type", text("null"))]),
            config(ConfigError::WrongAtomCount { section: Section::Bonds, expected: 2, found: 1 }),
        ),
        (
            hash(vec![("atoms", atoms(&["C", "C"])), ("type", text("harmonic")), ("k", text("1 kJ/mol"))]),
            config(ConfigError::MissingParameters { set: ParameterSet::Harmonic }),
        ),
        (hash(vec![("atoms", text("C"))]), config(ConfigError::MissingAtoms { section: Section::Bonds })),
    ];
    for (entry, expected) in cases {
        let (system, r) = read(&one_pair("bonds", entry));
        assert_eq!(r, expected);
        assert!(system.bond_interactions.is_empty());
    }
}

#[test]
fn angles() {
    let doc = hash(vec![(
        "angles",
        list(vec![
            hash(vec![
                ("atoms", atoms(&["O", "C", "C"])),
                ("type", text("CosineHarmonic")),
                ("k", text("67 kJ/mol/deg^2")),
                ("x0", text("120 deg")),
            ]),
            hash(vec![
                ("atoms", atoms(&["C", "C", "C"])),
                ("type", text("harmonic")),
                ("k", text("300 kJ/mol/deg^2")),
                ("x0", text("120 deg")),
            ]),
            hash(vec![("atoms", atoms(&["H", "C", "H"])), ("type", text("null"))]),
        ]),
    )]);
    let (system, r) = read(&doc);
    assert_eq!(r, Ok(()));
    assert_eq!(system.angle_interactions.len(), 3);
    assert_eq!(
        system.angle_interactions[0],
        AngleInteraction {
            a: "O".to_string(),
            b: "C".to_string(),
            c: "C".to_string(),
            potential: AnglePotential::CosineHarmonic { k: "67 kJ/mol/deg^2".to_string(), x0: "120 deg".to_string() },
        }
    );
    assert_eq!(system.angle_interactions[2].potential, AnglePotential::NullPotential);
}

#[test]
fn bad_angles() {
    let cases = vec![
        (
            hash(vec![("atoms", atoms(&["O", "C"])), ("type", text("null"))]),
            config(ConfigError::WrongAtomCount { section: Section::Angles, expected: 3, found: 2 }),
        ),
        (
            hash(vec![("atoms", atoms(&["O", "C", "C"])), ("type", text("torsion"))]),
            config(ConfigError::UnknownType { section: Section::Angles, name: "torsion".to_string() }),
        ),
        (
            hash(vec![("atoms", atoms(&["O", "C", "C"])), ("type", text("cosine-harmonic")), ("x0", text("1 deg"))]),
            config(ConfigError::MissingParameters { set: ParameterSet::CosineHarmonic }),
        ),
    ];
    for (entry, expected) in cases {
        let (system, r) = read(&one_pair("angles", entry));
        assert_eq!(r, expected);
        assert!(system.angle_interactions.is_empty());
    }
}

#[test]
fn dihedrals() {
    let doc = hash(vec![(
        "dihedrals",
        list(vec![
            hash(vec![
                ("atoms", atoms(&["O", "C", "C", "O"])),
                ("type", text("harmonic")),
                ("k", text("42 kJ/mol/deg^2")),
                ("x0", text("180 deg")),
            ]),
            hash(vec![
                ("atoms", atoms(&["C", "C", "C", "C"])),
                ("type", text("torsion")),
                ("k", text("40 kJ/mol")),
                ("delta", text("120 deg")),
                ("n", Node::Integer(4)),
            ]),
        ]),
    )]);
    let (system, r) = read(&doc);
    assert_eq!(r, Ok(()));
    assert_eq!(system.dihedral_interactions.len(), 2);
    assert_eq!(
        system.dihedral_interactions[1],
        DihedralInteraction {
            a: "C".to_string(),
            b: "C".to_string(),
            c: "C".to_string(),
            d: "C".to_string(),
            potential: DihedralPotential::Torsion { n: 4, k: "40 kJ/mol".to_string(), delta: "120 deg".to_string() },
        }
    );
}

#[test]
fn bad_dihedrals() {
    let cases = vec![
        (
            hash(vec![("atoms", atoms(&["O", "C", "C"])), ("type", text("null"))]),
            config(ConfigError::WrongAtomCount { section: Section::Dihedrals, expected: 4, found: 3 }),
        ),
        (
            hash(vec![
                ("atoms", atoms(&["C", "C", "C", "C"])),
                ("type", text("torsion")),
                ("k", text("40 kJ/mol")),
                ("delta", text("120 deg")),
            ]),
            config(ConfigError::MissingParameters { set: ParameterSet::Torsion }),
        ),
        (
            hash(vec![
                ("atoms", atoms(&["C", "C", "C", "C"])),
                ("type", text("torsion")),
                ("k", text("40 kJ/mol")),
                ("delta", text("120 deg")),
                ("n", Node::Integer(-2)),
            ]),
            config(ConfigError::NegativeMultiplicity),
        ),
    ];
    for (entry, expected) in cases {
        let (system, r) = read(&one_pair("dihedrals", entry));
        assert_eq!(r, expected);
        assert!(system.dihedral_interactions.is_empty());
    }
}

#[test]
fn coulomb() {
    let mut system = System::new();
    let wolf = hash(vec![("coulomb", hash(vec![("type", text("wolf")), ("cutoff", text("10 A"))]))]);
    assert_eq!(read_interactions_document(&mut system, &wolf), Ok(()));
    assert_eq!(
        system.coulomb,
        Some(CoulombicPotential { solver: CoulombSolver::Wolf { cutoff: "10 A".to_string() }, restriction: None })
    );
    let ewald = hash(vec![(
        "coulomb",
        hash(vec![
            ("type", text("Ewald")),
            ("cutoff", text("8 A")),
            ("kmax", Node::Integer(7)),
            ("restriction", hash(vec![("type", text("Scale14")), ("scaling", decimal_text("0.5"))])),
        ]),
    )]);
    assert_eq!(read_interactions_document(&mut system, &ewald), Ok(()));
    assert_eq!(
        system.coulomb,
        Some(CoulombicPotential {
            solver: CoulombSolver::Ewald { cutoff: "8 A".to_string(), kmax: 7 },
            restriction: Some(PairRestriction::Scale14 { scaling: Decimal { negative: false, digits: 5, scale: 1 } }),
        })
    );
}

#[test]
fn bad_coulomb() {
    let cases = vec![
        (hash(vec![("cutoff", text("10 A"))]), config(ConfigError::MissingType { section: Section::Coulomb })),
        (
            hash(vec![("type", text("pppm"))]),
            config(ConfigError::UnknownType { section: Section::Coulomb, name: "pppm".to_string() }),
        ),
        (hash(vec![("type", text("wolf"))]), config(ConfigError::MissingParameters { set: ParameterSet::Wolf })),
        (
            hash(vec![("type", text("ewald")), ("cutoff", text("8 A"))]),
            config(ConfigError::MissingParameters { set: ParameterSet::Ewald }),
        ),
        (
            hash(vec![("type", text("ewald")), ("cutoff", text("8 A")), ("kmax", Node::Integer(-1))]),
            config(ConfigError::NegativeKmax),
        ),
        (
            hash(vec![("type", text("wolf")), ("cutoff", text("8 A")), ("charges", hash(vec![("O", decimal_text("-1.8"))]))]),
            config(ConfigError::NoParticleNamed { name: "O".to_string() }),
        ),
    ];
    for (record, expected) in cases {
        let mut system = System::new();
        let r = read_interactions_document(&mut system, &hash(vec![("coulomb", record)]));
        assert_eq!(r, expected);
    }
}

#[test]
fn one_entry_per_section() {
    let doc = hash(vec![
        (
            "pairs",
            list(vec![hash(vec![
                ("atoms", atoms(&["He", "He"])),
                ("type", text("lennard-jones")),
                ("sigma", text("3.4 A")),
                ("epsilon", text("0.45 kJ/mol")),
            ])]),
        ),
        (
            "bonds",
            list(vec![hash(vec![
                ("atoms", atoms(&["O", "H"])),
                ("type", text("harmonic")),
                ("k", text("100 kJ/mol/A^2")),
                ("x0", text("1 A")),
            ])]),
        ),
        (
            "angles",
            list(vec![hash(vec![
                ("atoms", atoms(&["H", "O", "H"])),
                ("type", text("cosine-harmonic")),
                ("k", text("67 kJ/mol/deg^2")),
                ("x0", text("109 deg")),
            ])]),
        ),
        (
            "dihedrals",
            list(vec![hash(vec![
                ("atoms", atoms(&["H", "O", "O", "H"])),
                ("type", text("harmonic")),
                ("k", text("42 kJ/mol/deg^2")),
                ("x0", text("180 deg")),
            ])]),
        ),
        (
            "coulomb",
            hash(vec![("type", text("wolf")), ("cutoff", text("10 A")), ("charges", hash(vec![("O", decimal_text("-1.8"))]))]),
        ),
    ]);
    let mut system = System::new();
    system.add_particle("O".to_string());
    system.add_particle("H".to_string());
    system.add_particle("O".to_string());
    assert_eq!(read_interactions_document(&mut system, &doc), Ok(()));
    assert_eq!(system.pair_interactions.len(), 1);
    assert_eq!(system.bond_interactions.len(), 1);
    assert_eq!(system.angle_interactions.len(), 1);
    assert_eq!(system.dihedral_interactions.len(), 1);
    assert!(system.coulomb.is_some());
    let minus = Decimal { negative: true, digits: 18, scale: 1 };
    assert_eq!(system.particles[0].charge, minus);
    assert_eq!(system.particles[2].charge, minus);
    assert_eq!(system.particles[1].charge, Decimal { negative: false, digits: 0, scale: 0 });
}

#[test]
fn error_keeps_earlier_sections() {
    let doc = hash(vec![
        ("pairs", list(vec![hash(vec![("atoms", atoms(&["He", "He"])), ("type", text("null"))])])),
        (
            "angles",
            list(vec![
                hash(vec![("atoms", atoms(&["H", "O", "H"])), ("type", text("null"))]),
                hash(vec![("atoms", atoms(&["H", "O"])), ("type", text("null"))]),
                hash(vec![("atoms", atoms(&["O", "O", "H"])), ("type", text("null"))]),
            ]),
        ),
        ("dihedrals", list(vec![hash(vec![("atoms", atoms(&["H", "O", "O", "H"])), ("type", text("null"))])])),
    ]);
    let (system, r) = read(&doc);
    assert_eq!(r, config(ConfigError::WrongAtomCount { section: Section::Angles, expected: 3, found: 2 }));
    assert_eq!(system.pair_interactions.len(), 1);
    assert_eq!(system.angle_interactions.len(), 1);
    assert!(system.dihedral_interactions.is_empty());
}

#[test]
fn charges_update_named_particles() {
    let mut particles = vec![
        Particle { name: "Na".to_string(), charge: Decimal { negative: false, digits: 0, scale: 0 } },
        Particle { name: "Cl".to_string(), charge: Decimal { negative: false, digits: 0, scale: 0 } },
        Particle { name: "Na".to_string(), charge: Decimal { negative: false, digits: 0, scale: 0 } },
    ];
    let q = Decimal { negative: false, digits: 9, scale: 1 };
    assert_eq!(assign_charge(&mut particles, "Na", q), 2);
    assert_eq!(particles[0].charge, q);
    assert_eq!(particles[1].charge, Decimal { negative: false, digits: 0, scale: 0 });
    assert_eq!(particles[2].charge, q);
    assert_eq!(assign_charge(&mut particles, "K", q), 0);
}

#[test]
fn bad_charges() {
    let mut system = System::new();
    system.add_particle("Na".to_string());
    let record = |charges: Node| hash(vec![("coulomb", hash(vec![("type", text("wolf")), ("cutoff", text("8 A")), ("charges", charges)]))]);
    let r = read_interactions_document(&mut system, &record(hash(vec![("Na", Node::Integer(1))])));
    assert_eq!(r, config(ConfigError::BadCharge { position: 0, name: Some("Na".to_string()), value: None }));
    let r = read_interactions_document(&mut system, &record(hash(vec![("Na", text("abc"))])));
    assert_eq!(
        r,
        config(ConfigError::BadCharge { position: 0, name: Some("Na".to_string()), value: Some("abc".to_string()) })
    );
    let r = read_interactions_document(
        &mut system,
        &record(Node::Hash(vec![
            (text("Na"), decimal_text("0.5")),
            (Node::Integer(3), decimal_text("0.1")),
        ])),
    );
    assert_eq!(
        r,
        config(ConfigError::BadCharge { position: 1, name: None, value: Some("0.1".to_string()) })
    );
    assert_eq!(system.particles[0].charge, Decimal { negative: false, digits: 5, scale: 1 });
    let r = read_interactions_document(&mut system, &record(hash(vec![("Na", decimal_text(".inf"))])));
    assert_eq!(
        r,
        config(ConfigError::BadCharge { position: 0, name: Some("Na".to_string()), value: Some(".inf".to_string()) })
    );
    let r = read_interactions_document(&mut system, &record(hash(vec![("Na", decimal_text("0.9")), ("Cl", decimal_text("-0.9"))])));
    assert_eq!(r, config(ConfigError::NoParticleNamed { name: "Cl".to_string() }));
    assert_eq!(system.particles[0].charge, Decimal { negative: false, digits: 9, scale: 1 });
}

#[test]
fn type_names_ignore_case() {
    let node = hash(vec![("type", text("NULLPOTENTIAL"))]);
    assert_eq!(read_pair_potential(&node), Ok(PairPotential::NullPotential));
    let node = hash(vec![("type", text("ExClUdE13"))]);
    assert_eq!(read_restriction(&node), Ok(PairRestriction::Exclude13));
}

#[test]
fn absent_sections_are_not_errors() {
    let (system, r) = read(&hash(vec![("other", Node::Null)]));
    assert_eq!(r, Ok(()));
    assert!(system.pair_interactions.is_empty() && system.coulomb.is_none());
    let (_, r) = read(&Node::Null);
    assert_eq!(r, Ok(()));
}

#[test]
fn charges_with_exponent() {
    let mut system = System::new();
    system.add_particle("O".to_string());
    system.add_particle("H".to_string());
    system.add_particle("O".to_string());
    let record = |charges: Node| hash(vec![("coulomb", hash(vec![("type", text("wolf")), ("cutoff", text("8 A")), ("charges", charges)]))]);
    let r = read_interactions_document(&mut system, &record(hash(vec![("O", decimal_text("1e-1"))])));
    assert_eq!(r, Ok(()));
    let q = Decimal { negative: false, digits: 1, scale: 1 };
    assert_eq!(system.particles[0].charge, q);
    assert_eq!(system.particles[2].charge, q);
    assert_eq!(system.particles[1].charge, Decimal { negative: false, digits: 0, scale: 0 });
    let r = read_interactions_document(&mut system, &record(hash(vec![("Cl", decimal_text("-1E0"))])));
    assert_eq!(r, config(ConfigError::NoParticleNamed { name: "Cl".to_string() }));
}

#[test]
fn scaling_with_exponent_or_not_finite() {
    let restriction = |scaling: &str| hash(vec![("type", text("scale14")), ("scaling", decimal_text(scaling))]);
    assert_eq!(
        read_restriction(&restriction("8e-1")),
        Ok(PairRestriction::Scale14 { scaling: Decimal { negative: false, digits: 8, scale: 1 } })
    );
    assert_eq!(
        read_restriction(&restriction("0.01E2")),
        Ok(PairRestriction::Scale14 { scaling: Decimal { negative: false, digits: 1, scale: 0 } })
    );
    assert_eq!(read_restriction(&restriction("1.5e0")), Err(Error::Config(ConfigError::ScalingOutOfRange)));
    assert_eq!(read_restriction(&restriction("2e1")), Err(Error::Config(ConfigError::ScalingOutOfRange)));
    assert_eq!(read_restriction(&restriction(".nan")), Err(Error::Config(ConfigError::ScalingOutOfRange)));
    assert_eq!(read_restriction(&restriction(".inf")), Err(Error::Config(ConfigError::ScalingOutOfRange)));
    assert_eq!(read_restriction(&restriction("-Infinity")), Err(Error::Config(ConfigError::ScalingOutOfRange)));
    assert_eq!(read_restriction(&restriction("NaN")), Err(Error::Config(ConfigError::ScalingOutOfRange)));
    assert_eq!(read_restriction(&restriction("1e400")), Err(Error::Config(ConfigError::MissingScaling)));
}

#[test]
fn dispatch_on_lowercase_type() {
    let t = "Exclude14".to_string();
    assert_eq!(restriction_of_type(&Node::Null, &t, "exclude14"), Ok(PairRestriction::Exclude14));
    assert_eq!(
        restriction_of_type(&Node::Null, &t, "Exclude14"),
        Err(Error::Config(ConfigError::UnknownType { section: Section::Restriction, name: t.clone() }))
    );
    let lj = hash(vec![("sigma", text("3.4 A")), ("epsilon", text("0.45 kJ/mol"))]);
    let t = "Lennard-Jones".to_string();
    assert_eq!(
        pair_potential_of_type(&lj, &t, "lennard-jones"),
        Ok(PairPotential::LennardJones { sigma: "3.4 A".to_string(), epsilon: "0.45 kJ/mol".to_string() })
    );
    assert_eq!(pair_potential_of_type(&lj, &t, "null"), Ok(PairPotential::NullPotential));
    let cutoff = hash(vec![("cutoff", text("9 A"))]);
    assert_eq!(
        pair_computation_of_type(&cutoff, &"Cutoff".to_string(), "cutoff", PairPotential::NullPotential),
        Ok(PairPotential::Cutoff { inner: Box::new(PairPotential::NullPotential), cutoff: "9 A".to_string() })
    );
    let harmonic = hash(vec![("k", text("1 kJ/mol")), ("x0", text("2 deg"))]);
    assert_eq!(
        angle_potential_of_type(&harmonic, &"Cosine-Harmonic".to_string(), "cosine-harmonic"),
        Ok(AnglePotential::CosineHarmonic { k: "1 kJ/mol".to_string(), x0: "2 deg".to_string() })
    );
    assert_eq!(
        dihedral_potential_of_type(&harmonic, &"Harmonic".to_string(), "harmonic"),
        Ok(DihedralPotential::Harmonic { k: "1 kJ/mol".to_string(), x0: "2 deg".to_string() })
    );
    assert_eq!(
        coulomb_potential_of_type(&cutoff, &"Wolf".to_string(), "wolf"),
        Ok(CoulombicPotential { solver: CoulombSolver::Wolf { cutoff: "9 A".to_string() }, restriction: None })
    );
}
