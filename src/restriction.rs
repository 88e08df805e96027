//! Restrictions that decide whether a non-bonded interaction applies to a
//! pair of particles, and with which scaling.
use vstd::prelude::*;

use crate::connectivity::Connectivity;
use crate::decimal::Decimal;

verus! {

/// Which pairs of particles a non-bonded interaction applies to.
#[derive(Clone, Copy, Debug, PartialEq, Eq, Structural, Hash)]
pub enum PairRestriction {
    /// Every pair, unscaled.
    NoRestriction,
    /// Only pairs within one molecule.
    IntraMolecular,
    /// Only pairs across two molecules.
    InterMolecular,
    /// No pair separated by one bond.
    Exclude12,
    /// No pair separated by two bonds.
    Exclude13,
    /// No pair separated by three bonds.
    Exclude14,
    /// Every pair; those separated by three bonds scaled by `scaling`.
    Scale14 { scaling: Decimal },
}

/// Whether the interaction is active for a pair, and its scaling factor.
#[derive(Clone, Copy, Debug, PartialEq, Eq, Structural, Hash)]
pub struct RestrictionInfo {
    pub active: bool,
    pub scaling: Decimal,
}

impl PairRestriction {
    /// A restriction is well formed when its scaling lies in `[0, 1]`.
    pub open spec fn wf(&self) -> bool {
        match self {
            PairRestriction::Scale14 { scaling } => scaling.in_unit_interval(),
            _ => true,
        }
    }

    /// What the restriction decides for a pair with connectivity `c`, in one
    /// molecule when `same_molecule` holds.
    pub open spec fn spec_information(&self, c: Connectivity, same_molecule: bool) -> RestrictionInfo {
        let one = Decimal::spec_one();
        match self {
            PairRestriction::NoRestriction => RestrictionInfo { active: true, scaling: one },
            PairRestriction::IntraMolecular => RestrictionInfo { active: same_molecule, scaling: one },
            PairRestriction::InterMolecular => RestrictionInfo { active: !same_molecule, scaling: one },
            PairRestriction::Exclude12 => RestrictionInfo { active: !c.bond12, scaling: one },
            PairRestriction::Exclude13 => RestrictionInfo { active: !c.bond13, scaling: one },
            PairRestriction::Exclude14 => RestrictionInfo { active: !c.bond14, scaling: one },
            PairRestriction::Scale14 { scaling } => RestrictionInfo {
                active: true,
                scaling: if c.bond14 {
                    *scaling
                } else {
                    one
                },
            },
        }
    }

    /// The `Scale14` restriction with the given scaling, refused unless the
    /// scaling lies in `[0, 1]`.
    pub fn scale14(scaling: Decimal) -> (r: Option<PairRestriction>)
        ensures
            scaling.in_unit_interval() ==> r == Some(PairRestriction::Scale14 { scaling }),
            !scaling.in_unit_interval() ==> r is None,
    {
        if scaling.is_in_unit_interval() {
            Some(PairRestriction::Scale14 { scaling })
        } else {
            None
        }
    }

    /// Decide whether the interaction applies to a pair with connectivity
    /// `c`, in one molecule when `same_molecule` holds, and with which
    /// scaling.
    pub fn information(&self, c: Connectivity, same_molecule: bool) -> (r: RestrictionInfo)
        ensures
            r == self.spec_information(c, same_molecule),
    {
        let one = Decimal::one();
        match self {
            PairRestriction::NoRestriction => RestrictionInfo { active: true, scaling: one },
            PairRestriction::IntraMolecular => RestrictionInfo { active: same_molecule, scaling: one },
            PairRestriction::InterMolecular => RestrictionInfo { active: !same_molecule, scaling: one },
            PairRestriction::Exclude12 => RestrictionInfo { active: !c.bond12, scaling: one },
            PairRestriction::Exclude13 => RestrictionInfo { active: !c.bond13, scaling: one },
            PairRestriction::Exclude14 => RestrictionInfo { active: !c.bond14, scaling: one },
            PairRestriction::Scale14 { scaling } => RestrictionInfo {
                active: true,
                scaling: if c.bond14 {
                    *scaling
                } else {
                    one
                },
            },
        }
    }
}

/// Exclusions act on the bond count alone: a pair separated by three bonds
/// is left out by `Exclude14`, and a far pair is kept by every exclusion.
pub proof fn lemma_exclusions(c: Connectivity, same_molecule: bool)
    ensures
        c.bond14 ==> !PairRestriction::Exclude14.spec_information(c, same_molecule).active,
        c == Connectivity::spec_far() ==> {
            &&& PairRestriction::Exclude12.spec_information(c, same_molecule).active
            &&& PairRestriction::Exclude13.spec_information(c, same_molecule).active
            &&& PairRestriction::Exclude14.spec_information(c, same_molecule).active
        },
{
}

/// `Scale14` keeps every pair, scales pairs separated by three bonds by its
/// factor, and leaves far pairs unscaled.
pub proof fn lemma_scale14(scaling: Decimal, c: Connectivity, same_molecule: bool)
    ensures
        ({
            let info = (PairRestriction::Scale14 { scaling }).spec_information(c, same_molecule);
            &&& info.active
            &&& c.bond14 ==> info.scaling == scaling
            &&& c == Connectivity::spec_far() ==> info.scaling == Decimal::spec_one()
        }),
{
}

} // verus!
