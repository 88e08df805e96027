use cymbalum::connectivity::Connectivity;
use cymbalum::decimal::{parse_decimal, Decimal};
use cymbalum::restriction::{PairRestriction, RestrictionInfo};

fn dec(negative: bool, digits: u64, scale: usize) -> Decimal {
    Decimal { negative, digits, scale }
}

fn only14() -> Connectivity {
    Connectivity { bond12: false, bond13: false, bond14: true, far: false }
}

#[test]
fn exclude14_on_14_pair_is_inactive() {
    let info = PairRestriction::Exclude14.information(only14(), true);
    assert!(!info.active);
    let info = PairRestriction::Exclude14.information(Connectivity::default(), true);
    assert!(info.active);
    assert_eq!(info.scaling, Decimal::one());
}

#[test]
fn exclusions_keep_far_pairs() {
    for r in [PairRestriction::Exclude12, PairRestriction::Exclude13, PairRestriction::Exclude14] {
        assert!(r.information(Connectivity::default(), false).active);
    }
    let c12 = Connectivity { bond12: true, bond13: false, bond14: false, far: false };
    assert!(!PairRestriction::Exclude12.information(c12, true).active);
    assert!(PairRestriction::Exclude13.information(c12, true).active);
}

#[test]
fn molecule_restrictions() {
    let far = Connectivity::default();
    assert!(PairRestriction::IntraMolecular.information(far, true).active);
    assert!(!PairRestriction::IntraMolecular.information(far, false).active);
    assert!(!PairRestriction::InterMolecular.information(far, true).active);
    assert!(PairRestriction::InterMolecular.information(far, false).active);
    assert!(PairRestriction::NoRestriction.information(only14(), false).active);
}

#[test]
fn scale14_scaling() {
    let r = PairRestriction::scale14(dec(false, 8, 1)).unwrap();
    assert_eq!(r.information(only14(), true), RestrictionInfo { active: true, scaling: dec(false, 8, 1) });
    assert_eq!(
        r.information(Connectivity::default(), true),
        RestrictionInfo { active: true, scaling: dec(false, 1, 0) }
    );
    assert!(PairRestriction::scale14(dec(false, 15, 1)).is_none());
    assert!(PairRestriction::scale14(dec(true, 1, 1)).is_none());
    assert!(PairRestriction::scale14(dec(false, 1, 0)).is_some());
    assert!(PairRestriction::scale14(dec(true, 0, 3)).is_some());
    assert!(PairRestriction::scale14(dec(false, 1000, 3)).is_some());
    assert!(PairRestriction::scale14(dec(false, 1001, 3)).is_none());
    assert!(PairRestriction::scale14(dec(false, u64::MAX, 25)).is_some());
}

#[test]
fn decimal_parsing() {
    assert_eq!(parse_decimal("0.8"), Some(dec(false, 8, 1)));
    assert_eq!(parse_decimal("-1.8"), Some(dec(true, 18, 1)));
    assert_eq!(parse_decimal("+0.25"), Some(dec(false, 25, 2)));
    assert_eq!(parse_decimal("12"), Some(dec(false, 12, 0)));
    assert_eq!(parse_decimal(".5"), Some(dec(false, 5, 1)));
    assert_eq!(parse_decimal("3."), Some(dec(false, 3, 0)));
    assert_eq!(parse_decimal("18446744073709551615"), Some(dec(false, u64::MAX, 0)));
    assert_eq!(parse_decimal("18446744073709551616"), None);
    assert_eq!(parse_decimal(""), None);
    assert_eq!(parse_decimal("."), None);
    assert_eq!(parse_decimal("-"), None);
    assert_eq!(parse_decimal("1.2.3"), None);
    assert_eq!(parse_decimal("1e3"), Some(dec(false, 1000, 0)));
    assert_eq!(parse_decimal("8e-1"), Some(dec(false, 8, 1)));
    assert_eq!(parse_decimal("-1.25E+1"), Some(dec(true, 125, 1)));
    assert_eq!(parse_decimal("1.5e1"), Some(dec(false, 15, 0)));
    assert_eq!(parse_decimal("0e99999"), Some(dec(false, 0, 0)));
    assert_eq!(parse_decimal("1e19"), Some(dec(false, 10000000000000000000, 0)));
    assert_eq!(parse_decimal("2e19"), None);
    assert_eq!(parse_decimal("1e"), None);
    assert_eq!(parse_decimal("1e+"), None);
    assert_eq!(parse_decimal("e5"), None);
    assert_eq!(parse_decimal("1e2.5"), None);
    assert_eq!(parse_decimal("abc"), None);
}
