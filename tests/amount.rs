use ln_types::amount::{Denomination, MAX_MONEY_MSAT, MAX_MONEY_SAT};
use ln_types::Amount;

#[test]
fn amount_max() {
    assert_eq!(Amount::from_msat(MAX_MONEY_MSAT).unwrap(), Amount::max_value());
}

#[test]
fn parse_amount_error_empty() {
    let e = "".parse::<Amount>().unwrap_err();
    assert_eq!(e.input(), "");
    assert!(e.is_invalid_integer());
    assert!(e.overflow().is_none());
}

#[test]
fn parse_amount_error_overflow() {
    let e = "2100000000000000001".parse::<Amount>().unwrap_err();
    assert_eq!(e.input(), "2100000000000000001");
    assert!(!e.is_invalid_integer());
    let o = e.overflow().unwrap();
    assert_eq!(o.amount(), 2100000000000000001);
    assert_eq!(o.denomination(), Denomination::Millisatoshis);
}

#[test]
fn from_msat_bounds() {
    assert_eq!(Amount::from_msat(0).unwrap().to_msat(), 0);
    assert_eq!(Amount::from_msat(1000).unwrap(), Amount::one_sat());
    assert_eq!(Amount::from_msat(MAX_MONEY_MSAT).unwrap().to_msat(), 2_100_000_000_000_000_000);
    let e = Amount::from_msat(MAX_MONEY_MSAT + 1).unwrap_err();
    assert_eq!(e.amount(), MAX_MONEY_MSAT + 1);
    assert_eq!(e.denomination(), Denomination::Millisatoshis);
    assert!(Amount::from_msat(u64::MAX).is_err());
}

#[test]
fn from_sat_bounds() {
    assert_eq!(Amount::from_sat(100_000_000).unwrap(), Amount::one_btc());
    assert_eq!(Amount::from_sat(MAX_MONEY_SAT).unwrap(), Amount::max_value());
    let e = Amount::from_sat(MAX_MONEY_SAT + 1).unwrap_err();
    assert_eq!(e.amount(), MAX_MONEY_SAT + 1);
    assert_eq!(e.denomination(), Denomination::Satoshis);
    // multiplying by 1000 would overflow u64 here, the bound still applies
    assert!(Amount::from_sat(u64::MAX / 999).is_err());
}

#[test]
fn sat_conversions() {
    assert_eq!(Amount::one_sat().to_sat().unwrap(), 1);
    assert_eq!(Amount::from_msat(5000).unwrap().to_sat().unwrap(), 5);
    let e = Amount::one_msat().to_sat().unwrap_err();
    assert_eq!(e.amount(), 1);
    assert_eq!(Amount::one_msat().to_sat_floor(), 0);
    assert_eq!(Amount::one_msat().to_sat_ceiling(), 1);
    assert_eq!(Amount::one_msat().to_sat_round(), 0);
    let half = Amount::from_msat(1500).unwrap();
    assert_eq!(half.to_sat_floor(), 1);
    assert_eq!(half.to_sat_round(), 2);
    assert_eq!(half.to_sat_ceiling(), 2);
    let m = Amount::max_value();
    assert_eq!(m.to_sat_floor(), MAX_MONEY_SAT);
    assert_eq!(m.to_sat_ceiling(), MAX_MONEY_SAT);
    assert_eq!(m.to_sat_round(), MAX_MONEY_SAT);
}

#[test]
fn roundings_are_ordered() {
    for v in [0u64, 1, 499, 500, 501, 999, 1000, 1001, 123_456_789, MAX_MONEY_MSAT] {
        let a = Amount::from_msat(v).unwrap();
        assert!(a.to_sat_floor() <= a.to_sat_round());
        assert!(a.to_sat_round() <= a.to_sat_ceiling());
        if v % 1000 == 0 {
            let s = a.to_sat().unwrap();
            assert_eq!(s, a.to_sat_floor());
            assert_eq!(s, a.to_sat_round());
            assert_eq!(s, a.to_sat_ceiling());
        } else {
            assert!(a.to_sat().is_err());
        }
    }
}

#[test]
fn arithmetic() {
    let a = Amount::from_msat(1500).unwrap();
    let b = Amount::from_msat(700).unwrap();
    assert_eq!(a.add(b).to_msat(), 2200);
    assert_eq!(a.sub(b).to_msat(), 800);
    assert_eq!(a.mul(3).to_msat(), 4500);
    assert_eq!(a.div(4).to_msat(), 375);
    assert_eq!(a.rem(400).to_msat(), 300);
    let mut c = a;
    c.add_assign(b);
    assert_eq!(c.to_msat(), 2200);
    c.sub_assign(a);
    assert_eq!(c.to_msat(), 700);
    c.mul_assign(2);
    assert_eq!(c.to_msat(), 1400);
    c.div_assign(3);
    assert_eq!(c.to_msat(), 466);
    c.rem_assign(100);
    assert_eq!(c.to_msat(), 66);
    let full = Amount::max_value().sub(Amount::one_msat()).add(Amount::one_msat());
    assert_eq!(full, Amount::max_value());
}

#[test]
fn ordering_and_default() {
    assert!(Amount::one_msat() < Amount::one_sat());
    assert!(Amount::one_btc() < Amount::max_value());
    assert_eq!(Amount::default(), Amount::zero());
    assert_eq!(Amount::zero().to_msat(), 0);
}

#[test]
fn text_form() {
    assert_eq!(Amount::from_msat(42).unwrap().to_string(), "42 msat");
    assert_eq!(Amount::zero().to_string(), "0 msat");
    assert_eq!(Amount::max_value().to_string(), "2100000000000000000 msat");
}

#[test]
fn parse_forms() {
    assert_eq!(Amount::parse("42").unwrap().to_msat(), 42);
    assert_eq!(Amount::parse("42 msat").unwrap().to_msat(), 42);
    assert_eq!(Amount::parse("+7").unwrap().to_msat(), 7);
    assert_eq!(Amount::parse("2100000000000000000").unwrap(), Amount::max_value());
    assert!(Amount::parse(" msat").unwrap_err().is_invalid_integer());
    assert!(Amount::parse("42msat").unwrap_err().is_invalid_integer());
    assert!(Amount::parse("-1").unwrap_err().is_invalid_integer());
    assert!(Amount::parse("18446744073709551616").unwrap_err().is_invalid_integer());
    let o = Amount::parse("18446744073709551615 msat").unwrap_err().overflow().unwrap();
    assert_eq!(o.amount(), u64::MAX);
}

#[test]
fn text_round_trip() {
    for v in [0u64, 1, 999, 1000, 42_000, MAX_MONEY_MSAT] {
        let a = Amount::from_msat(v).unwrap();
        assert_eq!(a.to_string().parse::<Amount>().unwrap(), a);
    }
}

#[test]
fn bitcoin_units_conversions() {
    let btc = bitcoin_units::Amount::from_sat(21);
    let a = Amount::from_bitcoin_amount(btc).unwrap();
    assert_eq!(a.to_msat(), 21_000);
    assert_eq!(a.to_bitcoin_amount().unwrap().to_sat(), 21);
    assert!(Amount::from_bitcoin_amount(bitcoin_units::Amount::from_sat(MAX_MONEY_SAT + 1)).is_err());
    assert_eq!(Amount::one_msat().to_bitcoin_amount().unwrap_err().amount(), 1);
}
