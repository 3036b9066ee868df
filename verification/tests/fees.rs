use factoring::amount::Amount;
use factoring::factoring::Factoring;
use factoring::fees::{calculate_advance, mul_div};
use factoring::storage::FactoringState;
use factoring::types::{Invoice, Status, TokenId};

fn amt(x: u128) -> Amount {
    Amount::from_u128(x)
}

fn invoice(amount: Amount, issue_date: u64, due_date: u64, euribor_rate: u32) -> Invoice {
    Invoice {
        hash: vec![],
        amount,
        identifier: TokenId { len: 4, hi: 0, lo: 1 },
        status: Status::Payed,
        issue_date,
        due_date,
        euribor_rate,
        payed_date: None,
    }
}

#[test]
fn mul_div_is_exact() {
    assert_eq!(mul_div(&amt(10), 7, 3), amt(23));
    assert_eq!(mul_div(&amt(u128::MAX), 7_000, 10_000), amt(u128::MAX / 10 * 7 + (u128::MAX % 10) * 7 / 10));
    // the intermediate product exceeds 128 bits and is kept whole
    assert_eq!(mul_div(&amt(u128::MAX), 2, 1), amt(u128::MAX).add(&amt(u128::MAX)));
    assert_eq!(mul_div(&amt(u128::MAX), 3, 3), amt(u128::MAX));
    assert_eq!(mul_div(&amt(0), 5, 9), amt(0));
}

#[test]
fn amount_arithmetic() {
    let big = amt(u128::MAX).mul_small(u64::MAX);
    assert_eq!(big.div_small(u64::MAX), amt(u128::MAX));
    assert_eq!(big.checked_sub(&big), Some(amt(0)));
    assert!(amt(3).checked_sub(&amt(4)).is_none());
    assert_eq!(amt(u128::MAX).add(&amt(1)).checked_sub(&amt(u128::MAX)), Some(amt(1)));
    assert!(big.ge(&amt(u128::MAX)));
    assert!(!amt(u128::MAX).ge(&big));
    assert!(Amount::zero().is_zero());
    assert!(amt(0).is_zero());
    assert!(!amt(1 << 100).is_zero());
    // a zero limb on top does not change the value
    assert_eq!(Amount { limbs: vec![5, 0, 0] }, amt(5));
}

#[test]
fn advance_is_seventy_percent_rounded_down() {
    assert_eq!(calculate_advance(&amt(10_000)), amt(7_000));
    assert_eq!(calculate_advance(&amt(10_001)), amt(7_000));
    assert_eq!(calculate_advance(&amt(1)), amt(0));
    assert_eq!(calculate_advance(&amt(u128::MAX)), amt(u128::MAX / 10 * 7 + (u128::MAX % 10) * 7 / 10));
}

#[test]
fn commission_is_one_percent() {
    let s = FactoringState::new();
    assert_eq!(s.calculate_commission(&amt(1_000_000)), amt(10_000));
    assert_eq!(s.calculate_commission(&amt(99)), amt(0));
    assert_eq!(s.calculate_commission(&amt(u128::MAX)), amt(u128::MAX / 100));
}

#[test]
fn financing_fees_over_whole_days() {
    let s = FactoringState::new();
    // 30 days at 365 basis points a year on 1_000_000
    assert_eq!(s.calculate_financing_fees(&amt(1_000_000), 86_400 * 30, 0, 365), amt(3_000));
    // partial days do not count
    assert_eq!(s.calculate_financing_fees(&amt(1_000_000), 86_400 * 30 + 86_399, 0, 365), amt(3_000));
    assert_eq!(s.calculate_financing_fees(&amt(1_000_000), 86_399, 0, 365), amt(0));
    // one year at 100% (10_000 basis points) equals the amount
    assert_eq!(s.calculate_financing_fees(&amt(1_000), 86_400 * 365, 0, 10_000), amt(1_000));
}

#[test]
fn financing_fees_beyond_128_bits_are_exact() {
    let s = FactoringState::new();
    // one year at 10_000 basis points charges the whole amount, however large
    assert_eq!(s.calculate_financing_fees(&amt(u128::MAX), 86_400 * 365, 0, 10_000), amt(u128::MAX));
    // two years at that rate charge twice the amount, past 128 bits
    let doubled = amt(u128::MAX).mul_small(2);
    assert_eq!(s.calculate_financing_fees(&amt(u128::MAX), 86_400 * 730, 0, 10_000), doubled);
    // the largest inputs: amount * rate * days / 3_650_000, with days = u64::MAX / 86_400
    let days = u64::MAX / 86_400;
    let expected = amt(u128::MAX).mul_small(u32::MAX as u64).mul_small(days).div_small(3_650_000);
    assert_eq!(s.calculate_financing_fees(&amt(u128::MAX), u64::MAX, 0, u32::MAX), expected);
    assert!(expected.ge(&amt(u128::MAX)));
}

#[test]
fn total_fees_add_commission_and_financing() {
    let s = FactoringState::new();
    assert_eq!(s.calculate_total_fees(&invoice(amt(1_000_000), 0, 86_400 * 30, 365)), amt(13_000));
    let big = invoice(amt(u128::MAX), 0, 86_400 * 730, 10_000);
    let expected = amt(u128::MAX).mul_small(2).add(&amt(u128::MAX / 100));
    assert_eq!(s.calculate_total_fees(&big), expected);
}

#[test]
fn overdue_rules() {
    let s = FactoringState::new();
    assert!(!s.is_invoice_overdue(100, None, 100));
    assert!(s.is_invoice_overdue(100, None, 101));
    assert!(!s.is_invoice_overdue(100, Some(100), 500));
    assert!(s.is_invoice_overdue(100, Some(101), 500));
    assert!(!s.is_invoice_overdue(100, Some(101), 100));
}

#[test]
fn amounts_to_and_from_big_endian_bytes() {
    assert_eq!(Amount::from_be_bytes(&[]), amt(0));
    assert_eq!(Amount::from_be_bytes(&[0, 0, 1, 0]), amt(256));
    assert_eq!(Amount::from_be_bytes(&u128::MAX.to_be_bytes()), amt(u128::MAX));
    assert_eq!(amt(0).to_be_bytes(), Vec::<u8>::new());
    assert_eq!(amt(256).to_be_bytes(), vec![1, 0]);
    assert_eq!(amt(0x0102_0304).to_be_bytes(), vec![1, 2, 3, 4]);
    let big = amt(u128::MAX).mul_small(0x100);
    let mut expected = vec![0xff; 16];
    expected.push(0);
    assert_eq!(big.to_be_bytes(), expected);
    assert_eq!(Amount::from_be_bytes(&expected), big);
    let (q, r) = amt(1_000).div_rem_small(7);
    assert_eq!((q, r), (amt(142), 6));
}
