use access_registry::token_starter::{create_mint, increment, Counter, ErrorCode, MINT_DECIMALS};

#[test]
fn counter_goes_up_by_one() {
    let mut counter = Counter { count: 0 };
    increment(&mut counter);
    assert_eq!(counter.count, 1);
    increment(&mut counter);
    assert_eq!(counter, Counter { count: 2 });
    let mut high = Counter { count: u64::MAX - 1 };
    increment(&mut high);
    assert_eq!(high.count, u64::MAX);
}

#[test]
fn mint_takes_nine_decimals_only() {
    assert_eq!(MINT_DECIMALS, 9);
    assert_eq!(create_mint(9), Ok(()));
    for decimals in [0u8, 6, 8, 10, 18, 255] {
        assert_eq!(create_mint(decimals), Err(ErrorCode::InvalidDecimals));
    }
}
