use jet::errors::ErrorCode;
use jet::number::Number;
use jet::pubkey::Pubkey;
use jet::state::cache::CacheInvalidError;
use jet::state::market::{Market, MarketReserves, Product};

fn key(n: u64) -> Pubkey {
    Pubkey::new(n, 0, 0, 0)
}

fn usd_market() -> Market {
    let mut currency = [0u8; 15];
    currency[..3].copy_from_slice(b"USD");
    Market::new(-6, currency, [254], key(1), key(2), key(3), key(4))
}

fn product(attributes: &[(&[u8], &[u8])], px_acc: Pubkey) -> Product {
    let mut attr = Vec::new();
    for (k, v) in attributes {
        attr.push(k.len() as u8);
        attr.extend_from_slice(k);
        attr.push(v.len() as u8);
        attr.extend_from_slice(v);
    }
    attr.extend_from_slice(&[0, 0, 0, 0]);
    Product { attr, px_acc }
}

#[test]
fn register_reserves_until_full() {
    let mut reserves = MarketReserves::zeroed();
    for i in 0..32u64 {
        assert_eq!(reserves.register(&key(10 + i)), Ok(i as u16));
    }
    assert_eq!(reserves.register(&key(99)), Err(ErrorCode::NoFreeReserves));
    assert_eq!(reserves.iter().len(), 32);
    assert_eq!(reserves.get(5).reserve, key(15));
}

#[test]
fn removed_reserve_slot_is_reused() {
    let mut reserves = MarketReserves::zeroed();
    reserves.register(&key(10)).unwrap();
    reserves.register(&key(11)).unwrap();
    reserves.register(&key(12)).unwrap();
    reserves.remove(1);
    assert!(reserves.get(1).reserve.is_default());
    assert_eq!(reserves.iter().len(), 1);
    assert_eq!(reserves.register(&key(13)), Ok(1));
    assert_eq!(reserves.get(1).reserve, key(13));
    assert_eq!(reserves.iter().len(), 3);
}

#[test]
fn cached_reserve_values() {
    let mut reserves = MarketReserves::zeroed();
    let index = reserves.register(&key(10)).unwrap();
    reserves.get_mut(index).cache.get_stale_mut().price = Number::from_u64(9);
    assert_eq!(reserves.get_cached(index, 1).price, Number::from_u64(9));
    reserves.get_cached_mut(index, 0).price = Number::from_u64(8);
    assert_eq!(reserves.get(index).unwrap(0).price, Number::from_u64(8));
    reserves.get_mut(index).unwrap_mut(1).liquidation_bonus = 3;
    assert_eq!(reserves.get(index).cache.get_stale().liquidation_bonus, 3);
    // the reserve cache lives for one slot
    assert!(reserves.get(index).cache.try_get(1).is_ok());
    assert_eq!(
        reserves.get(index).cache.try_get(2).err(),
        Some(CacheInvalidError::Expired)
    );
}

#[test]
fn market_quote_currency_and_seeds() {
    let mut market = usd_market();
    assert_eq!(market.quote_currency(), "USD");
    let (seed, bump) = market.authority_seeds();
    assert_eq!(seed[0], 1);
    assert_eq!(&seed[1..], &[0u8; 31][..]);
    assert_eq!(bump, [254]);
    market.reserves_mut().register(&key(10)).unwrap();
    assert_eq!(market.reserves().iter().len(), 1);
}

#[test]
fn validate_oracle_accepts_matching_product() {
    let market = usd_market();
    let p = product(&[(b"symbol", b"SOL/USD"), (b"quote_currency", b"USD")], key(7));
    assert_eq!(market.validate_oracle(&p, &key(7)), Ok(()));
}

#[test]
fn validate_oracle_rejects_mismatches() {
    let market = usd_market();
    let other_currency = product(&[(b"quote_currency", b"EUR")], key(7));
    assert_eq!(
        market.validate_oracle(&other_currency, &key(7)),
        Err(ErrorCode::InvalidOracle)
    );
    let no_currency = product(&[(b"symbol", b"SOL/USD")], key(7));
    assert_eq!(
        market.validate_oracle(&no_currency, &key(7)),
        Err(ErrorCode::InvalidOracle)
    );
    let other_price = product(&[(b"quote_currency", b"USD")], key(8));
    assert_eq!(
        market.validate_oracle(&other_price, &key(7)),
        Err(ErrorCode::InvalidOracle)
    );
}

#[test]
fn iterate_registered_reserves_mutably() {
    let mut reserves = MarketReserves::zeroed();
    reserves.register(&key(10)).unwrap();
    reserves.register(&key(11)).unwrap();
    let registered = reserves.iter_mut();
    assert_eq!(registered.len(), 2);
    for entry in registered.iter_mut() {
        entry.cache.get_stale_mut().liquidation_bonus = 7;
    }
    assert_eq!(reserves.get(0).cache.get_stale().liquidation_bonus, 7);
    assert_eq!(reserves.get(1).cache.get_stale().liquidation_bonus, 7);
    assert_eq!(reserves.get(2).cache.get_stale().liquidation_bonus, 0);
}

use jet::state::market::CachedReserveInfo;

#[test]
fn note_round_trip_never_creates_tokens() {
    let rates = [
        Number::from_bps(15000),
        Number::from_u64(3),
        Number::from_bps(7),
        Number::from_u64(1),
    ];
    for rate in rates {
        let mut info = CachedReserveInfo::zeroed();
        info.deposit_note_exchange_rate = rate;
        info.loan_note_exchange_rate = rate;
        for tokens in 0..200u64 {
            let notes = info.deposit_notes_from_tokens(tokens);
            assert!(info.deposit_notes_to_tokens(notes) <= tokens);
            let notes = info.loan_notes_from_tokens(tokens);
            assert!(info.loan_notes_to_tokens(notes) <= tokens);
        }
    }
    let mut info = CachedReserveInfo::zeroed();
    info.deposit_note_exchange_rate = Number::from_bps(15000);
    // 10 tokens are 6 notes at 1.5 tokens per note, worth 9 tokens
    assert_eq!(info.deposit_notes_from_tokens(10), 6);
    assert_eq!(info.deposit_notes_to_tokens(6), 9);
}
