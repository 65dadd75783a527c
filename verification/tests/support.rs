use jet::errors::ErrorCode;
use jet::instructions::route::{route_instruction, LIQUIDATE_DEX_INSTR_ID};
use jet::pubkey::Pubkey;
use jet::state::cache::{Cache, CacheInvalidError};
use jet::utils::{bytes_equal, read_pyth_product_attribute};

#[test]
fn route_liquidate_dex() {
    let mut data = LIQUIDATE_DEX_INSTR_ID.to_vec();
    data.extend_from_slice(&[1, 2, 3]);
    assert_eq!(route_instruction(&data), Ok(&[1u8, 2, 3][..]));
    let mut other = data.clone();
    other[0] = 0;
    assert_eq!(route_instruction(&other), Err(ErrorCode::UnknownInstruction));
}

#[test]
fn pyth_attribute_lookup() {
    let mut data = vec![0u8, 0];
    data.push(1);
    data.extend_from_slice(b"a");
    data.push(2);
    data.extend_from_slice(b"xy");
    data.push(3);
    data.extend_from_slice(b"key");
    data.push(0);
    data.push(3);
    data.extend_from_slice(b"key");
    data.push(1);
    data.extend_from_slice(b"z");
    assert_eq!(read_pyth_product_attribute(&data, b"a"), Some(&b"xy"[..]));
    assert_eq!(read_pyth_product_attribute(&data, b"key"), Some(&b""[..]));
    assert_eq!(read_pyth_product_attribute(&data, b"b"), None);
    // an entry running past the end is not read
    let truncated = [3u8, b'k', b'e', b'y', 5, b'v'];
    assert_eq!(read_pyth_product_attribute(&truncated, b"key"), None);
}

#[test]
fn byte_string_equality() {
    assert!(bytes_equal(b"abc", b"abc"));
    assert!(!bytes_equal(b"abc", b"abd"));
    assert!(!bytes_equal(b"ab", b"abc"));
}

#[test]
fn cache_validity_window() {
    let mut cache: Cache<u64, 1> = Cache::new(7, 10);
    assert_eq!(cache.try_get(10), Ok(&7));
    assert_eq!(cache.try_get(11), Ok(&7));
    assert_eq!(cache.try_get(12), Err(CacheInvalidError::Expired));
    assert_eq!(cache.try_get(9), Err(CacheInvalidError::TooNew));
    cache.invalidate();
    assert_eq!(cache.try_get(10), Err(CacheInvalidError::Invalidated));
    cache.refresh(20);
    assert_eq!(cache.try_get(20), Ok(&7));
    assert_eq!(cache.last_updated(), 20);
    *cache.get_stale_mut() = 8;
    assert_eq!(*cache.expect(21), 8);
    *cache.expect_mut(20) = 9;
    assert_eq!(*cache.get_stale(), 9);
}

#[test]
fn error_messages_and_conversion() {
    assert_eq!(ErrorCode::UnknownInstruction.message(), "unknown instruction");
    assert_eq!(
        ErrorCode::ObligationHealthy.message(),
        "cannot liquidate a healthy position"
    );
    assert_eq!(
        ErrorCode::from(jet_proto_math::Error::DivideByZero),
        ErrorCode::ArithmeticError
    );
}

#[test]
fn pubkey_bytes_and_default() {
    let k = Pubkey::new(0x0807060504030201, 0, 0, 0xff00000000000000);
    let bytes = k.to_bytes();
    assert_eq!(&bytes[..8], &[1, 2, 3, 4, 5, 6, 7, 8]);
    assert_eq!(bytes[31], 0xff);
    assert!(Pubkey::default().is_default());
    assert!(!k.is_default());
}
