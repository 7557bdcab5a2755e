use omnipair_amm_sdk::{account_payload, OmnipairError};

#[test]
fn payload_skips_discriminator() {
    let data = [1u8, 2, 3, 4, 5, 6, 7, 8, 9, 10];
    assert_eq!(account_payload(&data), Ok(&data[8..]));
    assert_eq!(account_payload(&data[..8]), Ok(&[][..]));
}

#[test]
fn short_data_is_invalid() {
    assert_eq!(account_payload(&[0u8; 7]), Err(OmnipairError::InvalidAccountData));
    assert_eq!(account_payload(&[]), Err(OmnipairError::InvalidAccountData));
}
