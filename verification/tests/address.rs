use middleware::types::errors::UtilsError;
use middleware::utils::address::{from_h160, normalize, to_h160, H160};

const MIXED: &str = "0x52908400098527886E0F7030069857D2E4169EE7";
const LOWER: &str = "0x52908400098527886e0f7030069857d2e4169ee7";

#[test]
fn normalize_lowercases_and_keeps_prefix() {
    assert_eq!(normalize(MIXED), Ok(LOWER.to_string()));
}

#[test]
fn normalize_adds_missing_prefix() {
    assert_eq!(normalize("52908400098527886E0F7030069857D2E4169EE7"), Ok(LOWER.to_string()));
}

#[test]
fn normalize_skips_spaces_between_digits() {
    assert_eq!(
        normalize("0x5290 8400 0985 2788 6E0F 7030 0698 57D2 E416 9EE7"),
        Ok(LOWER.to_string())
    );
}

#[test]
fn normalize_is_idempotent_on_example() {
    let once = normalize(MIXED).unwrap();
    let twice = normalize(&once).unwrap();
    assert_eq!(once, twice);
}

#[test]
fn normalize_rejects_short_address() {
    assert_eq!(
        normalize("0x1234"),
        Err(UtilsError::InvalidAddressFormat("Invalid input length".to_string()))
    );
}

#[test]
fn normalize_rejects_long_address() {
    assert_eq!(
        normalize("0x52908400098527886E0F7030069857D2E4169EE700"),
        Err(UtilsError::InvalidAddressFormat("Invalid input length".to_string()))
    );
}

#[test]
fn normalize_rejects_bad_character() {
    assert_eq!(
        normalize("0xg2908400098527886E0F7030069857D2E4169EE7"),
        Err(UtilsError::InvalidAddressFormat(
            "Invalid character 'g' at position 0".to_string()
        ))
    );
}

#[test]
fn normalize_rejects_upper_case_prefix() {
    assert!(matches!(
        normalize("0X52908400098527886E0F7030069857D2E4169EE7"),
        Err(UtilsError::InvalidAddressFormat(_))
    ));
}

#[test]
fn to_h160_reads_bytes_in_order() {
    let h = to_h160(MIXED).unwrap();
    assert_eq!(h.0[0], 0x52);
    assert_eq!(h.0[1], 0x90);
    assert_eq!(h.0[19], 0xe7);
}

#[test]
fn from_h160_writes_lower_hex() {
    let mut bytes = [0u8; 20];
    bytes[0] = 0xab;
    bytes[19] = 0x0f;
    assert_eq!(from_h160(&H160(bytes)), "0xab0000000000000000000000000000000000000f");
}
