use ark_serde_compat::config::ZkeyConvertConfig;
use ark_serde_compat::header::{check_header, InvalidHeaderError};

#[test]
fn header_is_held_against_the_expected_one() {
    assert_eq!(check_header(b"zkey", "zkey"), Ok(()));
    assert_eq!(check_header(b"r1cs", "r1cs"), Ok(()));
    assert_eq!(
        check_header(b"wtns", "zkey"),
        Err(InvalidHeaderError::WrongHeader("zkey".to_string(), "wtns".to_string()))
    );
    assert_eq!(
        check_header(b"zke", "zkey"),
        Err(InvalidHeaderError::WrongHeader("zkey".to_string(), "zke".to_string()))
    );
    assert_eq!(check_header(&[0xff, 0xfe, 0x00, 0x01], "zkey"), Err(InvalidHeaderError::Utf8Error));
    assert_eq!(check_header(&[0x7a, 0x6b, 0x65, 0xc3], "zkey"), Err(InvalidHeaderError::Utf8Error));
    assert_eq!(check_header("\u{e9}ab".as_bytes(), "\u{e9}ab"), Ok(()));
}

#[test]
fn conversion_settings() {
    let mut config = ZkeyConvertConfig {
        zkey_path: "circuit.zkey".to_string(),
        matrices_path: None,
        pk_path: None,
        arks_zkey_path: "arks.zkey".to_string(),
        uncompressed: false,
    };
    assert!(config.compressed());
    assert_eq!(config.output_count(), 1);
    config.uncompressed = true;
    config.pk_path = Some("pk.bin".to_string());
    assert!(!config.compressed());
    assert_eq!(config.output_count(), 2);
    config.matrices_path = Some("matrices.bin".to_string());
    assert_eq!(config.output_count(), 3);
}
