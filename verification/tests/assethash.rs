use bletchmame::assethash::AssetHash;
use bletchmame::assethash::AssetHashError;
use bletchmame::chd::chd_asset_hash;
use bletchmame::chd::chd_header_is_complete;
use bletchmame::chd::ChdError;

#[test]
pub fn from_hex_strings() {
    let expected_crc = 0xF2345678;
    let expected_sha1 = [
        0x99, 0x88, 0x77, 0x66, 0x55, 0x44, 0x33, 0x22, 0x11, 0x00, 0x99, 0x88, 0x77, 0x66, 0x55, 0x44, 0x33, 0x22,
        0x11, 0xFF,
    ];
    let expected = AssetHash {
        crc: Some(expected_crc),
        sha1: Some(expected_sha1),
    };

    let crc_string = "F2345678";
    let sha1_string = "99887766554433221100998877665544332211FF";
    let actual = AssetHash::from_hex_strings(Some(crc_string), Some(sha1_string)).unwrap();
    assert_eq!(expected, actual);
}

fn display_of(crc: Option<&str>, sha1: Option<&str>) -> String {
    AssetHash::from_hex_strings(crc, sha1).unwrap().to_display_string()
}

#[test]
fn display_none() {
    assert_eq!("<<NONE>>", display_of(None, None));
}

#[test]
fn display_sha1_only() {
    assert_eq!(
        "SHA1(99887766554433221100998877665544332211ff)",
        display_of(None, Some("99887766554433221100998877665544332211FF"))
    );
}

#[test]
fn display_crc_only() {
    assert_eq!("CRC(abc45678)", display_of(Some("ABC45678"), None));
}

#[test]
fn display_crc_and_sha1() {
    assert_eq!(
        "CRC(f2345678) SHA1(ede87766554433221100998877665544332211ff)",
        display_of(Some("F2345678"), Some("EDE87766554433221100998877665544332211FF"))
    );
}

#[test]
fn from_hex_strings_rejects_bad_text() {
    assert_eq!(Err(AssetHashError::InvalidHex), AssetHash::from_hex_strings(Some("F234567"), None));
    assert_eq!(Err(AssetHashError::InvalidHex), AssetHash::from_hex_strings(Some("F234567G"), None));
    assert_eq!(Err(AssetHashError::InvalidHex), AssetHash::from_hex_strings(None, Some("99")));
}

#[test]
fn display_reads_back() {
    let hash = AssetHash::from_hex_strings(Some("0A0B0C0D"), Some("00112233445566778899aabbccddeeff00112233")).unwrap();
    let text = hash.to_display_string();
    assert_eq!("CRC(0a0b0c0d) SHA1(00112233445566778899aabbccddeeff00112233)", text);
    let again = AssetHash::from_hex_strings(Some(&text[4..12]), Some(&text[19..59])).unwrap();
    assert_eq!(hash, again);
}

#[test]
fn from_data_hashes() {
    let hash = AssetHash::from_data(b"hello");
    assert_eq!(Some(0x3610a686), hash.crc);
    let expected = AssetHash::from_hex_strings(Some("3610A686"), Some("aaf4c61ddcc5e8a2dabede0f3b482cd9aea9434d")).unwrap();
    assert_eq!(expected, hash);
    assert!(hash.matches(&expected));
}

#[test]
fn matches_known_checksums() {
    let both = AssetHash::from_hex_strings(Some("F2345678"), Some("99887766554433221100998877665544332211FF")).unwrap();
    let crc_only = AssetHash::from_hex_strings(Some("F2345678"), None).unwrap();
    let other_crc = AssetHash::from_hex_strings(Some("F2345679"), None).unwrap();
    let none = AssetHash::default();
    assert!(both.matches(&both));
    assert!(both.matches(&crc_only));
    assert!(crc_only.matches(&both));
    assert!(!both.matches(&other_crc));
    assert!(!other_crc.matches(&both));
    assert!(none.matches(&both));
    assert!(none.is_default());
    assert!(!both.is_default());
}

fn chd_header(version: u32, sha1_offset: usize, sha1: &[u8; 20]) -> Vec<u8> {
    let mut h = vec![0u8; 104];
    h[0..8].copy_from_slice(b"MComprHD");
    h[12..16].copy_from_slice(&version.to_be_bytes());
    h[sha1_offset..sha1_offset + 20].copy_from_slice(sha1);
    h
}

#[test]
fn chd_asset_hash_versions() {
    let sha1: [u8; 20] = [
        0xbf, 0xec, 0x48, 0xae, 0x24, 0x39, 0x30, 0x8a, 0xc3, 0xa5, 0x47, 0x23, 0x1a, 0x13, 0xf1, 0x22, 0xef, 0x30, 0x3c,
        0x76,
    ];
    let expected = AssetHash::from_hex_strings(None, Some("bfec48ae2439308ac3a547231a13f122ef303c76")).unwrap();
    assert_eq!(Ok(expected), chd_asset_hash(&chd_header(5, 84, &sha1)));
    assert_eq!(Ok(expected), chd_asset_hash(&chd_header(4, 48, &sha1)));
    assert_eq!(Ok(expected), chd_asset_hash(&chd_header(3, 80, &sha1)));
}

#[test]
fn chd_asset_hash_errors() {
    let sha1 = [0u8; 20];
    let mut bad_tag = chd_header(5, 84, &sha1);
    bad_tag[0] = b'X';
    assert_eq!(Err(ChdError::InvalidChdMagicNumber), chd_asset_hash(&bad_tag));
    assert_eq!(Err(ChdError::UnknownChdVersion), chd_asset_hash(&chd_header(6, 84, &sha1)));
}

#[test]
fn chd_header_completeness() {
    let sha1 = [7u8; 20];
    let mut v4 = chd_header(4, 48, &sha1);
    v4.truncate(68);
    assert!(chd_header_is_complete(&v4));
    assert_eq!(Ok(AssetHash { crc: None, sha1: Some(sha1) }), chd_asset_hash(&v4));
    v4.truncate(67);
    assert!(!chd_header_is_complete(&v4));
    let mut v3 = chd_header(3, 80, &sha1);
    v3.truncate(100);
    assert!(chd_header_is_complete(&v3));
    v3.truncate(99);
    assert!(!chd_header_is_complete(&v3));
    assert!(!chd_header_is_complete(&chd_header(5, 84, &sha1)[..103]));
    assert!(chd_header_is_complete(&chd_header(6, 84, &sha1)[..16]));
    assert!(chd_header_is_complete(b"not a chd header"));
    assert!(!chd_header_is_complete(b"short"));
}
