use wepcrack::rc4::RC4Cipher;
use wepcrack::wep::{KeystreamSample, WepKey, WepKeyParseError};

#[test]
fn create_rc4_seeds_with_iv_then_key() {
    let iv = [0xAA, 0xBB, 0xCC];
    let k40 = WepKey::Wep40Key([1, 2, 3, 4, 5]);
    let c = k40.create_rc4(&iv);
    let r = RC4Cipher::from_key(&[0xAA, 0xBB, 0xCC, 1, 2, 3, 4, 5]);
    assert_eq!(c.s, r.s);
    assert_eq!((c.i, c.j), (0, 0));

    let bytes: [u8; 13] = [9, 8, 7, 6, 5, 4, 3, 2, 1, 0, 11, 12, 13];
    let k104 = WepKey::Wep104Key(bytes);
    let c = k104.create_rc4(&iv);
    let mut seed = vec![0xAA, 0xBB, 0xCC];
    seed.extend_from_slice(&bytes);
    let r = RC4Cipher::from_key(&seed);
    assert_eq!(c.s, r.s);
}

#[test]
fn keystream_sample_from_key_holds_first_keystream_bytes() {
    let key = WepKey::Wep40Key([0x01, 0x02, 0x03, 0x04, 0x05]);
    let iv = [3, 255, 7];
    let sample = KeystreamSample::from_key(&key, iv);
    assert_eq!(sample.iv, iv);
    let mut c = RC4Cipher::from_key(&[3, 255, 7, 1, 2, 3, 4, 5]);
    for b in sample.keystream {
        assert_eq!(c.gen_keystream_byte(), b);
    }
}

#[test]
fn from_hex_wep40() {
    assert_eq!(
        WepKey::from_hex("0102030405"),
        Ok(WepKey::Wep40Key([1, 2, 3, 4, 5]))
    );
}

#[test]
fn from_hex_wep104_either_case() {
    assert_eq!(
        WepKey::from_hex("DEADbeef00112233445566aaFF"),
        Ok(WepKey::Wep104Key([
            0xDE, 0xAD, 0xBE, 0xEF, 0x00, 0x11, 0x22, 0x33, 0x44, 0x55, 0x66, 0xAA, 0xFF
        ]))
    );
}

#[test]
fn from_hex_rejects_non_hex() {
    assert_eq!(WepKey::from_hex("01020304zz"), Err(WepKeyParseError::InvalidHex));
    assert_eq!(WepKey::from_hex("010203040"), Err(WepKeyParseError::InvalidHex));
}

#[test]
fn from_hex_rejects_other_lengths() {
    assert_eq!(WepKey::from_hex("010203"), Err(WepKeyParseError::InvalidLength));
    assert_eq!(WepKey::from_hex(""), Err(WepKeyParseError::InvalidLength));
}
