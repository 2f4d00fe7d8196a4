use wepcrack::rc4::RC4Cipher;

#[test]
fn test_rc4() {
    for (key, hex_keystream) in [
        ("Key", "EB9F7781B734CA72A719"),
        ("Secret", "04D46B053CA87B59"),
    ] {
        let mut gen = RC4Cipher::from_key(key.as_bytes());
        for i in (0..hex_keystream.len()).step_by(2) {
            assert_eq!(
                gen.gen_keystream_byte(),
                u8::from_str_radix(&hex_keystream[i..i + 2], 16).unwrap()
            );
        }
    }
}

#[test]
fn rc4_key_vector_byte_sequence() {
    let mut gen = RC4Cipher::from_key(&[0x4B, 0x65, 0x79]);
    let expected = [0xEB, 0x9F, 0x77, 0x81, 0xB7, 0x34, 0xCA, 0x72, 0xA7, 0x19];
    for b in expected {
        assert_eq!(gen.gen_keystream_byte(), b);
    }
}

#[test]
fn rc4_secret_vector_through_gen_keystream() {
    let mut gen = RC4Cipher::from_key(b"Secret");
    let mut out = [0u8; 8];
    gen.gen_keystream(&mut out);
    assert_eq!(out, [0x04, 0xD4, 0x6B, 0x05, 0x3C, 0xA8, 0x7B, 0x59]);
}

#[test]
fn rc4_new_is_identity() {
    let c = RC4Cipher::new();
    for k in 0..256 {
        assert_eq!(c.s[k], k as u8);
    }
    assert_eq!(c.i, 0);
    assert_eq!(c.j, 0);
    let d = RC4Cipher::default();
    assert_eq!(d.s, c.s);
}

#[test]
fn rc4_partial_schedule_in_two_steps() {
    let mut split = RC4Cipher::new();
    split.do_partial_keyschedule(&[0x01, 0x02]);
    split.do_partial_keyschedule(&[0x03, 0x04]);
    let mut whole = RC4Cipher::new();
    whole.do_partial_keyschedule(&[0x01, 0x02, 0x03, 0x04]);
    assert_eq!(split.s, whole.s);
    assert_eq!(split.i, whole.i);
    assert_eq!(split.j, whole.j);
    assert_eq!(whole.i, 4);
    assert_ne!(whole.s, RC4Cipher::new().s);
}

#[test]
fn rc4_partial_schedule_completed_matches_from_key() {
    let key: Vec<u8> = (0..16u32).map(|k| (k * 37 + 11) as u8).collect();
    let mut full = Vec::new();
    while full.len() < 256 {
        full.extend_from_slice(&key);
    }
    let mut c = RC4Cipher::new();
    c.do_partial_keyschedule(&full[..3]);
    c.do_partial_keyschedule(&full[3..]);
    assert_eq!(c.i, 256);
    c.i = 0;
    c.j = 0;
    let reference = RC4Cipher::from_key(&key);
    assert_eq!(c.s, reference.s);
    let mut a = [0u8; 32];
    let mut b = [0u8; 32];
    c.gen_keystream(&mut a);
    let mut r = reference;
    r.gen_keystream(&mut b);
    assert_eq!(a, b);
}

#[test]
fn rc4_gen_keystream_equals_bytes_one_by_one() {
    let mut a = RC4Cipher::from_key(&[1, 2, 3, 4, 5, 6, 7, 8]);
    let mut b = RC4Cipher::from_key(&[1, 2, 3, 4, 5, 6, 7, 8]);
    let mut out = [0u8; 300];
    a.gen_keystream(&mut out);
    for x in out {
        assert_eq!(b.gen_keystream_byte(), x);
    }
    assert_eq!(a.s, b.s);
    assert_eq!(a.i, b.i);
    assert_eq!(a.j, b.j);
}

#[test]
fn rc4_keystream_byte_from_any_counter() {
    let mut a = RC4Cipher::from_key(b"Key");
    let mut b = RC4Cipher::from_key(b"Key");
    a.i = 512;
    let x = a.gen_keystream_byte();
    let y = b.gen_keystream_byte();
    assert_eq!(x, y);
    assert_eq!(a.i, 1);
    assert_eq!(a.s, b.s);
}
