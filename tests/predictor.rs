use wepcrack::predictor::KeyPredictor;
use wepcrack::rc4::RC4Cipher;
use wepcrack::wep::{KeystreamSample, WepKey};

fn reference_sigmas(sample: &KeystreamSample) -> Vec<usize> {
    let mut c = RC4Cipher::new();
    c.do_partial_keyschedule(&sample.iv);
    let mut sinv = [0usize; 256];
    for y in 0..256 {
        sinv[c.s[y] as usize] = y;
    }
    let mut sum = 0i64;
    (0..13)
        .map(|i| {
            sum += c.s[3 + i] as i64;
            let t = (3 + i as i64 - sample.keystream[2 + i] as i64).rem_euclid(256) as usize;
            (sinv[t] as i64 - (c.j as i64 + sum)).rem_euclid(256) as usize
        })
        .collect()
}

#[test]
fn fresh_predictor_has_no_votes() {
    let p = KeyPredictor::new();
    assert_eq!(p.num_samples(), 0);
    for i in 0..13 {
        let row = p.sigma_votes(i);
        assert_eq!(row.len(), 256);
        assert!(row.iter().all(|v| *v == 0));
        assert_eq!(p.candidate_sigma(i), 255);
    }
}

#[test]
fn sample_votes_once_per_key_byte() {
    let key = WepKey::Wep104Key([7, 1, 2, 3, 4, 5, 6, 7, 8, 9, 10, 11, 12]);
    let sample = KeystreamSample::from_key(&key, [0x12, 0x34, 0x56]);
    let mut p = KeyPredictor::new();
    p.accept_sample(&sample);
    assert_eq!(p.num_samples(), 1);
    let expected = reference_sigmas(&sample);
    for i in 0..13 {
        let row = p.sigma_votes(i);
        for s in 0..256 {
            assert_eq!(row[s], if s == expected[i] { 1 } else { 0 });
        }
        assert_eq!(p.candidate_sigma(i) as usize, expected[i]);
    }
}

#[test]
fn row_sums_equal_sample_count() {
    let key = WepKey::Wep40Key([9, 9, 9, 9, 9]);
    let mut p = KeyPredictor::new();
    for k in 0..500u32 {
        let iv = [(k % 256) as u8, (k / 256) as u8, (k * 13 % 256) as u8];
        p.accept_sample(&KeystreamSample::from_key(&key, iv));
    }
    assert_eq!(p.num_samples(), 500);
    for i in 0..13 {
        assert_eq!(p.sigma_votes(i).iter().sum::<usize>(), 500);
    }
}
