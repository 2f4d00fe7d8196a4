use wepcrack::key_byte::KeyBytePrediction;
use wepcrack::key_tester::KeyTester;
use wepcrack::test_sample_buf::{Fraction, TestSampleBuffer};
use wepcrack::wep::{KeystreamSample, WepKey};

fn normal(sigma: u8) -> KeyBytePrediction {
    KeyBytePrediction::Normal { sigma }
}

fn sigma_sums(key: &[u8]) -> Vec<u8> {
    let mut acc = 0u8;
    key.iter()
        .map(|b| {
            acc = acc.wrapping_add(*b);
            acc
        })
        .collect()
}

#[test]
fn num_keys_is_product_of_strong_positions() {
    let mut preds = [normal(0); 13];
    preds[3] = KeyBytePrediction::Strong;
    preds[5] = KeyBytePrediction::Strong;
    let t = KeyTester::new(preds);
    assert_eq!(t.num_keys(), 15);
    assert_eq!(t.current_key_index(), 0);
    assert!(!t.is_at_end());
    assert_eq!(t.key_predictions(), preds);
    let l = t.current_l_indices();
    assert_eq!(l[3], 1);
    assert_eq!(l[5], 1);
    assert_eq!(l[0], usize::MAX);
}

#[test]
fn num_keys_all_normal_is_one() {
    let t = KeyTester::new([normal(7); 13]);
    assert_eq!(t.num_keys(), 1);
    assert!(!t.is_maybe_wep40());
}

#[test]
fn num_keys_all_strong_after_first() {
    let mut preds = [KeyBytePrediction::Strong; 13];
    preds[0] = normal(0);
    let t = KeyTester::new(preds);
    assert_eq!(t.num_keys(), 479001600);
    assert!(t.is_maybe_wep40());
}

#[test]
fn tester_exhaustion_single_strong_position() {
    let mut preds = [normal(1); 13];
    preds[3] = KeyBytePrediction::Strong;
    let mut t = KeyTester::new(preds);
    assert_eq!(t.num_keys(), 3);
    assert!(!t.is_maybe_wep40());
    let mut seen = vec![t.current_l_indices()[3]];
    assert!(t.advance_to_next_key());
    assert!(!t.is_maybe_wep40());
    seen.push(t.current_l_indices()[3]);
    assert!(t.advance_to_next_key());
    seen.push(t.current_l_indices()[3]);
    assert_eq!(t.current_key_index(), 2);
    assert!(!t.is_at_end());
    assert!(!t.advance_to_next_key());
    assert!(t.is_at_end());
    assert_eq!(t.current_key_index(), 3);
    assert!(!t.is_maybe_wep40());
    assert_eq!(seen, vec![1, 2, 3]);
    assert!(!t.advance_to_next_key());
    assert_eq!(t.current_key_index(), 3);
}

#[test]
fn enumeration_visits_every_index_choice_once() {
    let mut preds = [normal(0); 13];
    preds[2] = KeyBytePrediction::Strong;
    preds[4] = KeyBytePrediction::Strong;
    let mut t = KeyTester::new(preds);
    assert_eq!(t.num_keys(), 8);
    let mut seen = Vec::new();
    loop {
        let l = t.current_l_indices();
        seen.push((l[2], l[4]));
        if !t.advance_to_next_key() {
            break;
        }
    }
    assert_eq!(seen.len(), 8);
    assert_eq!(seen[0], (1, 1));
    assert_eq!(seen[1], (2, 1));
    assert_eq!(seen[2], (1, 2));
    let mut sorted = seen.clone();
    sorted.sort();
    sorted.dedup();
    assert_eq!(sorted.len(), 8);
    assert!(t.is_at_end());
}

#[test]
fn maybe_wep40_ends_when_a_late_strong_position_moves() {
    let mut preds = [KeyBytePrediction::Strong; 13];
    preds[0] = normal(0);
    for i in 1..5 {
        preds[i] = normal(0);
    }
    preds[1] = KeyBytePrediction::Strong;
    let mut t = KeyTester::new(preds);
    assert!(t.is_maybe_wep40());
    assert!(t.advance_to_next_key());
    assert!(!t.is_maybe_wep40());
    assert_eq!(t.current_l_indices()[5], 2);
}

#[test]
fn current_key_from_normal_sigmas() {
    let key: [u8; 13] = [0x10, 0x20, 0xF0, 0x01, 0x02, 0x03, 0x04, 0x05, 0x06, 0x07, 0x08, 0x09, 0xFF];
    let sums = sigma_sums(&key);
    let mut preds = [normal(0); 13];
    for i in 0..13 {
        preds[i] = normal(sums[i]);
    }
    let t = KeyTester::new(preds);
    assert_eq!(t.current_key(), key);
}

#[test]
fn current_key_strong_byte_from_earlier_bytes() {
    let mut preds = [normal(0); 13];
    preds[0] = normal(10);
    preds[1] = normal(30);
    preds[2] = normal(60);
    preds[3] = KeyBytePrediction::Strong;
    let t = KeyTester::new(preds);
    let key = t.current_key();
    assert_eq!(&key[..3], &[10, 20, 30]);
    let inv_rk: i64 = (1..3).map(|k| key[k] as i64 + 3 + k as i64).sum::<i64>() + 3 + 3;
    assert_eq!(key[3] as i64, (-inv_rk).rem_euclid(256));
    assert_eq!(key[3], 191);
}

#[test]
fn current_key_leaves_tester_unchanged() {
    let mut preds = [normal(5); 13];
    preds[6] = KeyBytePrediction::Strong;
    let mut t = KeyTester::new(preds);
    assert!(t.advance_to_next_key());
    let before = (t.current_key_index(), t.current_l_indices(), t.is_maybe_wep40());
    let a = t.current_key();
    let b = t.current_key();
    assert_eq!(a, b);
    assert_eq!(before, (t.current_key_index(), t.current_l_indices(), t.is_maybe_wep40()));
}

fn buffer_for(key: &WepKey, n: usize) -> TestSampleBuffer {
    let mut buf = TestSampleBuffer::new(n, 1, Fraction { num: 1, den: 1 });
    for k in 0..n {
        let iv = [k as u8, (k * 7) as u8, 3];
        buf.accept_sample(&KeystreamSample::from_key(key, iv));
    }
    buf
}

#[test]
fn test_current_key_finds_wep104_key() {
    let bytes: [u8; 13] = [3, 1, 4, 1, 5, 9, 2, 6, 5, 3, 5, 8, 9];
    let key = WepKey::Wep104Key(bytes);
    let buf = buffer_for(&key, 8);
    let sums = sigma_sums(&bytes);
    let mut preds = [normal(0); 13];
    for i in 0..13 {
        preds[i] = normal(sums[i]);
    }
    let t = KeyTester::new(preds);
    assert_eq!(t.test_current_key(&buf), Some(key));
    preds[12] = normal(sums[12].wrapping_add(1));
    let t = KeyTester::new(preds);
    assert_eq!(t.test_current_key(&buf), None);
}

#[test]
fn test_current_key_finds_wep40_key() {
    let bytes: [u8; 5] = [0x01, 0x02, 0x03, 0x04, 0x05];
    let key = WepKey::Wep40Key(bytes);
    let buf = buffer_for(&key, 8);
    let sums = sigma_sums(&bytes);
    let mut preds = [KeyBytePrediction::Strong; 13];
    for i in 0..5 {
        preds[i] = normal(sums[i]);
    }
    let t = KeyTester::new(preds);
    assert!(t.is_maybe_wep40());
    assert_eq!(t.test_current_key(&buf), Some(key));
}
