use wepcrack::test_sample_buf::{keystreams_equal, Fraction, TestSampleBuffer};
use wepcrack::wep::{KeystreamSample, WepKey};

fn sample(k: u8) -> KeystreamSample {
    KeystreamSample { keystream: [k; 16], iv: [k, 0, 0] }
}

#[test]
fn only_every_period_th_sample_is_kept() {
    let mut buf = TestSampleBuffer::new(10, 3, Fraction { num: 1, den: 1 });
    for k in 0..9 {
        buf.accept_sample(&sample(k));
    }
    assert_eq!(buf.num_samples(), 3);
    assert!(!buf.is_full());
}

#[test]
fn full_buffer_drops_oldest() {
    let key = WepKey::Wep40Key([1, 2, 3, 4, 5]);
    let mut buf = TestSampleBuffer::new(2, 1, Fraction { num: 1, den: 1 });
    buf.accept_sample(&sample(1));
    buf.accept_sample(&KeystreamSample::from_key(&key, [1, 1, 1]));
    assert!(buf.is_full());
    assert!(!buf.test_wep_key(&key));
    buf.accept_sample(&KeystreamSample::from_key(&key, [2, 2, 2]));
    assert_eq!(buf.num_samples(), 2);
    assert!(buf.test_wep_key(&key));
}

#[test]
fn enough_matches_at_a_fractional_threshold() {
    let key = WepKey::Wep40Key([4, 3, 2, 1, 0]);
    let mut buf = TestSampleBuffer::new(10, 1, Fraction { num: 1, den: 4 });
    for k in 0..3u8 {
        buf.accept_sample(&KeystreamSample::from_key(&key, [k, 1, 2]));
    }
    for k in 0..7u8 {
        buf.accept_sample(&sample(100 + k));
    }
    assert!(buf.test_wep_key(&key));
    buf.accept_sample(&sample(50));
    assert!(!buf.test_wep_key(&key));
}

#[test]
fn empty_buffer_accepts_any_key() {
    let buf = TestSampleBuffer::new(4, 1, Fraction { num: 1, den: 1 });
    assert!(buf.test_wep_key(&WepKey::Wep40Key([0; 5])));
}

#[test]
fn threshold_bounds_the_mismatches() {
    let key = WepKey::Wep104Key([5; 13]);
    let fill = |t: Fraction| {
        let mut buf = TestSampleBuffer::new(4, 1, t);
        for k in 0..3u8 {
            buf.accept_sample(&KeystreamSample::from_key(&key, [k, 9, 9]));
        }
        buf.accept_sample(&sample(200));
        buf
    };
    assert!(!fill(Fraction { num: 1, den: 1 }).test_wep_key(&key));
    assert!(fill(Fraction { num: 3, den: 4 }).test_wep_key(&key));
    assert!(fill(Fraction { num: 1, den: 2 }).test_wep_key(&key));
    assert!(!fill(Fraction { num: 1, den: 2 }).test_wep_key(&WepKey::Wep104Key([6; 13])));
}

#[test]
fn keystreams_compare_bytewise() {
    let a = [1u8; 16];
    let mut b = [1u8; 16];
    assert!(keystreams_equal(&a, &b));
    b[15] = 2;
    assert!(!keystreams_equal(&a, &b));
}
