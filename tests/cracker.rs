use rand::rngs::StdRng;
use rand::{RngCore, SeedableRng};
use wepcrack::cracker::{KeyCracker, KeyCrackerPhase, KeyCrackerSettings, READY_CHECK_PERIOD};
use wepcrack::key_byte::KeyBytePrediction;
use wepcrack::test_sample_buf::Fraction;
use wepcrack::wep::{KeystreamSample, WepKey};

fn settings(num_test_samples: usize, period: usize) -> KeyCrackerSettings {
    KeyCrackerSettings {
        num_test_samples,
        test_sample_period: period,
        test_sample_threshold: Fraction { num: 1, den: 1 },
    }
}

fn random_sample(rng: &mut StdRng, key: &WepKey) -> KeystreamSample {
    let mut iv = [0u8; 3];
    rng.fill_bytes(&mut iv);
    KeystreamSample::from_key(key, iv)
}

/// Collects samples until a check is due and `predict` has predictions from
/// the votes, then tests candidates.
fn crack(
    key: &WepKey,
    settings: KeyCrackerSettings,
    seed: u64,
    predict: impl Fn(&KeyCracker) -> Option<[KeyBytePrediction; 13]>,
) -> KeyCracker {
    let mut rng = StdRng::seed_from_u64(seed);
    let mut cracker = KeyCracker::new(settings);
    while cracker.phase() == KeyCrackerPhase::SampleCollection {
        let s = random_sample(&mut rng, key);
        if cracker.do_work(Some(s)) {
            if let Some(preds) = predict(&cracker) {
                cracker.start_key_testing(preds);
            }
        }
    }
    let mut steps = 0;
    while cracker.is_running() && steps < 1000 {
        cracker.do_work(None);
        steps += 1;
    }
    cracker
}

#[test]
fn new_cracker_collects_samples() {
    let c = KeyCracker::new(settings(4, 2));
    assert_eq!(c.phase(), KeyCrackerPhase::SampleCollection);
    assert!(c.is_running());
    assert!(c.key_tester().is_none());
    assert_eq!(c.cracked_key(), None);
    assert_eq!(c.key_predictor().num_samples(), 0);
    assert_eq!(c.settings(), settings(4, 2));
}

#[test]
fn readiness_check_due_every_period() {
    let key = WepKey::Wep40Key([1, 2, 3, 4, 5]);
    let mut rng = StdRng::seed_from_u64(7);
    let mut c = KeyCracker::new(settings(4, 2));
    let mut due = Vec::new();
    for k in 0..2 * READY_CHECK_PERIOD {
        if c.do_work(Some(random_sample(&mut rng, &key))) {
            due.push(k + 1);
        }
    }
    assert_eq!(due, vec![READY_CHECK_PERIOD, 2 * READY_CHECK_PERIOD]);
    assert_eq!(c.key_predictor().num_samples(), 2 * READY_CHECK_PERIOD);
    assert_eq!(c.test_sample_buf().num_samples(), 4);
    assert!(!c.do_work(None));
    assert_eq!(c.key_predictor().num_samples(), 2 * READY_CHECK_PERIOD);
}

#[test]
fn testing_waits_for_a_full_buffer() {
    let mut c = KeyCracker::new(settings(4, 2));
    let preds = [KeyBytePrediction::Normal { sigma: 0 }; 13];
    assert!(!c.start_key_testing(preds));
    assert_eq!(c.phase(), KeyCrackerPhase::SampleCollection);
}

#[test]
fn strong_first_byte_leaves_no_candidate() {
    let key = WepKey::Wep40Key([1, 2, 3, 4, 5]);
    let mut c = KeyCracker::new(settings(1, 1));
    c.do_work(Some(KeystreamSample::from_key(&key, [1, 2, 3])));
    assert!(c.start_key_testing([KeyBytePrediction::Strong; 13]));
    assert_eq!(c.phase(), KeyCrackerPhase::FinishedFailure);
    assert!(!c.is_running());
}

#[test]
fn exhausted_candidates_end_in_failure() {
    let key = WepKey::Wep104Key([1; 13]);
    let mut c = KeyCracker::new(settings(1, 1));
    c.do_work(Some(KeystreamSample::from_key(&key, [1, 2, 3])));
    let mut preds = [KeyBytePrediction::Normal { sigma: 0 }; 13];
    preds[2] = KeyBytePrediction::Strong;
    assert!(c.start_key_testing(preds));
    assert_eq!(c.phase(), KeyCrackerPhase::CandidateKeyTesting);
    assert_eq!(c.key_tester().unwrap().num_keys(), 2);
    c.do_work(None);
    assert_eq!(c.phase(), KeyCrackerPhase::CandidateKeyTesting);
    assert_eq!(c.key_tester().unwrap().current_key_index(), 1);
    c.do_work(None);
    assert_eq!(c.phase(), KeyCrackerPhase::FinishedFailure);
    assert_eq!(c.cracked_key(), None);
    c.do_work(None);
    assert_eq!(c.phase(), KeyCrackerPhase::FinishedFailure);
}

#[test]
fn simulated_crack_wep40() {
    let key = WepKey::Wep40Key([0x01, 0x02, 0x03, 0x04, 0x05]);
    let c = crack(&key, settings(1024, 128), 40, |c| {
        if c.key_predictor().num_samples() < 80 * READY_CHECK_PERIOD {
            return None;
        }
        let mut preds = [KeyBytePrediction::Strong; 13];
        for i in 0..5 {
            preds[i] = KeyBytePrediction::Normal { sigma: c.key_predictor().candidate_sigma(i) };
        }
        Some(preds)
    });
    assert_eq!(c.phase(), KeyCrackerPhase::FinishedSuccess);
    assert_eq!(c.cracked_key(), Some(key));
    assert!(c.test_sample_buf().test_wep_key(&key));
}

#[test]
fn simulated_crack_wep104() {
    let key = WepKey::Wep104Key([13, 37, 200, 91, 7, 250, 66, 128, 3, 180, 45, 99, 222]);
    let c = crack(&key, settings(1024, 128), 104, |c| {
        if c.key_predictor().num_samples() < 98 * READY_CHECK_PERIOD {
            return None;
        }
        let mut preds = [KeyBytePrediction::Normal { sigma: 0 }; 13];
        for i in 0..13 {
            preds[i] = KeyBytePrediction::Normal { sigma: c.key_predictor().candidate_sigma(i) };
        }
        Some(preds)
    });
    assert_eq!(c.phase(), KeyCrackerPhase::FinishedSuccess);
    assert_eq!(c.cracked_key(), Some(key));
    assert!(c.test_sample_buf().test_wep_key(&key));
}
