//! The phases of a key recovery: samples are collected until the predictions
//! are confident enough, then the candidate keys are tested one by one.
use vstd::prelude::*;

use crate::key_byte::KeyBytePrediction;
use crate::key_tester::{
    advanced, found_bytes, initial_tester, tested_candidate, tester_wf, KeyTester,
    TesterState,
};
use crate::predictor::{predictor_after_sample, predictor_wf, KeyPredictor, PredictorState};
use crate::test_sample_buf::{
    buffer_after_sample, buffer_wf, key_accepted, BufferState, Fraction, TestSampleBuffer,
};
use crate::wep::{KeystreamSample, WepKey};

verus! {

/// How many samples pass between two checks of whether the predictions are
/// ready.
pub const READY_CHECK_PERIOD: usize = 2048;

#[derive(Clone, Copy, Debug, PartialEq, Eq, Structural)]
pub enum KeyCrackerPhase {
    SampleCollection,
    CandidateKeyTesting,
    FinishedSuccess,
    FinishedFailure,
}

/// The settings of the test sample buffer.
#[derive(Clone, Copy, Debug, PartialEq, Eq, Structural)]
pub struct KeyCrackerSettings {
    pub num_test_samples: usize,
    pub test_sample_period: usize,
    pub test_sample_threshold: Fraction,
}

impl KeyCrackerSettings {
    pub open spec fn wf(self) -> bool {
        self.num_test_samples >= 1 && self.test_sample_threshold.wf()
    }
}

/// The mathematical state of a key cracker.
pub struct CrackerState {
    pub phase: KeyCrackerPhase,
    pub delay_timer: int,
    pub settings: KeyCrackerSettings,
    pub predictor: PredictorState,
    pub buffer: BufferState,
    pub tester: Option<TesterState>,
    pub cracked_key: Option<WepKey>,
}

/// The invariant of a cracker: a tester exists from the testing phase on,
/// with candidates left while testing, and a key exists on success, one that
/// the test buffer accepts.
pub open spec fn cracker_wf(c: CrackerState) -> bool {
    &&& predictor_wf(c.predictor)
    &&& buffer_wf(c.buffer)
    &&& 0 <= c.delay_timer < READY_CHECK_PERIOD
    &&& c.phase == KeyCrackerPhase::SampleCollection ==> c.tester is None
    &&& c.tester matches Some(t) ==> tester_wf(t)
    &&& c.phase == KeyCrackerPhase::CandidateKeyTesting ==> c.tester is Some
        && c.tester->0.cur_key_idx < c.tester->0.num_keys
    &&& (c.phase == KeyCrackerPhase::FinishedSuccess) == (c.cracked_key is Some)
    &&& c.cracked_key matches Some(k) ==> key_accepted(c.buffer, k.bytes())
}

/// Whether the cracker is in a terminal phase.
pub open spec fn is_finished(phase: KeyCrackerPhase) -> bool {
    phase == KeyCrackerPhase::FinishedSuccess || phase == KeyCrackerPhase::FinishedFailure
}

/// The cracker after a collected sample: the predictor and the buffer take
/// it in, and the delay timer counts it.
pub open spec fn cracker_after_sample(c: CrackerState, sample: KeystreamSample) -> CrackerState {
    let timer = c.delay_timer + 1;
    CrackerState {
        predictor: predictor_after_sample(c.predictor, sample),
        buffer: buffer_after_sample(c.buffer, sample),
        delay_timer: if timer >= READY_CHECK_PERIOD {
            0
        } else {
            timer
        },
        ..c
    }
}

/// The cracker after one test of a candidate, where `found` is the key that
/// the test found: success with that key, else the next candidate, or failure
/// when none is left.
pub open spec fn cracker_after_test(c: CrackerState, found: Option<WepKey>) -> CrackerState {
    match found {
        Some(k) => CrackerState {
            phase: KeyCrackerPhase::FinishedSuccess,
            cracked_key: Some(k),
            ..c
        },
        None => {
            let (t2, more) = advanced(c.tester->0);
            CrackerState {
                phase: if more {
                    KeyCrackerPhase::CandidateKeyTesting
                } else {
                    KeyCrackerPhase::FinishedFailure
                },
                tester: Some(t2),
                ..c
            }
        },
    }
}

pub struct KeyCracker {
    phase: KeyCrackerPhase,
    delay_timer: usize,
    settings: KeyCrackerSettings,
    key_predictor: KeyPredictor,
    test_sample_buf: TestSampleBuffer,
    key_tester: Option<KeyTester>,
    cracked_key: Option<WepKey>,
}

impl View for KeyCracker {
    type V = CrackerState;

    closed spec fn view(&self) -> CrackerState {
        CrackerState {
            phase: self.phase,
            delay_timer: self.delay_timer as int,
            settings: self.settings,
            predictor: self.key_predictor@,
            buffer: self.test_sample_buf@,
            tester: match self.key_tester {
                Some(t) => Some(t@),
                None => None,
            },
            cracked_key: self.cracked_key,
        }
    }
}

impl KeyCracker {
    /// The invariant of the cracker and of the parts it holds.
    pub closed spec fn inv(&self) -> bool {
        &&& self.key_predictor.inv()
        &&& cracker_wf(self@)
    }

    /// A cracker collecting samples, with nothing collected yet.
    pub fn new(settings: KeyCrackerSettings) -> (r: KeyCracker)
        requires
            settings.wf(),
        ensures
            r.inv(),
            cracker_wf(r@),
            r@.phase == KeyCrackerPhase::SampleCollection,
            r@.settings == settings,
            r@.delay_timer == 0,
            r@.predictor.num_samples == 0,
            r@.buffer.samples.len() == 0,
            r@.buffer.capacity == settings.num_test_samples,
            r@.buffer.period == settings.test_sample_period,
            r@.buffer.threshold == settings.test_sample_threshold,
    {
        KeyCracker {
            phase: KeyCrackerPhase::SampleCollection,
            delay_timer: 0,
            settings,
            key_predictor: KeyPredictor::new(),
            test_sample_buf: TestSampleBuffer::new(
                settings.num_test_samples,
                settings.test_sample_period,
                settings.test_sample_threshold,
            ),
            key_tester: None,
            cracked_key: None,
        }
    }

    pub fn settings(&self) -> (r: KeyCrackerSettings)
        ensures
            r == self@.settings,
    {
        self.settings
    }

    pub fn phase(&self) -> (r: KeyCrackerPhase)
        ensures
            r == self@.phase,
    {
        self.phase
    }

    /// Whether the cracker has not reached a terminal phase.
    pub fn is_running(&self) -> (r: bool)
        ensures
            r == !is_finished(self@.phase),
    {
        !(self.phase == KeyCrackerPhase::FinishedSuccess || self.phase
            == KeyCrackerPhase::FinishedFailure)
    }

    pub fn key_predictor(&self) -> (r: &KeyPredictor)
        requires
            self.inv(),
        ensures
            r@ == self@.predictor,
            r.inv(),
    {
        &self.key_predictor
    }

    pub fn test_sample_buf(&self) -> (r: &TestSampleBuffer)
        ensures
            r@ == self@.buffer,
    {
        &self.test_sample_buf
    }

    pub fn key_tester(&self) -> (r: Option<&KeyTester>)
        ensures
            match r {
                Some(t) => self@.tester == Some(t@),
                None => self@.tester is None,
            },
    {
        match &self.key_tester {
            Some(t) => Some(t),
            None => None,
        }
    }

    pub fn cracked_key(&self) -> (r: Option<WepKey>)
        ensures
            r == self@.cracked_key,
    {
        self.cracked_key
    }

    /// Feeds a collected sample to the predictor and the test buffer. Returns
    /// whether a check of the predictions is due, which happens once in
    /// `READY_CHECK_PERIOD` samples.
    pub fn collect_sample(&mut self, sample: &KeystreamSample) -> (check_due: bool)
        requires
            old(self).inv(),
            old(self)@.phase == KeyCrackerPhase::SampleCollection,
            old(self)@.predictor.num_samples < usize::MAX,
        ensures
            final(self).inv(),
            cracker_wf(final(self)@),
            final(self)@ == cracker_after_sample(old(self)@, *sample),
            check_due == (old(self)@.delay_timer + 1 >= READY_CHECK_PERIOD),
    {
        self.key_predictor.accept_sample(sample);
        self.test_sample_buf.accept_sample(sample);
        self.delay_timer = self.delay_timer + 1;
        if self.delay_timer >= READY_CHECK_PERIOD {
            self.delay_timer = 0;
            true
        } else {
            false
        }
    }

    /// Moves on to testing candidate keys, with the given predictions, if the
    /// cracker is collecting samples and the test buffer is full. Returns
    /// whether it did. Where the first prediction is strong no candidate
    /// exists, and the cracker fails at once.
    pub fn start_key_testing(&mut self, predictions: [KeyBytePrediction; 13]) -> (r: bool)
        requires
            old(self).inv(),
        ensures
            final(self).inv(),
            cracker_wf(final(self)@),
            r == (old(self)@.phase == KeyCrackerPhase::SampleCollection
                && old(self)@.buffer.samples.len() >= old(self)@.buffer.capacity),
            !r ==> final(self)@ == old(self)@,
            r && !(predictions@[0] is Strong) ==> final(self)@ == (CrackerState {
                phase: KeyCrackerPhase::CandidateKeyTesting,
                tester: Some(initial_tester(predictions@)),
                ..old(self)@
            }),
            r && predictions@[0] is Strong ==> final(self)@ == (CrackerState {
                phase: KeyCrackerPhase::FinishedFailure,
                ..old(self)@
            }),
    {
        if self.phase != KeyCrackerPhase::SampleCollection || !self.test_sample_buf.is_full() {
            return false;
        }
        if predictions[0] == KeyBytePrediction::Strong {
            self.phase = KeyCrackerPhase::FinishedFailure;
            return true;
        }
        let tester = KeyTester::new(predictions);
        self.key_tester = Some(tester);
        self.phase = KeyCrackerPhase::CandidateKeyTesting;
        true
    }

    /// Tests the current candidate key; on success the key is kept and the
    /// cracker succeeds, else it moves to the next candidate, and fails when
    /// none is left.
    pub fn test_candidate(&mut self)
        requires
            old(self).inv(),
            old(self)@.phase == KeyCrackerPhase::CandidateKeyTesting,
        ensures
            final(self).inv(),
            cracker_wf(final(self)@),
            final(self)@ == cracker_after_test(old(self)@, final(self)@.cracked_key),
            found_bytes(final(self)@.cracked_key) == tested_candidate(
                old(self)@.tester->0,
                old(self)@.buffer,
            ),
    {
        let mut tester = self.key_tester.take().unwrap();
        let ghost t0 = tester@;
        if let Some(key) = tester.test_current_key(&self.test_sample_buf) {
            self.key_tester = Some(tester);
            self.phase = KeyCrackerPhase::FinishedSuccess;
            self.cracked_key = Some(key);
            return;
        }
        let more = tester.advance_to_next_key();
        self.key_tester = Some(tester);
        if !more {
            self.phase = KeyCrackerPhase::FinishedFailure;
        }
    }

    /// One unit of work: while collecting, takes in the sample if one came
    /// and returns whether a check of the predictions is due; while testing,
    /// tests one candidate; once finished, does nothing.
    pub fn do_work(&mut self, sample: Option<KeystreamSample>) -> (check_due: bool)
        requires
            old(self).inv(),
            old(self)@.predictor.num_samples < usize::MAX,
        ensures
            final(self).inv(),
            cracker_wf(final(self)@),
            match old(self)@.phase {
                KeyCrackerPhase::SampleCollection => match sample {
                    Some(s) => final(self)@ == cracker_after_sample(old(self)@, s) && check_due == (
                    old(self)@.delay_timer + 1 >= READY_CHECK_PERIOD),
                    None => final(self)@ == old(self)@ && !check_due,
                },
                KeyCrackerPhase::CandidateKeyTesting => final(self)@ == cracker_after_test(
                    old(self)@,
                    final(self)@.cracked_key,
                ) && found_bytes(final(self)@.cracked_key) == tested_candidate(
                    old(self)@.tester->0,
                    old(self)@.buffer,
                ) && !check_due,
                _ => final(self)@ == old(self)@ && !check_due,
            },
    {
        match self.phase {
            KeyCrackerPhase::SampleCollection => match sample {
                Some(s) => self.collect_sample(&s),
                None => false,
            },
            KeyCrackerPhase::CandidateKeyTesting => {
                self.test_candidate();
                false
            },
            _ => false,
        }
    }
}

} // verus!
