//! A bounded buffer of retained samples, against which candidate keys are
//! checked.
use std::collections::VecDeque;
use vstd::arithmetic::div_mod::lemma_div_by_multiple_is_strongly_ordered;
use vstd::prelude::*;

use crate::wep::{frame_keystream, KeystreamSample, WepKey};

verus! {

/// A fraction `num / den` between 0 and 1.
#[derive(Clone, Copy, Debug, PartialEq, Eq, Structural)]
pub struct Fraction {
    pub num: u32,
    pub den: u32,
}

impl Fraction {
    pub open spec fn wf(self) -> bool {
        0 < self.den && self.num <= self.den
    }
}

/// The mathematical state of a test sample buffer.
pub struct BufferState {
    pub samples: Seq<KeystreamSample>,
    pub capacity: int,
    pub period_timer: int,
    pub period: int,
    pub threshold: Fraction,
}

/// The invariant of a buffer: it holds at most `capacity` samples, and the
/// period timer is below the period.
pub open spec fn buffer_wf(b: BufferState) -> bool {
    &&& 1 <= b.capacity
    &&& b.samples.len() <= b.capacity
    &&& 0 <= b.period_timer
    &&& (b.period_timer < b.period || b.period_timer == 0)
    &&& b.threshold.wf()
}

/// The buffer after it was offered `sample`: every `period`-th sample is kept,
/// and the oldest one leaves a full buffer to make room for it.
pub open spec fn buffer_after_sample(b: BufferState, sample: KeystreamSample) -> BufferState {
    if b.period_timer + 1 < b.period {
        BufferState { period_timer: b.period_timer + 1, ..b }
    } else {
        let kept = if b.samples.len() >= b.capacity {
            b.samples.drop_first()
        } else {
            b.samples
        };
        BufferState { samples: kept.push(sample), period_timer: 0, ..b }
    }
}

/// The number of samples whose keystream the key with bytes `key` does not
/// reproduce.
pub open spec fn mismatches(samples: Seq<KeystreamSample>, key: Seq<u8>) -> int
    decreases samples.len(),
{
    if samples.len() == 0 {
        0
    } else {
        mismatches(samples.drop_last(), key) + if frame_keystream(key, samples.last().iv@)
            == samples.last().keystream@ {
            0int
        } else {
            1int
        }
    }
}

/// The number of samples that must match: `⌈len · threshold⌉`.
pub open spec fn required_matches(len: int, t: Fraction) -> int {
    (len * t.num + t.den - 1) / (t.den as int)
}

/// Whether the key with bytes `key` passes the buffer: at least
/// `⌈len · threshold⌉` of the samples match, so at most
/// `len − ⌈len · threshold⌉` mismatch.
pub open spec fn key_accepted(b: BufferState, key: Seq<u8>) -> bool {
    let len = b.samples.len() as int;
    mismatches(b.samples, key) <= len - required_matches(len, b.threshold)
}

proof fn lemma_mismatches_prefix(samples: Seq<KeystreamSample>, key: Seq<u8>, n: int)
    requires
        0 <= n <= samples.len(),
    ensures
        0 <= mismatches(samples.take(n), key) <= mismatches(samples, key),
    decreases samples.len(),
{
    if n < samples.len() {
        assert(samples.drop_last().take(n) =~= samples.take(n));
        lemma_mismatches_prefix(samples.drop_last(), key, n);
    } else {
        assert(samples.take(n) =~= samples);
        lemma_mismatches_nonneg(samples, key);
    }
}

proof fn lemma_mismatches_nonneg(samples: Seq<KeystreamSample>, key: Seq<u8>)
    ensures
        mismatches(samples, key) >= 0,
    decreases samples.len(),
{
    if samples.len() > 0 {
        lemma_mismatches_nonneg(samples.drop_last(), key);
    }
}

proof fn lemma_required_matches_bound(len: int, t: Fraction)
    requires
        len >= 0,
        t.wf(),
    ensures
        0 <= required_matches(len, t) <= len,
{
    let d = t.den as int;
    let x = len * t.num + d - 1;
    assert(0 <= len * t.num <= len * d) by (nonlinear_arith)
        requires
            len >= 0,
            0 <= t.num <= d,
    ;
    assert(x < (len + 1) * d) by (nonlinear_arith)
        requires
            x == len * t.num + d - 1,
            len * t.num <= len * d,
    ;
    lemma_div_by_multiple_is_strongly_ordered(x, (len + 1) * d, len + 1, d);
    assert((len + 1) * d / d == len + 1) by (nonlinear_arith)
        requires
            d > 0,
    ;
}

/// Whether two keystreams are equal, byte for byte.
pub fn keystreams_equal(a: &[u8; 16], b: &[u8; 16]) -> (r: bool)
    ensures
        r == (a@ == b@),
{
    let mut k: usize = 0;
    while k < 16
        invariant
            k <= 16,
            forall|m: int| 0 <= m < k ==> a@[m] == b@[m],
        decreases 16 - k,
    {
        if a[k] != b[k] {
            return false;
        }
        k = k + 1;
    }
    assert(a@ =~= b@);
    true
}

pub struct TestSampleBuffer {
    samples: VecDeque<KeystreamSample>,
    buffer_size: usize,
    period_timer: usize,
    sample_period: usize,
    test_threshold: Fraction,
}

impl View for TestSampleBuffer {
    type V = BufferState;

    closed spec fn view(&self) -> BufferState {
        BufferState {
            samples: self.samples@,
            capacity: self.buffer_size as int,
            period_timer: self.period_timer as int,
            period: self.sample_period as int,
            threshold: self.test_threshold,
        }
    }
}

impl TestSampleBuffer {
    /// An empty buffer that keeps up to `buffer_size` samples, one in every
    /// `sample_period`, and accepts a key on the fraction `test_threshold` of
    /// matching samples.
    pub fn new(buffer_size: usize, sample_period: usize, test_threshold: Fraction) -> (r:
        TestSampleBuffer)
        requires
            buffer_size >= 1,
            test_threshold.wf(),
        ensures
            buffer_wf(r@),
            r@.samples.len() == 0,
            r@.capacity == buffer_size,
            r@.period_timer == 0,
            r@.period == sample_period,
            r@.threshold == test_threshold,
    {
        TestSampleBuffer {
            samples: VecDeque::new(),
            buffer_size,
            period_timer: 0,
            sample_period,
            test_threshold,
        }
    }

    pub fn num_samples(&self) -> (r: usize)
        ensures
            r == self@.samples.len(),
    {
        self.samples.len()
    }

    /// Whether the buffer holds as many samples as it can.
    pub fn is_full(&self) -> (r: bool)
        ensures
            r == (self@.samples.len() >= self@.capacity),
    {
        self.samples.len() >= self.buffer_size
    }

    /// Offers a sample; every `period`-th one is kept.
    pub fn accept_sample(&mut self, sample: &KeystreamSample)
        requires
            buffer_wf(old(self)@),
        ensures
            buffer_wf(final(self)@),
            final(self)@ == buffer_after_sample(old(self)@, *sample),
    {
        self.period_timer = self.period_timer + 1;
        if self.period_timer < self.sample_period {
            return;
        }
        self.period_timer = 0;

        if self.samples.len() >= self.buffer_size {
            self.samples.pop_front();
        }
        self.samples.push_back(*sample);
        proof {
            let b = old(self)@;
            let kept = if b.samples.len() >= b.capacity {
                b.samples.drop_first()
            } else {
                b.samples
            };
            assert(self@.samples =~= kept.push(*sample));
        }
    }

    /// Whether the key reproduces enough of the retained keystreams; stops as
    /// soon as the mismatches exceed the bound.
    pub fn test_wep_key(&self, key: &WepKey) -> (r: bool)
        requires
            buffer_wf(self@),
        ensures
            r == key_accepted(self@, key.bytes()),
    {
        let len = self.samples.len();
        let t = self.test_threshold;
        let a = len as u128;
        let b = t.num as u128;
        assert(a * b <= 0xFFFF_FFFF_FFFF_FFFFu128 * 0xFFFF_FFFFu128) by (nonlinear_arith)
            requires
                a <= 0xFFFF_FFFF_FFFF_FFFFu128,
                b <= 0xFFFF_FFFFu128,
        ;
        let threshold = ((a * b + t.den as u128 - 1) / t.den as u128) as usize;
        proof {
            lemma_required_matches_bound(len as int, t);
            assert(threshold == required_matches(len as int, t));
        }
        let neg_threshold = len - threshold;

        let ghost samples = self@.samples;
        let ghost bytes = key.bytes();
        let mut neg_samples: usize = 0;
        let mut k: usize = 0;
        while k < len
            invariant
                k <= len,
                len == samples.len(),
                samples == self@.samples,
                bytes == key.bytes(),
                neg_samples == mismatches(samples.take(k as int), bytes),
                neg_samples <= neg_threshold,
                neg_threshold <= len,
                neg_samples <= k,
                neg_threshold as int == len - required_matches(len as int, self@.threshold),
            decreases len - k,
        {
            let sample = &self.samples[k];
            let mut rc4 = key.create_rc4(&sample.iv);
            let mut keystream = [0u8; 16];
            rc4.gen_keystream(&mut keystream);
            proof {
                assert(samples.take(k as int + 1).drop_last() =~= samples.take(k as int));
                assert(samples.take(k as int + 1).last() == samples[k as int]);
            }
            if !keystreams_equal(&keystream, &sample.keystream) {
                neg_samples = neg_samples + 1;
                if neg_samples > neg_threshold {
                    proof {
                        lemma_mismatches_prefix(samples, bytes, k as int + 1);
                        assert(mismatches(samples.take(k as int + 1), bytes) == neg_samples);
                    }
                    return false;
                }
            }
            k = k + 1;
        }
        proof {
            assert(samples.take(len as int) =~= samples);
        }
        true
    }
}

} // verus!
