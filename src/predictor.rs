//! The vote histogram of the Klein / PTW attack: each sample casts one vote
//! per key byte for a "sigma sum", the running sum of the key bytes.
use vstd::prelude::*;

use crate::key_byte::{candidate_sigma, is_candidate_sigma};
use crate::rc4::{initial_state, schedule, swap, RC4Cipher, RC4State};
use crate::wep::KeystreamSample;

verus! {

/// The number of key bytes that the predictor votes on.
pub const NUM_KEY_BYTES: usize = 13;

/// The number of possible sigma sums.
pub const NUM_SIGMAS: usize = 256;

/// The byte `x` occurs among the 256 entries of `s`.
pub open spec fn holds_byte(s: Seq<u8>, x: u8) -> bool {
    exists|y: int| 0 <= y < 256 && s[y] == x
}

/// Every byte occurs exactly once among the 256 entries of `s`.
pub open spec fn is_permutation(s: Seq<u8>) -> bool {
    &&& s.len() == 256
    &&& forall|a: int, b: int| 0 <= a < b < 256 ==> s[a] != s[b]
    &&& forall|x: u8| #[trigger] holds_byte(s, x)
}

/// Where the byte `x` stands in the permutation `s`.
pub open spec fn inverse_at(s: Seq<u8>, x: u8) -> int {
    choose|y: int| 0 <= y < 256 && s[y] == x
}

/// The state after the key schedule has absorbed the IV.
pub open spec fn iv_state(iv: Seq<u8>) -> RC4State {
    schedule(initial_state(), iv)
}

/// `Σ_{k ∈ [0, i]} S[3 + k]`.
pub open spec fn s3_sum(s: Seq<u8>, i: int) -> int
    decreases i + 1,
{
    if i < 0 {
        0
    } else {
        s3_sum(s, i - 1) + s[3 + i]
    }
}

/// The sigma sum for key byte `i` that a sample votes for:
/// `S₃⁻¹[(3 + i − ks[2 + i]) mod 256] − (j₃ + Σ_{k ≤ i} S₃[3 + k])`, mod 256.
pub open spec fn sample_sigma(sample: KeystreamSample, i: int) -> int {
    let st = iv_state(sample.iv@);
    let target = ((3 + i - sample.keystream@[2 + i]) % 256) as u8;
    (inverse_at(st.s, target) - (st.j + s3_sum(st.s, i))) % 256
}

/// The predictor after it has taken in `sample`: one more sample, and one
/// more vote in each row, at the sigma sum that the sample gives for it.
pub open spec fn predictor_after_sample(p: PredictorState, sample: KeystreamSample) -> PredictorState {
    PredictorState {
        num_samples: p.num_samples + 1,
        votes: Seq::new(
            NUM_KEY_BYTES as nat,
            |i: int|
                Seq::new(
                    NUM_SIGMAS as nat,
                    |s: int|
                        (p.votes[i][s] + if s == sample_sigma(sample, i) {
                            1int
                        } else {
                            0int
                        }) as usize,
                ),
        ),
    }
}

/// The number of votes in a histogram row.
pub open spec fn row_sum(row: Seq<usize>, n: int) -> int
    decreases n,
{
    if n <= 0 {
        0
    } else {
        row_sum(row, n - 1) + row[n - 1]
    }
}

/// The mathematical state of a predictor: the number of samples and the
/// votes, row `i` for key byte `i`.
pub struct PredictorState {
    pub num_samples: int,
    pub votes: Seq<Seq<usize>>,
}

/// Each row of the histogram holds one vote per sample.
pub open spec fn predictor_wf(p: PredictorState) -> bool {
    &&& p.votes.len() == NUM_KEY_BYTES
    &&& forall|i: int| 0 <= i < NUM_KEY_BYTES ==> (#[trigger] p.votes[i]).len() == NUM_SIGMAS
    &&& forall|i: int|
        0 <= i < NUM_KEY_BYTES ==> row_sum(#[trigger] p.votes[i], NUM_SIGMAS as int)
            == p.num_samples
}

pub struct KeyPredictor {
    num_samples: usize,
    sigma_votes: Vec<usize>,
}

impl View for KeyPredictor {
    type V = PredictorState;

    closed spec fn view(&self) -> PredictorState {
        PredictorState {
            num_samples: self.num_samples as int,
            votes: Seq::new(
                NUM_KEY_BYTES as nat,
                |i: int|
                    self.sigma_votes@.subrange(
                        i * NUM_SIGMAS as int,
                        (i + 1) * NUM_SIGMAS as int,
                    ),
            ),
        }
    }
}

proof fn lemma_swap_permutation(s: Seq<u8>, a: int, b: int)
    requires
        is_permutation(s),
        0 <= a < 256,
        0 <= b < 256,
    ensures
        is_permutation(swap(s, a, b)),
{
    let t = swap(s, a, b);
    assert forall|x: u8| #[trigger] holds_byte(t, x) by {
        assert(holds_byte(s, x));
        let y0 = choose|y: int| 0 <= y < 256 && s[y] == x;
        if y0 == a {
            assert(t[b] == x);
        } else if y0 == b {
            assert(t[a] == x);
        } else {
            assert(t[y0] == x);
        }
    }
    assert forall|p: int, q: int| 0 <= p < q < 256 implies t[p] != t[q] by {
        let sp = if p == b { a } else if p == a { b } else { p };
        let sq = if q == b { a } else if q == a { b } else { q };
        assert(t[p] == s[sp]);
        assert(t[q] == s[sq]);
        if sp < sq {
        } else {
            assert(sq < sp);
        }
    }
}

proof fn lemma_schedule_permutation(st: RC4State, key: Seq<u8>)
    requires
        is_permutation(st.s),
        0 <= st.i,
        st.i + key.len() <= 256,
        0 <= st.j < 256,
    ensures
        is_permutation(schedule(st, key).s),
        schedule(st, key).i == st.i + key.len(),
        0 <= schedule(st, key).j < 256,
    decreases key.len(),
{
    if key.len() > 0 {
        lemma_schedule_permutation(st, key.drop_last());
        let pre = schedule(st, key.drop_last());
        let j = (pre.j + pre.s[pre.i] + key.last()) % 256;
        lemma_swap_permutation(pre.s, pre.i, j);
    }
}

proof fn lemma_initial_permutation()
    ensures
        is_permutation(initial_state().s),
{
    let s = initial_state().s;
    assert forall|x: u8| #[trigger] holds_byte(s, x) by {
        assert(s[x as int] == x);
    }
}

proof fn lemma_row_sum_update(row: Seq<usize>, n: int, k: int)
    requires
        0 <= k < n <= row.len(),
        row[k] < usize::MAX,
    ensures
        row_sum(row.update(k, (row[k] + 1) as usize), n) == row_sum(row, n) + 1,
    decreases n,
{
    if n - 1 > k {
        lemma_row_sum_update(row, n - 1, k);
    } else {
        lemma_row_sum_same(row, row.update(k, (row[k] + 1) as usize), n - 1);
    }
}

proof fn lemma_row_sum_same(r1: Seq<usize>, r2: Seq<usize>, n: int)
    requires
        0 <= n <= r1.len(),
        n <= r2.len(),
        forall|k: int| 0 <= k < n ==> r1[k] == r2[k],
    ensures
        row_sum(r1, n) == row_sum(r2, n),
    decreases n,
{
    if n > 0 {
        lemma_row_sum_same(r1, r2, n - 1);
    }
}

proof fn lemma_row_entry_bound(row: Seq<usize>, n: int, k: int)
    requires
        0 <= k < n <= row.len(),
    ensures
        row[k] <= row_sum(row, n),
    decreases n,
{
    if n - 1 > k {
        lemma_row_entry_bound(row, n - 1, k);
    }
    lemma_row_sum_nonneg(row, n - 1);
}

proof fn lemma_row_sum_nonneg(row: Seq<usize>, n: int)
    requires
        n <= row.len(),
    ensures
        row_sum(row, n) >= 0,
    decreases n,
{
    if n > 0 {
        lemma_row_sum_nonneg(row, n - 1);
    }
}

proof fn lemma_row_sum_zero(row: Seq<usize>, n: int)
    requires
        0 <= n <= row.len(),
        forall|k: int| 0 <= k < row.len() ==> row[k] == 0,
    ensures
        row_sum(row, n) == 0,
    decreases n,
{
    if n > 0 {
        lemma_row_sum_zero(row, n - 1);
    }
}

/// Taking in a sample keeps every row summing to the number of samples: each
/// row gains one vote, in the one cell of the sample's sigma sum for it.
pub proof fn lemma_sample_keeps_row_sums(p: PredictorState, sample: KeystreamSample)
    requires
        predictor_wf(p),
        p.num_samples < usize::MAX,
    ensures
        predictor_wf(predictor_after_sample(p, sample)),
        predictor_after_sample(p, sample).num_samples == p.num_samples + 1,
        forall|i: int| 0 <= i < NUM_KEY_BYTES ==> 0 <= #[trigger] sample_sigma(sample, i) < NUM_SIGMAS,
        forall|i: int, s: int|
            0 <= i < NUM_KEY_BYTES && 0 <= s < NUM_SIGMAS ==> #[trigger] predictor_after_sample(
                p,
                sample,
            ).votes[i][s] == p.votes[i][s] + if s == sample_sigma(sample, i) {
                1int
            } else {
                0int
            },
{
    let q = predictor_after_sample(p, sample);
    assert forall|i: int, s: int|
        0 <= i < NUM_KEY_BYTES && 0 <= s < NUM_SIGMAS implies #[trigger] q.votes[i][s]
            == p.votes[i][s] + if s == sample_sigma(sample, i) {
            1int
        } else {
            0int
        } by {
        lemma_row_entry_bound(p.votes[i], NUM_SIGMAS as int, s);
    }
    assert forall|i: int| 0 <= i < NUM_KEY_BYTES implies row_sum(
        #[trigger] q.votes[i],
        NUM_SIGMAS as int,
    ) == q.num_samples by {
        let row = p.votes[i];
        let sg = sample_sigma(sample, i);
        lemma_row_entry_bound(row, NUM_SIGMAS as int, sg);
        let upd = row.update(sg, (row[sg] + 1) as usize);
        assert forall|t: int| 0 <= t < NUM_SIGMAS implies q.votes[i][t] == upd[t] by {
            lemma_row_entry_bound(row, NUM_SIGMAS as int, t);
        }
        assert(q.votes[i] =~= upd);
        lemma_row_sum_update(row, NUM_SIGMAS as int, sg);
    }
}

impl KeyPredictor {
    /// The histogram is stored row after row, 256 entries to a row, and its
    /// rows are well formed.
    pub closed spec fn inv(&self) -> bool {
        &&& self.sigma_votes@.len() == NUM_KEY_BYTES * NUM_SIGMAS
        &&& predictor_wf(self@)
    }

    /// A predictor that has seen no sample.
    pub fn new() -> (r: KeyPredictor)
        ensures
            r.inv(),
            predictor_wf(r@),
            r@.num_samples == 0,
            forall|i: int, s: int|
                0 <= i < NUM_KEY_BYTES && 0 <= s < NUM_SIGMAS ==> #[trigger] r@.votes[i][s] == 0,
    {
        let mut sigma_votes: Vec<usize> = Vec::new();
        let mut k: usize = 0;
        while k < NUM_KEY_BYTES * NUM_SIGMAS
            invariant
                k <= NUM_KEY_BYTES * NUM_SIGMAS,
                sigma_votes@.len() == k,
                forall|m: int| 0 <= m < k ==> sigma_votes@[m] == 0,
            decreases NUM_KEY_BYTES * NUM_SIGMAS - k,
        {
            sigma_votes.push(0);
            k = k + 1;
        }
        let r = KeyPredictor { num_samples: 0, sigma_votes };
        proof {
            assert forall|i: int| 0 <= i < NUM_KEY_BYTES implies row_sum(
                #[trigger] r@.votes[i],
                NUM_SIGMAS as int,
            ) == 0 by {
                lemma_row_sum_zero(r@.votes[i], NUM_SIGMAS as int);
            }
        }
        r
    }

    pub fn num_samples(&self) -> (r: usize)
        ensures
            r == self@.num_samples,
    {
        self.num_samples
    }

    /// The votes for key byte `idx`, indexed by sigma sum.
    pub fn sigma_votes(&self, idx: usize) -> (r: Vec<usize>)
        requires
            self.inv(),
            idx < NUM_KEY_BYTES,
        ensures
            r@ == self@.votes[idx as int],
    {
        let mut r: Vec<usize> = Vec::new();
        let base = idx * NUM_SIGMAS;
        let mut s: usize = 0;
        while s < NUM_SIGMAS
            invariant
                s <= NUM_SIGMAS,
                idx < NUM_KEY_BYTES,
                base == idx * NUM_SIGMAS,
                self.sigma_votes@.len() == NUM_KEY_BYTES * NUM_SIGMAS,
                r@ =~= self.sigma_votes@.subrange(base as int, base + s),
            decreases NUM_SIGMAS - s,
        {
            r.push(self.sigma_votes[base + s]);
            s = s + 1;
        }
        r
    }

    /// The sigma sum with the most votes for key byte `idx`; among equals,
    /// the last one.
    pub fn candidate_sigma(&self, idx: usize) -> (r: u8)
        requires
            self.inv(),
            idx < NUM_KEY_BYTES,
        ensures
            is_candidate_sigma(self@.votes[idx as int], r as int),
    {
        let row = self.sigma_votes(idx);
        candidate_sigma(row.as_slice())
    }

    /// Casts the sample's vote for each key byte: row `i` gains one vote at
    /// `sample_sigma(sample, i)`.
    pub fn accept_sample(&mut self, sample: &KeystreamSample)
        requires
            old(self).inv(),
            old(self)@.num_samples < usize::MAX,
        ensures
            final(self).inv(),
            predictor_wf(final(self)@),
            final(self)@ == predictor_after_sample(old(self)@, *sample),
            final(self)@.num_samples == old(self)@.num_samples + 1,
            forall|i: int, s: int|
                0 <= i < NUM_KEY_BYTES && 0 <= s < NUM_SIGMAS ==> #[trigger] final(self)@.votes[i][s]
                    == old(self)@.votes[i][s] + if s == sample_sigma(*sample, i) {
                    1int
                } else {
                    0int
                },
    {
        let mut rc4 = RC4Cipher::new();
        proof {
            lemma_initial_permutation();
            lemma_schedule_permutation(initial_state(), sample.iv@);
        }
        rc4.do_partial_keyschedule(&sample.iv);
        let ghost st = rc4@;
        assert(st == iv_state(sample.iv@));

        let mut sinv_3 = [0u8; 256];
        let mut y: usize = 0;
        while y < 256
            invariant
                y <= 256,
                st == rc4@,
                is_permutation(st.s),
                forall|z: int| 0 <= z < y ==> sinv_3@[st.s[z] as int] == z,
            decreases 256 - y,
        {
            let x = rc4.s[y];
            sinv_3[x as usize] = y as u8;
            proof {
                assert forall|z: int| 0 <= z < y implies sinv_3@[st.s[z] as int] == z by {
                    assert(st.s[z] != st.s[y as int]);
                }
            }
            y = y + 1;
        }
        proof {
            assert forall|x: u8| #[trigger] sinv_3@[x as int] == inverse_at(st.s, x) by {
                let y0 = inverse_at(st.s, x);
                assert(holds_byte(st.s, x));
                assert(st.s[y0] == x);
            }
        }

        let ghost old_votes = self@.votes;
        let ghost n0 = self@.num_samples;
        let j_3 = rc4.j;
        let mut s3_acc: usize = 0;
        let mut i: usize = 0;
        while i < NUM_KEY_BYTES
            invariant
                i <= NUM_KEY_BYTES,
                st == rc4@,
                st == iv_state(sample.iv@),
                j_3 == st.j,
                0 <= st.j < 256,
                st.s.len() == 256,
                forall|x: u8| #[trigger] sinv_3@[x as int] == inverse_at(st.s, x),
                s3_acc == s3_sum(st.s, i - 1),
                s3_acc <= 255 * i,
                self.sigma_votes@.len() == NUM_KEY_BYTES * NUM_SIGMAS,
                self.num_samples == n0,
                n0 == old(self)@.num_samples,
                old_votes == old(self)@.votes,
                n0 < usize::MAX,
                old_votes.len() == NUM_KEY_BYTES,
                forall|k: int| 0 <= k < NUM_KEY_BYTES ==> (#[trigger] old_votes[k]).len() == NUM_SIGMAS,
                forall|k: int|
                    0 <= k < NUM_KEY_BYTES ==> row_sum(#[trigger] old_votes[k], NUM_SIGMAS as int)
                        == n0,
                forall|k: int, s: int|
                    0 <= k < NUM_KEY_BYTES && 0 <= s < NUM_SIGMAS ==> #[trigger] self@.votes[k][s]
                        == old_votes[k][s] + if k < i && s == sample_sigma(*sample, k) {
                        1int
                    } else {
                        0int
                    },
            decreases NUM_KEY_BYTES - i,
        {
            s3_acc = s3_acc + rc4.s[3 + i] as usize;
            let target = ((3 + i + 256 - sample.keystream[2 + i] as usize) % 256) as u8;
            let base = j_3 + s3_acc;
            let sigma = (sinv_3[target as usize] as usize + 256 - base % 256) % 256;
            proof {
                let ks = sample.keystream@[2 + i];
                assert(target == ((3 + i - ks) % 256) as u8) by {
                    assert((3 + i + 256 - ks) % 256 == (3 + i - ks) % 256) by (nonlinear_arith)
                        requires
                            0 <= ks < 256,
                            0 <= i,
                    ;
                };
                let inv = sinv_3@[target as int] as int;
                assert((inv + 256 - base % 256) % 256 == (inv - base) % 256) by (nonlinear_arith)
                    requires
                        base >= 0,
                ;
                assert(sigma == sample_sigma(*sample, i as int));
            }
            let idx = i * NUM_SIGMAS + sigma;
            proof {
                let row = old_votes[i as int];
                let cur = self@.votes[i as int];
                assert(cur[sigma as int] == row[sigma as int]);
                lemma_row_entry_bound(row, NUM_SIGMAS as int, sigma as int);
                assert(self.sigma_votes@[idx as int] == cur[sigma as int]);
            }
            let ghost before = self@.votes;
            self.sigma_votes.set(idx, self.sigma_votes[idx] + 1);
            proof {
                assert forall|k: int, s: int|
                    0 <= k < NUM_KEY_BYTES && 0 <= s < NUM_SIGMAS implies #[trigger] self@.votes[k][s]
                        == before[k][s] + if k == i && s == sigma {
                        1int
                    } else {
                        0int
                    } by {
                    assert(self@.votes[k][s] == self.sigma_votes@[k * NUM_SIGMAS + s]);
                }
            }
            i = i + 1;
        }
        let ghost votes_after = self@.votes;
        assert(forall|k: int, t: int|
            0 <= k < NUM_KEY_BYTES && 0 <= t < NUM_SIGMAS ==> #[trigger] votes_after[k][t]
                == old_votes[k][t] + if t == sample_sigma(*sample, k) {
                1int
            } else {
                0int
            });
        self.num_samples = self.num_samples + 1;
        assert(self@.votes == votes_after);
        proof {
            assert forall|k: int| 0 <= k < NUM_KEY_BYTES implies row_sum(
                #[trigger] self@.votes[k],
                NUM_SIGMAS as int,
            ) == self@.num_samples by {
                let row = old_votes[k];
                let sg = sample_sigma(*sample, k);
                assert(0 <= sg < 256);
                lemma_row_entry_bound(row, NUM_SIGMAS as int, sg);
                let upd = row.update(sg, (row[sg] + 1) as usize);
                assert(self@.votes[k].len() == NUM_SIGMAS);
                assert forall|t: int| 0 <= t < NUM_SIGMAS implies self@.votes[k][t] == upd[t] by {
                    assert(votes_after[k][t] == old_votes[k][t] + if t == sg {
                        1int
                    } else {
                        0int
                    });
                }
                assert(self@.votes[k] =~= upd);
                lemma_row_sum_update(row, NUM_SIGMAS as int, sg);
            }
            let expect = predictor_after_sample(old(self)@, *sample);
            assert forall|k: int| 0 <= k < NUM_KEY_BYTES implies #[trigger] self@.votes[k]
                == expect.votes[k] by {
                assert forall|t: int| 0 <= t < NUM_SIGMAS implies self@.votes[k][t]
                    == expect.votes[k][t] by {
                    assert(votes_after[k][t] == old_votes[k][t] + if t == sample_sigma(*sample, k) {
                        1int
                    } else {
                        0int
                    });
                    lemma_row_entry_bound(old_votes[k], NUM_SIGMAS as int, t);
                }
                assert(self@.votes[k] =~= expect.votes[k]);
            }
            assert(self@.votes =~= expect.votes);
        }
    }
}

} // verus!
