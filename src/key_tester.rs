//! Enumeration of the candidate keys that a set of key byte predictions
//! leaves open.
//!
//! At a strong position `i` the key byte is recovered from the bytes before
//! it and one free index `l` in `1..=i`; the candidates are all choices of
//! these indices, counted like an odometer whose lowest digit is the first
//! strong position.
use vstd::prelude::*;

use crate::key_byte::KeyBytePrediction;
use crate::test_sample_buf::{buffer_wf, key_accepted, BufferState, TestSampleBuffer};
use crate::wep::{WepKey, WEP104_KEY_LEN, WEP40_KEY_LEN};

verus! {

/// The mathematical state of a key tester.
pub struct TesterState {
    pub predictions: Seq<KeyBytePrediction>,
    pub l_indices: Seq<usize>,
    pub cur_key_idx: int,
    pub num_keys: int,
    pub maybe_wep40: bool,
}

/// The number of choices of the free index at position `i`.
pub open spec fn radix(preds: Seq<KeyBytePrediction>, i: int) -> int {
    if preds[i] is Strong {
        i
    } else {
        1
    }
}

/// The number of candidate keys that the first `n` positions give: the
/// product of the strong positions among them.
pub open spec fn key_count(preds: Seq<KeyBytePrediction>, n: int) -> int
    decreases n,
{
    if n <= 0 {
        1
    } else {
        key_count(preds, n - 1) * radix(preds, n - 1)
    }
}

/// The predictions that a tester can be built from: 13 of them, the first
/// not strong (else no candidate would exist).
pub open spec fn predictions_wf(preds: Seq<KeyBytePrediction>) -> bool {
    preds.len() == 13 && !(preds[0] is Strong)
}

/// Every prediction from position `lo` on is strong.
pub open spec fn strong_from(preds: Seq<KeyBytePrediction>, lo: int) -> bool {
    forall|i: int| lo <= i < preds.len() ==> preds[i] is Strong
}

/// The free indices are in range: `1..=i` at a strong position `i`, and
/// `usize::MAX` where they are unused.
pub open spec fn l_indices_valid(preds: Seq<KeyBytePrediction>, l: Seq<usize>) -> bool {
    &&& l.len() == preds.len()
    &&& forall|i: int|
        0 <= i < preds.len() ==> (if preds[i] is Strong {
            1 <= #[trigger] l[i] <= i
        } else {
            l[i] == usize::MAX
        })
}

/// The initial free indices: 1 at every strong position.
pub open spec fn initial_l_indices(preds: Seq<KeyBytePrediction>) -> Seq<usize> {
    Seq::new(
        preds.len(),
        |i: int|
            if preds[i] is Strong {
                1usize
            } else {
                usize::MAX
            },
    )
}

/// The position of the candidate selected by `l` in the enumeration order,
/// counting the first `n` positions only.
pub open spec fn key_index_of(preds: Seq<KeyBytePrediction>, l: Seq<usize>, n: int) -> int
    decreases n,
{
    if n <= 0 {
        0
    } else if preds[n - 1] is Strong {
        key_index_of(preds, l, n - 1) + (l[n - 1] - 1) * key_count(preds, n - 1)
    } else {
        key_index_of(preds, l, n - 1)
    }
}

/// The state of a fresh tester.
pub open spec fn initial_tester(preds: Seq<KeyBytePrediction>) -> TesterState {
    TesterState {
        predictions: preds,
        l_indices: initial_l_indices(preds),
        cur_key_idx: 0,
        num_keys: key_count(preds, 13),
        maybe_wep40: strong_from(preds, WEP40_KEY_LEN as int),
    }
}

/// The invariant of a tester: the key index counts the odometer, up to the
/// end state where it equals the number of keys.
pub open spec fn tester_wf(t: TesterState) -> bool {
    &&& predictions_wf(t.predictions)
    &&& l_indices_valid(t.predictions, t.l_indices)
    &&& t.num_keys == key_count(t.predictions, 13)
    &&& 0 <= t.cur_key_idx <= t.num_keys
    &&& t.cur_key_idx < t.num_keys ==> t.cur_key_idx == key_index_of(
        t.predictions,
        t.l_indices,
        13,
    )
}

/// The odometer step from position `i` on: the first strong position that
/// has not reached its largest index is incremented, those before it are
/// reset to 1. Gives the new indices, whether every digit wrapped, and
/// whether the key may still be a WEP-40 key, which ends as soon as a strong
/// position past the fifth one moves.
pub open spec fn odometer(
    preds: Seq<KeyBytePrediction>,
    l: Seq<usize>,
    i: int,
    maybe_wep40: bool,
) -> (Seq<usize>, bool, bool)
    decreases 13 - i,
{
    if i >= 13 {
        (l, true, maybe_wep40)
    } else if !(preds[i] is Strong) {
        odometer(preds, l, i + 1, maybe_wep40)
    } else {
        let m = maybe_wep40 && i < WEP40_KEY_LEN;
        if l[i] + 1 > i {
            odometer(preds, l.update(i, 1), i + 1, m)
        } else {
            (l.update(i, (l[i] + 1) as usize), false, m)
        }
    }
}

/// The state after an advance, and what the advance returns.
pub open spec fn advanced(t: TesterState) -> (TesterState, bool) {
    if t.cur_key_idx >= t.num_keys {
        (t, false)
    } else {
        let o = odometer(t.predictions, t.l_indices, 0, t.maybe_wep40);
        let next = TesterState {
            predictions: t.predictions,
            l_indices: o.0,
            cur_key_idx: t.cur_key_idx + 1,
            num_keys: t.num_keys,
            maybe_wep40: o.2,
        };
        (next, !o.1)
    }
}

/// The state after `k` advances.
pub open spec fn advanced_times(t: TesterState, k: nat) -> TesterState
    decreases k,
{
    if k == 0 {
        t
    } else {
        advanced(advanced_times(t, (k - 1) as nat)).0
    }
}

/// `Σ_{k ∈ [lo, hi)} (key[k] + 3 + k)`.
pub open spec fn rk_sum(key: Seq<u8>, lo: int, hi: int) -> int
    decreases hi - lo,
{
    if hi <= lo {
        0
    } else {
        rk_sum(key, lo, hi - 1) + key[hi - 1] + 3 + (hi - 1)
    }
}

/// The sigma sum at position `i` of a candidate whose first `i` bytes are
/// `key` and whose sigma sum at `i - 1` is `prev`.
pub open spec fn candidate_sigma_at(
    pred: KeyBytePrediction,
    l: usize,
    key: Seq<u8>,
    prev: u8,
    i: int,
) -> u8 {
    match pred {
        KeyBytePrediction::Normal { sigma } => sigma,
        KeyBytePrediction::Strong => ((prev - (rk_sum(key, l as int, i) + 3 + i)) % 256) as u8,
    }
}

/// The first `n` bytes of the candidate key that the free indices `l`
/// select, with the sigma sum of the last of them. Each key byte is the
/// difference of two consecutive sigma sums.
pub open spec fn candidate_prefix(
    preds: Seq<KeyBytePrediction>,
    l: Seq<usize>,
    n: nat,
) -> (Seq<u8>, u8)
    decreases n,
{
    if n == 0 {
        (Seq::empty(), 0u8)
    } else {
        let (key, prev) = candidate_prefix(preds, l, (n - 1) as nat);
        let i = n - 1;
        let sigma = candidate_sigma_at(preds[i], l[i], key, prev, i);
        (key.push(((sigma - prev) % 256) as u8), sigma)
    }
}

/// The candidate key that the tester's current free indices select.
pub open spec fn candidate_key(t: TesterState) -> Seq<u8> {
    candidate_prefix(t.predictions, t.l_indices, 13).0
}

/// The bytes of a found key, if any.
pub open spec fn found_bytes(r: Option<WepKey>) -> Option<Seq<u8>> {
    match r {
        Some(k) => Some(k.bytes()),
        None => None,
    }
}

/// What testing the current candidate finds: the 13-byte key if the buffer
/// accepts it, else its first 5 bytes if the candidates may be WEP-40 keys and
/// the buffer accepts those, else nothing.
pub open spec fn tested_candidate(t: TesterState, b: BufferState) -> Option<Seq<u8>> {
    let key = candidate_key(t);
    if key_accepted(b, key) {
        Some(key)
    } else if t.maybe_wep40 && key_accepted(b, key.take(WEP40_KEY_LEN as int)) {
        Some(key.take(WEP40_KEY_LEN as int))
    } else {
        None
    }
}

pub struct KeyTester {
    num_keys: usize,
    cur_key_idx: usize,
    cur_l_idxs: [usize; 13],
    key_predictions: [KeyBytePrediction; 13],
    maybe_wep40: bool,
}

impl View for KeyTester {
    type V = TesterState;

    closed spec fn view(&self) -> TesterState {
        TesterState {
            predictions: self.key_predictions@,
            l_indices: self.cur_l_idxs@,
            cur_key_idx: self.cur_key_idx as int,
            num_keys: self.num_keys as int,
            maybe_wep40: self.maybe_wep40,
        }
    }
}

/// `(n - 1)!`, an upper bound of `key_count(_, n)`.
spec fn radix_product_bound(n: int) -> int
    decreases n,
{
    if n <= 1 {
        1
    } else {
        radix_product_bound(n - 1) * (n - 1)
    }
}

proof fn lemma_key_count_bound(preds: Seq<KeyBytePrediction>, n: int)
    requires
        0 <= n <= preds.len(),
    ensures
        0 <= key_count(preds, n) <= radix_product_bound(n),
        1 <= radix_product_bound(n),
    decreases n,
{
    if n > 0 {
        lemma_key_count_bound(preds, n - 1);
        let c = key_count(preds, n - 1);
        let b = radix_product_bound(n - 1);
        let r = radix(preds, n - 1);
        assert(0 <= r <= if n - 1 >= 1 { n - 1 } else { 1 });
        if n - 1 >= 1 {
            assert(c * r <= b * (n - 1)) by (nonlinear_arith)
                requires
                    0 <= c <= b,
                    0 <= r <= n - 1,
            ;
            assert(b * (n - 1) >= 1) by (nonlinear_arith)
                requires
                    b >= 1,
                    n - 1 >= 1,
            ;
            assert(c * r >= 0) by (nonlinear_arith)
                requires
                    c >= 0,
                    r >= 0,
            ;
        }
    }
}

proof fn lemma_radix_product_13()
    ensures
        radix_product_bound(13) == 479001600,
{
    assert(radix_product_bound(1) == 1);
    assert(radix_product_bound(2) == 1);
    assert(radix_product_bound(3) == 2);
    assert(radix_product_bound(4) == 6);
    assert(radix_product_bound(5) == 24);
    assert(radix_product_bound(6) == 120);
    assert(radix_product_bound(7) == 720);
    assert(radix_product_bound(8) == 5040);
    assert(radix_product_bound(9) == 40320);
    assert(radix_product_bound(10) == 362880);
    assert(radix_product_bound(11) == 3628800);
    assert(radix_product_bound(12) == 39916800);
}

/// With the first prediction not strong, at least one candidate exists.
proof fn lemma_key_count_pos(preds: Seq<KeyBytePrediction>, n: int)
    requires
        0 <= n <= preds.len(),
        preds.len() > 0,
        !(preds[0] is Strong),
    ensures
        key_count(preds, n) >= 1,
    decreases n,
{
    if n > 0 {
        lemma_key_count_pos(preds, n - 1);
        let c = key_count(preds, n - 1);
        let r = radix(preds, n - 1);
        assert(r >= 1);
        assert(c * r >= 1) by (nonlinear_arith)
            requires
                c >= 1,
                r >= 1,
        ;
    }
}

/// Valid free indices select a candidate inside the enumeration.
proof fn lemma_key_index_bound(preds: Seq<KeyBytePrediction>, l: Seq<usize>, n: int)
    requires
        predictions_wf(preds),
        l_indices_valid(preds, l),
        0 <= n <= 13,
    ensures
        0 <= key_index_of(preds, l, n) < key_count(preds, n),
    decreases n,
{
    if n > 0 {
        lemma_key_index_bound(preds, l, n - 1);
        lemma_key_count_pos(preds, n - 1);
        let c = key_count(preds, n - 1);
        let x = key_index_of(preds, l, n - 1);
        if preds[n - 1] is Strong {
            let d = l[n - 1] - 1;
            let i = n - 1;
            assert(0 <= d <= i - 1);
            assert(0 <= x + d * c < c * i) by (nonlinear_arith)
                requires
                    0 <= x < c,
                    0 <= d <= i - 1,
                    c >= 1,
            ;
        }
    }
}

/// Two index vectors that agree below `n` select the same position there.
proof fn lemma_key_index_low(
    preds: Seq<KeyBytePrediction>,
    l1: Seq<usize>,
    l2: Seq<usize>,
    n: int,
)
    requires
        0 <= n <= l1.len(),
        l1.len() == l2.len(),
        forall|k: int| 0 <= k < n ==> l1[k] == l2[k],
    ensures
        key_index_of(preds, l1, n) == key_index_of(preds, l2, n),
    decreases n,
{
    if n > 0 {
        lemma_key_index_low(preds, l1, l2, n - 1);
    }
}

/// Two index vectors that agree from `n` on differ in position by what they
/// differ below `n`.
proof fn lemma_key_index_high(
    preds: Seq<KeyBytePrediction>,
    l1: Seq<usize>,
    l2: Seq<usize>,
    n: int,
    m: int,
)
    requires
        0 <= n <= m <= l1.len(),
        l1.len() == l2.len(),
        forall|k: int| n <= k < l1.len() ==> l1[k] == l2[k],
    ensures
        key_index_of(preds, l1, m) - key_index_of(preds, l2, m) == key_index_of(preds, l1, n)
            - key_index_of(preds, l2, n),
    decreases m,
{
    if m > n {
        lemma_key_index_high(preds, l1, l2, n, m - 1);
    }
}

/// The odometer step from position `i` either adds `key_count(i)` to the
/// position of the candidate, or wraps when every strong position from `i`
/// on is at its largest index.
proof fn lemma_odometer(preds: Seq<KeyBytePrediction>, l: Seq<usize>, i: int, m: bool)
    requires
        predictions_wf(preds),
        l_indices_valid(preds, l),
        0 <= i <= 13,
    ensures
        ({
            let (l2, wrapped, _m2) = odometer(preds, l, i, m);
            &&& l_indices_valid(preds, l2)
            &&& forall|k: int| 0 <= k < i ==> l2[k] == l[k]
            &&& !wrapped ==> key_index_of(preds, l2, 13) == key_index_of(preds, l, 13) + key_count(
                preds,
                i,
            )
            &&& wrapped ==> key_index_of(preds, l, 13) - key_index_of(preds, l, i) == key_count(
                preds,
                13,
            ) - key_count(preds, i)
        }),
    decreases 13 - i,
{
    if i >= 13 {
    } else if !(preds[i] is Strong) {
        lemma_odometer(preds, l, i + 1, m);
    } else {
        let m2 = m && i < WEP40_KEY_LEN;
        let c = key_count(preds, i);
        if l[i] + 1 > i {
            let l1 = l.update(i, 1);
            assert(l_indices_valid(preds, l1));
            lemma_odometer(preds, l1, i + 1, m2);
            let (l2, wrapped, _m3) = odometer(preds, l1, i + 1, m2);
            lemma_key_index_high(preds, l1, l, i + 1, 13);
            lemma_key_index_low(preds, l1, l, i);
            assert(l1[i] == 1);
            assert((l1[i] - 1) * c == 0) by (nonlinear_arith)
                requires
                    l1[i] == 1,
            ;
            assert(key_index_of(preds, l1, i + 1) == key_index_of(preds, l1, i));
            assert(key_index_of(preds, l, i + 1) == key_index_of(preds, l, i) + (i - 1) * c);
            assert(key_count(preds, i + 1) == c * i);
            assert(c * i == (i - 1) * c + c) by (nonlinear_arith);
            if wrapped {
                lemma_key_index_low(preds, l1, l, i);
            }
        } else {
            let l2 = l.update(i, (l[i] + 1) as usize);
            lemma_key_index_high(preds, l2, l, i + 1, 13);
            lemma_key_index_low(preds, l2, l, i);
            assert((l2[i] - 1) * c == (l[i] - 1) * c + c) by (nonlinear_arith)
                requires
                    l2[i] == l[i] + 1,
            ;
        }
    }
}

/// The advance step keeps the invariant, counts one key, and reports `false`
/// exactly when it steps past the last candidate.
proof fn lemma_advanced(t: TesterState)
    requires
        tester_wf(t),
    ensures
        tester_wf(advanced(t).0),
        advanced(t).0.predictions == t.predictions,
        advanced(t).0.num_keys == t.num_keys,
        t.cur_key_idx < t.num_keys ==> advanced(t).0.cur_key_idx == t.cur_key_idx + 1,
        t.cur_key_idx >= t.num_keys ==> advanced(t).0 == t,
        advanced(t).1 == (t.cur_key_idx + 1 < t.num_keys),
{
    if t.cur_key_idx < t.num_keys {
        lemma_odometer(t.predictions, t.l_indices, 0, t.maybe_wep40);
        let (l2, wrapped, _m) = odometer(t.predictions, t.l_indices, 0, t.maybe_wep40);
        lemma_key_index_bound(t.predictions, l2, 13);
    }
}

/// Advancing `num_keys - 1` times from a fresh tester reaches the last
/// candidate; the advance after that reports `false` and leaves the tester at
/// its end.
pub proof fn lemma_enumeration_exhausts(preds: Seq<KeyBytePrediction>)
    requires
        predictions_wf(preds),
    ensures
        ({
            let t0 = initial_tester(preds);
            let last = advanced_times(t0, (t0.num_keys - 1) as nat);
            &&& t0.num_keys >= 1
            &&& last.cur_key_idx == t0.num_keys - 1
            &&& advanced(last).1 == false
            &&& advanced(last).0.cur_key_idx == t0.num_keys
        }),
{
    let t0 = initial_tester(preds);
    lemma_key_count_pos(preds, 13);
    lemma_initial_wf(preds);
    lemma_advanced_times(t0, (t0.num_keys - 1) as nat);
    let last = advanced_times(t0, (t0.num_keys - 1) as nat);
    lemma_advanced(last);
}

proof fn lemma_advanced_times(t: TesterState, k: nat)
    requires
        tester_wf(t),
        t.cur_key_idx + k <= t.num_keys,
    ensures
        tester_wf(advanced_times(t, k)),
        advanced_times(t, k).cur_key_idx == t.cur_key_idx + k,
        advanced_times(t, k).num_keys == t.num_keys,
        advanced_times(t, k).predictions == t.predictions,
    decreases k,
{
    if k > 0 {
        lemma_advanced_times(t, (k - 1) as nat);
        lemma_advanced(advanced_times(t, (k - 1) as nat));
    }
}

proof fn lemma_initial_index(preds: Seq<KeyBytePrediction>, n: int)
    requires
        0 <= n <= preds.len(),
    ensures
        key_index_of(preds, initial_l_indices(preds), n) == 0,
    decreases n,
{
    if n > 0 {
        lemma_initial_index(preds, n - 1);
        let c = key_count(preds, n - 1);
        if preds[n - 1] is Strong {
            assert(initial_l_indices(preds)[n - 1] == 1);
            assert((initial_l_indices(preds)[n - 1] - 1) * c == 0);
        }
    }
}

proof fn lemma_initial_wf(preds: Seq<KeyBytePrediction>)
    requires
        predictions_wf(preds),
    ensures
        tester_wf(initial_tester(preds)),
{
    lemma_initial_index(preds, 13);
    lemma_key_count_pos(preds, 13);
}

/// Where every prediction is normal there is one candidate, whatever the
/// free indices hold, and each of its bytes is the difference of two
/// consecutive predicted sigma sums.
pub proof fn lemma_all_normal_key(
    preds: Seq<KeyBytePrediction>,
    l1: Seq<usize>,
    l2: Seq<usize>,
    n: nat,
)
    requires
        preds.len() == 13,
        l1.len() == 13,
        l2.len() == 13,
        n <= 13,
        forall|i: int| 0 <= i < 13 ==> !(#[trigger] preds[i] is Strong),
    ensures
        key_count(preds, 13) == 1,
        candidate_prefix(preds, l1, n) == candidate_prefix(preds, l2, n),
        candidate_prefix(preds, l1, n).0.len() == n,
        forall|i: int|
            0 <= i < n ==> #[trigger] candidate_prefix(preds, l1, n).0[i] == ((normal_sigma(preds[i])
                - (if i == 0 {
                0
            } else {
                normal_sigma(preds[i - 1])
            })) % 256) as u8,
        n > 0 ==> candidate_prefix(preds, l1, n).1 == normal_sigma(preds[n - 1]),
    decreases n,
{
    lemma_key_count_one(preds, 13);
    if n > 0 {
        lemma_all_normal_key(preds, l1, l2, (n - 1) as nat);
    }
}

proof fn lemma_key_count_one(preds: Seq<KeyBytePrediction>, n: int)
    requires
        0 <= n <= preds.len(),
        forall|i: int| 0 <= i < preds.len() ==> !(#[trigger] preds[i] is Strong),
    ensures
        key_count(preds, n) == 1,
    decreases n,
{
    if n > 0 {
        lemma_key_count_one(preds, n - 1);
    }
}

/// The sigma sum of a normal prediction.
pub open spec fn normal_sigma(p: KeyBytePrediction) -> u8 {
    match p {
        KeyBytePrediction::Normal { sigma } => sigma,
        KeyBytePrediction::Strong => 0,
    }
}

/// The sigma sum at a strong position `i`, from the key bytes before it,
/// the free index `lo` and the previous sigma sum:
/// `prev − (Σ_{k ∈ [lo, i)} (key[k] + 3 + k) + 3 + i)`, mod 256.
fn strong_sigma(key: &[u8; 13], lo: usize, i: usize, prev: u8) -> (r: u8)
    requires
        1 <= lo <= i < 13,
    ensures
        r == ((prev - (rk_sum(key@.take(i as int), lo as int, i as int) + 3 + i)) % 256) as u8,
{
    let ghost prefix = key@.take(i as int);
    let mut inv_rk: usize = 0;
    let mut k: usize = lo;
    while k < i
        invariant
            1 <= lo <= k <= i < 13,
            prefix == key@.take(i as int),
            inv_rk == rk_sum(prefix, lo as int, k as int),
            inv_rk <= 300 * (k - lo),
        decreases i - k,
    {
        inv_rk = inv_rk + key[k] as usize + 3 + k;
        k = k + 1;
    }
    inv_rk = inv_rk + 3 + i;
    let r = ((prev as usize + 256 - inv_rk % 256) % 256) as u8;
    assert((prev as int + 256 - inv_rk % 256) % 256 == (prev - inv_rk) % 256) by (nonlinear_arith)
        requires
            inv_rk >= 0,
    ;
    r
}

impl KeyTester {
    /// A tester positioned at the first candidate. The number of candidates
    /// is the product of the strong positions.
    pub fn new(key_predictions: [KeyBytePrediction; 13]) -> (r: KeyTester)
        requires
            predictions_wf(key_predictions@),
        ensures
            r@ == initial_tester(key_predictions@),
            tester_wf(r@),
            r@.num_keys >= 1,
    {
        let ghost preds = key_predictions@;
        let mut num_keys: usize = 1;
        let mut idx: usize = 0;
        while idx < 13
            invariant
                idx <= 13,
                preds == key_predictions@,
                num_keys == key_count(preds, idx as int),
            decreases 13 - idx,
        {
            proof {
                lemma_key_count_bound(preds, idx as int + 1);
                lemma_key_count_bound(preds, 13);
                lemma_radix_product_13();
                lemma_radix_product_monotone(idx as int + 1, 13);
            }
            if key_predictions[idx] == KeyBytePrediction::Strong {
                num_keys = num_keys * idx;
            }
            idx = idx + 1;
        }

        let mut maybe_wep40 = true;
        let mut i: usize = WEP40_KEY_LEN;
        while i < WEP104_KEY_LEN
            invariant
                WEP40_KEY_LEN <= i <= WEP104_KEY_LEN,
                preds == key_predictions@,
                maybe_wep40 == (forall|k: int|
                    WEP40_KEY_LEN <= k < i ==> #[trigger] preds[k] is Strong),
            decreases WEP104_KEY_LEN - i,
        {
            if key_predictions[i] != KeyBytePrediction::Strong {
                maybe_wep40 = false;
            }
            i = i + 1;
        }

        let mut cur_l_idxs = [usize::MAX; 13];
        let mut k: usize = 0;
        while k < 13
            invariant
                k <= 13,
                preds == key_predictions@,
                forall|m: int| 0 <= m < k ==> cur_l_idxs@[m] == initial_l_indices(preds)[m],
                forall|m: int| k <= m < 13 ==> cur_l_idxs@[m] == usize::MAX,
            decreases 13 - k,
        {
            if key_predictions[k] == KeyBytePrediction::Strong {
                cur_l_idxs[k] = 1;
            }
            k = k + 1;
        }

        let r = KeyTester {
            cur_key_idx: 0,
            num_keys,
            cur_l_idxs,
            key_predictions,
            maybe_wep40,
        };
        proof {
            assert(r@.l_indices =~= initial_l_indices(preds));
            lemma_initial_wf(preds);
            lemma_key_count_pos(preds, 13);
        }
        r
    }

    pub fn key_predictions(&self) -> (r: [KeyBytePrediction; 13])
        ensures
            r@ == self@.predictions,
    {
        self.key_predictions
    }

    pub fn num_keys(&self) -> (r: usize)
        ensures
            r == self@.num_keys,
    {
        self.num_keys
    }

    pub fn current_key_index(&self) -> (r: usize)
        ensures
            r == self@.cur_key_idx,
    {
        self.cur_key_idx
    }

    /// Whether every candidate has been passed.
    pub fn is_at_end(&self) -> (r: bool)
        ensures
            r == (self@.cur_key_idx >= self@.num_keys),
    {
        self.cur_key_idx >= self.num_keys
    }

    /// Whether the candidates may still be WEP-40 keys padded with
    /// strong bytes.
    pub fn is_maybe_wep40(&self) -> (r: bool)
        ensures
            r == self@.maybe_wep40,
    {
        self.maybe_wep40
    }

    pub fn current_l_indices(&self) -> (r: [usize; 13])
        ensures
            r@ == self@.l_indices,
    {
        self.cur_l_idxs
    }

    /// The candidate key that the current free indices select.
    pub fn current_key(&self) -> (r: [u8; 13])
        requires
            tester_wf(self@),
            self@.cur_key_idx < self@.num_keys,
        ensures
            r@ == candidate_key(self@),
    {
        let ghost preds = self.key_predictions@;
        let ghost l = self.cur_l_idxs@;
        let mut key = [0u8; 13];
        let mut prev_sigma: u8 = 0;
        let mut i: usize = 0;
        while i < 13
            invariant
                i <= 13,
                preds == self.key_predictions@,
                l == self.cur_l_idxs@,
                tester_wf(self@),
                candidate_prefix(preds, l, i as nat).0 =~= key@.take(i as int),
                candidate_prefix(preds, l, i as nat).1 == prev_sigma,
            decreases 13 - i,
        {
            let ghost prefix = key@.take(i as int);
            let sigma: u8 = match self.key_predictions[i] {
                KeyBytePrediction::Normal { sigma } => sigma,
                KeyBytePrediction::Strong => {
                    let lo = self.cur_l_idxs[i];
                    strong_sigma(&key, lo, i, prev_sigma)
                },
            };
            let kb = ((sigma as usize + 256 - prev_sigma as usize) % 256) as u8;
            key[i] = kb;
            proof {
                assert(key@.take(i as int + 1) =~= prefix.push(kb));
            }
            prev_sigma = sigma;
            i = i + 1;
        }
        assert(key@.take(13) =~= key@);
        key
    }

    /// Tests the current candidate against the buffer, as a WEP-104 key and,
    /// where the candidates may be WEP-40 keys, as one.
    pub fn test_current_key(&self, test_sample_buf: &TestSampleBuffer) -> (r: Option<WepKey>)
        requires
            tester_wf(self@),
            self@.cur_key_idx < self@.num_keys,
            buffer_wf(test_sample_buf@),
        ensures
            found_bytes(r) == tested_candidate(self@, test_sample_buf@),
    {
        let key = self.current_key();
        let key104 = WepKey::Wep104Key(key);
        if test_sample_buf.test_wep_key(&key104) {
            return Some(key104);
        }
        if self.maybe_wep40 {
            let mut key40 = [0u8; 5];
            let mut k: usize = 0;
            while k < WEP40_KEY_LEN
                invariant
                    k <= WEP40_KEY_LEN,
                    forall|m: int| 0 <= m < k ==> key40@[m] == key@[m],
                decreases WEP40_KEY_LEN - k,
            {
                key40[k] = key[k];
                k = k + 1;
            }
            assert(key40@ =~= key@.take(WEP40_KEY_LEN as int));
            let key40 = WepKey::Wep40Key(key40);
            if test_sample_buf.test_wep_key(&key40) {
                return Some(key40);
            }
        }
        None
    }

    /// Moves to the next candidate. Returns `false`, and stays at or moves to
    /// the end, when no candidate is left.
    pub fn advance_to_next_key(&mut self) -> (r: bool)
        requires
            tester_wf(old(self)@),
        ensures
            (final(self)@, r) == advanced(old(self)@),
            tester_wf(final(self)@),
            r == (old(self)@.cur_key_idx + 1 < old(self)@.num_keys),
            old(self)@.cur_key_idx < old(self)@.num_keys ==> final(self)@.cur_key_idx
                == old(self)@.cur_key_idx + 1,
    {
        proof {
            lemma_advanced(self@);
        }
        if self.cur_key_idx >= self.num_keys {
            return false;
        }
        let ghost t0 = self@;
        let ghost target = odometer(t0.predictions, t0.l_indices, 0, t0.maybe_wep40);
        let mut i: usize = 0;
        while i < 13
            invariant
                i <= 13,
                self.key_predictions@ == t0.predictions,
                self.num_keys == t0.num_keys,
                self.cur_key_idx == t0.cur_key_idx,
                t0.cur_key_idx < t0.num_keys,
                t0 == old(self)@,
                tester_wf(t0),
                target == odometer(t0.predictions, t0.l_indices, 0, t0.maybe_wep40),
                target == odometer(t0.predictions, self.cur_l_idxs@, i as int, self.maybe_wep40),
                forall|k: int|
                    0 <= k < 13 && t0.predictions[k] is Strong ==> self.cur_l_idxs@[k] <= k,
            decreases 13 - i,
        {
            let ghost l_before = self.cur_l_idxs@;
            let ghost m_before = self.maybe_wep40;
            if self.key_predictions[i] == KeyBytePrediction::Strong {
                if i >= WEP40_KEY_LEN {
                    self.maybe_wep40 = false;
                }
                self.cur_l_idxs[i] = self.cur_l_idxs[i] + 1;
                if self.cur_l_idxs[i] > i {
                    self.cur_l_idxs[i] = 1;
                    proof {
                        assert(self.cur_l_idxs@ =~= l_before.update(i as int, 1));
                    }
                } else {
                    self.cur_key_idx = self.cur_key_idx + 1;
                    proof {
                        assert(self.cur_l_idxs@ =~= l_before.update(
                            i as int,
                            (l_before[i as int] + 1) as usize,
                        ));
                        assert(target == odometer(t0.predictions, l_before, i as int, m_before));
                        assert(self.cur_l_idxs@ =~= target.0);
                        assert(self.maybe_wep40 == target.2);
                        assert(!target.1);
                        assert(self@ == advanced(t0).0);
                        lemma_advanced(t0);
                    }
                    return true;
                }
            }
            i = i + 1;
        }
        self.cur_key_idx = self.cur_key_idx + 1;
        proof {
            assert(self.cur_l_idxs@ =~= target.0);
            assert(self.maybe_wep40 == target.2);
            assert(self@ == advanced(t0).0);
            lemma_advanced(t0);
        }
        false
    }
}

proof fn lemma_radix_product_monotone(a: int, b: int)
    requires
        0 <= a <= b,
    ensures
        radix_product_bound(a) <= radix_product_bound(b),
    decreases b,
{
    if a < b {
        lemma_radix_product_monotone(a, b - 1);
        let x = radix_product_bound(b - 1);
        if b - 1 >= 1 {
            lemma_radix_product_pos(b - 1);
            assert(x <= x * (b - 1)) by (nonlinear_arith)
                requires
                    x >= 1,
                    b - 1 >= 1,
            ;
        }
    }
}

proof fn lemma_radix_product_pos(n: int)
    ensures
        radix_product_bound(n) >= 1,
    decreases n,
{
    if n > 1 {
        lemma_radix_product_pos(n - 1);
        let x = radix_product_bound(n - 1);
        assert(x * (n - 1) >= 1) by (nonlinear_arith)
            requires
                x >= 1,
                n - 1 >= 1,
        ;
    }
}

} // verus!
