//! What the vote statistics say about one byte of the key.
use vstd::prelude::*;

verus! {

/// The classification of one key byte.
///
/// A `Normal` byte is predicted by the sigma sum with the most votes; for a
/// `Strong` byte that estimate is no better than chance, and the byte is
/// recovered from the bytes before it instead.
#[derive(Clone, Copy, Debug, PartialEq, Eq, Structural)]
pub enum KeyBytePrediction {
    Normal { sigma: u8 },
    Strong,
}

/// `c` holds a maximal entry of `votes`, and no later entry is as large.
pub open spec fn is_candidate_sigma(votes: Seq<usize>, c: int) -> bool {
    &&& 0 <= c < votes.len()
    &&& forall|s: int| 0 <= s < votes.len() ==> votes[s] <= votes[c]
    &&& forall|s: int| c < s < votes.len() ==> votes[s] < votes[c]
}

/// The sigma sum with the most votes; among equals, the last one.
pub fn candidate_sigma(votes: &[usize]) -> (c: u8)
    requires
        votes@.len() == 256,
    ensures
        is_candidate_sigma(votes@, c as int),
{
    let mut best: usize = 0;
    let mut s: usize = 1;
    while s < 256
        invariant
            1 <= s <= 256,
            best < s,
            votes@.len() == 256,
            forall|t: int| 0 <= t < s ==> votes@[t] <= votes@[best as int],
            forall|t: int| best < t < s ==> votes@[t] < votes@[best as int],
        decreases 256 - s,
    {
        if votes[s] >= votes[best] {
            best = s;
        }
        s = s + 1;
    }
    best as u8
}

} // verus!
