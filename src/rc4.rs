//! The RC4 stream cipher, with its internal state `(S, i, j)` open to
//! inspection so that a key schedule can be run part of the way.
use vstd::prelude::*;

verus! {

/// The mathematical state of an RC4 generator.
pub struct RC4State {
    pub s: Seq<u8>,
    pub i: int,
    pub j: int,
}

/// The permutation with its two entries at `a` and `b` exchanged.
pub open spec fn swap(s: Seq<u8>, a: int, b: int) -> Seq<u8> {
    s.update(a, s[b]).update(b, s[a])
}

/// The identity permutation with both counters at zero.
pub open spec fn initial_state() -> RC4State {
    RC4State { s: Seq::new(256, |k: int| k as u8), i: 0, j: 0 }
}

/// A state that the executable generator can hold.
pub open spec fn state_wf(st: RC4State) -> bool {
    st.s.len() == 256 && 0 <= st.i <= 256 && 0 <= st.j < 256
}

/// A state that the keystream generator can step from: any counter `i` that
/// can be incremented, and `j` below 256.
pub open spec fn prga_ready(st: RC4State) -> bool {
    st.s.len() == 256 && 0 <= st.i < usize::MAX && 0 <= st.j < 256
}

/// One step of the key schedule, absorbing the key byte `k`.
pub open spec fn schedule_step(st: RC4State, k: u8) -> RC4State {
    let j = (st.j + st.s[st.i] + k) % 256;
    RC4State { s: swap(st.s, st.i, j), i: st.i + 1, j }
}

/// The state after absorbing the bytes of `key` in order.
pub open spec fn schedule(st: RC4State, key: Seq<u8>) -> RC4State
    decreases key.len(),
{
    if key.len() == 0 {
        st
    } else {
        schedule_step(schedule(st, key.drop_last()), key.last())
    }
}

/// The key repeated until it fills the 256 bytes of a full key schedule.
pub open spec fn tiled_key(key: Seq<u8>) -> Seq<u8>
    recommends
        key.len() > 0,
{
    Seq::new(256, |k: int| key[k % (key.len() as int)])
}

/// The state that the standard RC4 setup gives for `key`.
pub open spec fn keyed_state(key: Seq<u8>) -> RC4State {
    let st = schedule(initial_state(), tiled_key(key));
    RC4State { s: st.s, i: 0, j: 0 }
}

/// The state after one step of the keystream generator.
pub open spec fn prga_next(st: RC4State) -> RC4State {
    let i = (st.i + 1) % 256;
    let j = (st.j + st.s[i]) % 256;
    RC4State { s: swap(st.s, i, j), i, j }
}

/// The keystream byte that the step from `st` emits.
pub open spec fn prga_output(st: RC4State) -> u8 {
    let nx = prga_next(st);
    nx.s[(nx.s[nx.i] + nx.s[nx.j]) % 256]
}

/// The state after `n` steps of the keystream generator.
pub open spec fn prga_state(st: RC4State, n: nat) -> RC4State
    decreases n,
{
    if n == 0 {
        st
    } else {
        prga_next(prga_state(st, (n - 1) as nat))
    }
}

/// The first `n` keystream bytes that the generator emits from `st`.
pub open spec fn keystream(st: RC4State, n: nat) -> Seq<u8> {
    Seq::new(n, |k: int| prga_output(prga_state(st, k as nat)))
}

pub struct RC4Cipher {
    pub s: [u8; 256],
    pub i: usize,
    pub j: usize,
}

impl View for RC4Cipher {
    type V = RC4State;

    open spec fn view(&self) -> RC4State {
        RC4State { s: self.s@, i: self.i as int, j: self.j as int }
    }
}

/// The key schedule may be split anywhere: absorbing `a` and then `b` gives
/// the state that absorbing `a ++ b` in one go gives.
pub proof fn lemma_schedule_concat(st: RC4State, a: Seq<u8>, b: Seq<u8>)
    ensures
        schedule(st, a + b) == schedule(schedule(st, a), b),
    decreases b.len(),
{
    if b.len() == 0 {
        assert(a + b =~= a);
    } else {
        lemma_schedule_concat(st, a, b.drop_last());
        assert((a + b).drop_last() =~= a + b.drop_last());
        assert((a + b).last() == b.last());
    }
}

/// A partial key schedule over a prefix, run to completion with the rest of a
/// full 256-byte key and then reset, gives the cipher that the whole key
/// sets up.
pub proof fn lemma_partial_schedule_completes(prefix: Seq<u8>, suffix: Seq<u8>)
    requires
        prefix.len() + suffix.len() == 256,
    ensures
        ({
            let st = schedule(schedule(initial_state(), prefix), suffix);
            RC4State { s: st.s, i: 0, j: 0 }
        }) == keyed_state(prefix + suffix),
{
    let full = prefix + suffix;
    lemma_schedule_concat(initial_state(), prefix, suffix);
    assert(tiled_key(full) =~= full);
}

impl Default for RC4Cipher {
    fn default() -> (r: RC4Cipher)
        ensures
            r@ == initial_state(),
    {
        RC4Cipher::new()
    }
}

impl RC4Cipher {
    /// A generator holding the identity permutation, with `i = j = 0`.
    pub fn new() -> (r: RC4Cipher)
        ensures
            r@ == initial_state(),
    {
        let mut s = [0u8; 256];
        let mut k: usize = 0;
        while k < 256
            invariant
                k <= 256,
                forall|m: int| 0 <= m < k ==> s@[m] == m as u8,
            decreases 256 - k,
        {
            s[k] = k as u8;
            k = k + 1;
        }
        let r = RC4Cipher { s, i: 0, j: 0 };
        assert(r@.s =~= initial_state().s);
        r
    }

    /// The generator that the standard RC4 setup gives for `key`: the key is
    /// repeated to 256 bytes and absorbed, then both counters are reset.
    pub fn from_key(key: &[u8]) -> (r: RC4Cipher)
        requires
            key@.len() > 0,
        ensures
            r@ == keyed_state(key@),
            state_wf(r@),
    {
        let mut cipher = RC4Cipher::new();

        let mut full_key = [0u8; 256];
        let mut k: usize = 0;
        while k < 256
            invariant
                k <= 256,
                key@.len() > 0,
                forall|m: int| 0 <= m < k ==> full_key@[m] == key@[m % (key@.len() as int)],
            decreases 256 - k,
        {
            full_key[k] = key[k % key.len()];
            k = k + 1;
        }
        assert(full_key@ =~= tiled_key(key@));

        cipher.do_partial_keyschedule(&full_key);
        cipher.i = 0;
        cipher.j = 0;
        cipher
    }

    /// Absorbs the bytes of `key` into the key schedule, continuing from the
    /// current `i` and `j`.
    pub fn do_partial_keyschedule(&mut self, key: &[u8])
        requires
            state_wf(old(self)@),
            old(self)@.i + key@.len() <= 256,
        ensures
            final(self)@ == schedule(old(self)@, key@),
            state_wf(final(self)@),
            final(self)@.i == old(self)@.i + key@.len(),
    {
        let ghost st0 = self@;
        let mut n: usize = 0;
        while n < key.len()
            invariant
                n <= key@.len(),
                st0.i + key@.len() <= 256,
                state_wf(st0),
                self@ == schedule(st0, key@.take(n as int)),
                state_wf(self@),
                self@.i == st0.i + n,
            decreases key@.len() - n,
        {
            proof {
                assert(key@.take(n as int + 1).drop_last() =~= key@.take(n as int));
            }
            let ghost pre = self@;
            let kb = key[n];
            let i = self.i;
            let j = (self.j + self.s[i] as usize + kb as usize) % 256;
            let t = self.s[i];
            self.s[i] = self.s[j];
            self.s[j] = t;
            self.i = i + 1;
            self.j = j;
            proof {
                assert(self@.s =~= swap(pre.s, i as int, j as int));
                assert(self@ == schedule_step(pre, kb));
            }
            n = n + 1;
        }
        assert(key@.take(key@.len() as int) =~= key@);
    }

    /// Runs one step of the keystream generator and returns its byte.
    pub fn gen_keystream_byte(&mut self) -> (b: u8)
        requires
            prga_ready(old(self)@),
        ensures
            final(self)@ == prga_next(old(self)@),
            b == prga_output(old(self)@),
            state_wf(final(self)@),
    {
        let i = (self.i + 1) % 256;
        let j = (self.j + self.s[i] as usize) % 256;
        let t = self.s[i];
        self.s[i] = self.s[j];
        self.s[j] = t;
        self.i = i;
        self.j = j;
        proof {
            assert(self@.s =~= prga_next(old(self)@).s);
        }
        self.s[(self.s[j] as usize + self.s[i] as usize) % 256]
    }

    /// Fills `out` with the next keystream bytes, in order.
    pub fn gen_keystream(&mut self, out: &mut [u8])
        requires
            prga_ready(old(self)@),
        ensures
            final(out)@ == keystream(old(self)@, old(out)@.len()),
            final(self)@ == prga_state(old(self)@, old(out)@.len()),
            prga_ready(final(self)@),
            old(out)@.len() > 0 ==> state_wf(final(self)@),
    {
        let ghost st0 = self@;
        let ghost len = out@.len();
        let mut n: usize = 0;
        while n < out.len()
            invariant
                n <= out@.len(),
                out@.len() == len,
                prga_ready(self@),
                n > 0 ==> state_wf(self@),
                self@ == prga_state(st0, n as nat),
                forall|m: int| 0 <= m < n ==> out@[m] == prga_output(prga_state(st0, m as nat)),
            decreases out@.len() - n,
        {
            let b = self.gen_keystream_byte();
            out[n] = b;
            n = n + 1;
        }
        assert(out@ =~= keystream(st0, len));
    }
}

} // verus!
