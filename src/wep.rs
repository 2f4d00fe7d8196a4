//! WEP keys and the RC4 seeds they make with an IV.
use vstd::prelude::*;

use crate::rc4::{keyed_state, keystream, state_wf, RC4Cipher};

verus! {

/// The number of bytes of a WEP-40 key.
pub const WEP40_KEY_LEN: usize = 5;

/// The number of bytes of a WEP-104 key.
pub const WEP104_KEY_LEN: usize = 13;

/// The number of keystream bytes that a sample holds.
pub const KEYSTREAM_LEN: usize = 16;

/// The initialization vector sent in the clear with each frame.
pub type WepIV = [u8; 3];

#[derive(Clone, Copy, Debug, PartialEq, Eq)]
pub enum WepKey {
    Wep40Key([u8; 5]),
    Wep104Key([u8; 13]),
}

impl WepKey {
    /// The secret bytes of the key.
    pub open spec fn bytes(self) -> Seq<u8> {
        match self {
            WepKey::Wep40Key(k) => k@,
            WepKey::Wep104Key(k) => k@,
        }
    }

    /// The RC4 cipher for a frame sent with `iv`: its seed is the IV followed
    /// by the key bytes.
    pub fn create_rc4(&self, iv: &WepIV) -> (r: RC4Cipher)
        ensures
            r@ == keyed_state(iv@ + self.bytes()),
            state_wf(r@),
    {
        match self {
            WepKey::Wep40Key(wep_key) => {
                let mut rc4_key = [0u8; 8];
                let mut k: usize = 0;
                while k < 8
                    invariant
                        k <= 8,
                        forall|m: int| 0 <= m < k ==> rc4_key@[m] == (iv@ + wep_key@)[m],
                    decreases 8 - k,
                {
                    rc4_key[k] = if k < 3 { iv[k] } else { wep_key[k - 3] };
                    k = k + 1;
                }
                assert(rc4_key@ =~= iv@ + wep_key@);
                RC4Cipher::from_key(&rc4_key)
            },
            WepKey::Wep104Key(wep_key) => {
                let mut rc4_key = [0u8; 16];
                let mut k: usize = 0;
                while k < 16
                    invariant
                        k <= 16,
                        forall|m: int| 0 <= m < k ==> rc4_key@[m] == (iv@ + wep_key@)[m],
                    decreases 16 - k,
                {
                    rc4_key[k] = if k < 3 { iv[k] } else { wep_key[k - 3] };
                    k = k + 1;
                }
                assert(rc4_key@ =~= iv@ + wep_key@);
                RC4Cipher::from_key(&rc4_key)
            },
        }
    }
}

/// The value of a hexadecimal digit, in either case.
pub open spec fn hex_digit_value(c: char) -> Option<u8> {
    if '0' <= c <= '9' {
        Some((c as u32 - '0' as u32) as u8)
    } else if 'a' <= c <= 'f' {
        Some((c as u32 - 'a' as u32 + 10) as u8)
    } else if 'A' <= c <= 'F' {
        Some((c as u32 - 'A' as u32 + 10) as u8)
    } else {
        None
    }
}

/// The bytes that a hexadecimal string spells, two digits to a byte with the
/// high digit first; none where the length is odd or a character is no digit.
pub open spec fn hex_decoded(s: Seq<char>) -> Option<Seq<u8>> {
    if s.len() % 2 == 0 && forall|i: int| 0 <= i < s.len() ==> #[trigger] hex_digit_value(s[i]) is Some {
        Some(
            Seq::new(
                s.len() / 2,
                |i: int|
                    (16 * hex_digit_value(s[2 * i])->0 + hex_digit_value(s[2 * i + 1])->0) as u8,
            ),
        )
    } else {
        None
    }
}

/// Relies on `hex::decode`: two hexadecimal digits of either case to a byte,
/// high digit first; an odd length or any other character is an error.
#[verifier::external_body]
fn decode_hex(s: &str) -> (r: Option<Vec<u8>>)
    ensures
        match r {
            Some(v) => hex_decoded(s@) == Some(v@),
            None => hex_decoded(s@) is None,
        },
{
    hex::decode(s).ok()
}

/// Why a string is no WEP key.
#[derive(Clone, Copy, Debug, PartialEq, Eq, Structural)]
pub enum WepKeyParseError {
    /// The string is not hexadecimal.
    InvalidHex,
    /// The string spells neither 5 nor 13 bytes.
    InvalidLength,
}

impl WepKey {
    /// The key that a string of 10 or 26 hexadecimal digits spells: WEP-40
    /// or WEP-104.
    pub fn from_hex(s: &str) -> (r: Result<WepKey, WepKeyParseError>)
        ensures
            match hex_decoded(s@) {
                None => r == Err::<WepKey, WepKeyParseError>(WepKeyParseError::InvalidHex),
                Some(b) => if b.len() == WEP40_KEY_LEN || b.len() == WEP104_KEY_LEN {
                    r is Ok && r->Ok_0.bytes() == b
                } else {
                    r == Err::<WepKey, WepKeyParseError>(WepKeyParseError::InvalidLength)
                },
            },
            r matches Ok(k) ==> (k is Wep40Key <==> hex_decoded(s@)->0.len() == WEP40_KEY_LEN),
    {
        let bytes = match decode_hex(s) {
            Some(b) => b,
            None => {
                return Err(WepKeyParseError::InvalidHex);
            },
        };
        if bytes.len() == WEP40_KEY_LEN {
            let mut key = [0u8; 5];
            let mut k: usize = 0;
            while k < WEP40_KEY_LEN
                invariant
                    k <= WEP40_KEY_LEN,
                    bytes@.len() == WEP40_KEY_LEN,
                    forall|m: int| 0 <= m < k ==> key@[m] == bytes@[m],
                decreases WEP40_KEY_LEN - k,
            {
                key[k] = bytes[k];
                k = k + 1;
            }
            assert(key@ =~= bytes@);
            Ok(WepKey::Wep40Key(key))
        } else if bytes.len() == WEP104_KEY_LEN {
            let mut key = [0u8; 13];
            let mut k: usize = 0;
            while k < WEP104_KEY_LEN
                invariant
                    k <= WEP104_KEY_LEN,
                    bytes@.len() == WEP104_KEY_LEN,
                    forall|m: int| 0 <= m < k ==> key@[m] == bytes@[m],
                decreases WEP104_KEY_LEN - k,
            {
                key[k] = bytes[k];
                k = k + 1;
            }
            assert(key@ =~= bytes@);
            Ok(WepKey::Wep104Key(key))
        } else {
            Err(WepKeyParseError::InvalidLength)
        }
    }
}

/// The first keystream bytes of a frame sent with `iv` under the key whose
/// bytes are `key`.
pub open spec fn frame_keystream(key: Seq<u8>, iv: Seq<u8>) -> Seq<u8> {
    keystream(keyed_state(iv + key), KEYSTREAM_LEN as nat)
}

/// An IV together with the keystream bytes recovered from the frame sent with
/// it.
#[derive(Clone, Copy, Debug, PartialEq, Eq)]
pub struct KeystreamSample {
    pub keystream: [u8; 16],
    pub iv: WepIV,
}

impl KeystreamSample {
    /// The sample that a frame sent with `iv` under `key` yields.
    pub fn from_key(key: &WepKey, iv: WepIV) -> (r: KeystreamSample)
        ensures
            r.iv == iv,
            r.keystream@ == frame_keystream(key.bytes(), iv@),
    {
        let mut rc4 = key.create_rc4(&iv);
        let mut keystream = [0u8; 16];
        rc4.gen_keystream(&mut keystream);
        KeystreamSample { keystream, iv }
    }
}

} // verus!
