//! Recovery of WEP keys from keystream samples by the Klein / PTW attack.
pub mod channel;
pub mod cracker;
pub mod device;
pub mod key_byte;
pub mod key_tester;
pub mod log;
pub mod nl80211;
pub mod predictor;
pub mod rc4;
pub mod test_sample_buf;
pub mod wep;
