//! 802.11 channels of the 2.4 GHz and 5 GHz bands, by index, frequency and
//! width.
use std::ops::RangeInclusive;
use vstd::prelude::*;

verus! {

#[derive(Clone, Copy, Debug, PartialEq, Eq, Structural)]
pub enum NL80211ChannelWidth {
    Mhz20NoHT,
    Mhz20,
    Mhz40,
    Mhz80,
    Mhz80P80,
    Mhz160,
    Mhz5,
    Mhz10,
}

#[derive(Clone, Copy, Debug, PartialEq, Eq, Structural)]
pub enum NL80211ChannelBand {
    Band2400Mhz,
    Band5Ghz,
}

#[derive(Clone, Copy, Debug, PartialEq, Eq, Structural)]
pub enum NL80211Channel {
    Channel20NoHT { channel: u32 },
    ChannelHT20 { channel: u32 },
    ChannelHT40 { main_channel: u32, aux_channel: u32 },
    ChannelVHT80 { main_channel: u32, aux_channel: u32 },
    ChannelVHT160 { main_channel: u32, aux_channel: u32 },
}

/// The band of a 20 MHz channel index: 1 to 14 lie at 2.4 GHz, 32 to 144 at
/// 5 GHz.
pub open spec fn band_of_idx(idx: u32) -> Option<NL80211ChannelBand> {
    if 1 <= idx <= 14 {
        Some(NL80211ChannelBand::Band2400Mhz)
    } else if 32 <= idx <= 144 {
        Some(NL80211ChannelBand::Band5Ghz)
    } else {
        None
    }
}

/// The center frequency in MHz of a 20 MHz channel index: 2412 MHz on from
/// channel 1 and 5160 MHz on from channel 32, 5 MHz apart, and 2484 MHz for
/// channel 14.
pub open spec fn freq_of_idx(idx: u32) -> Option<u32> {
    if 1 <= idx <= 13 {
        Some((2412 + 5 * (idx - 1)) as u32)
    } else if idx == 14 {
        Some(2484)
    } else if 32 <= idx <= 144 {
        Some((5160 + 5 * (idx - 32)) as u32)
    } else {
        None
    }
}

/// The channel index of a frequency, where one is known.
pub open spec fn idx_of_freq(freq: u32) -> Option<u32> {
    if 2412 <= freq <= 2472 && (freq - 2412) % 5 == 0 {
        Some((1 + (freq - 2412) / 5) as u32)
    } else if freq == 2484 {
        Some(14)
    } else {
        None
    }
}

pub open spec fn abs_diff(a: u32, b: u32) -> int {
    if a >= b {
        a - b
    } else {
        b - a
    }
}

/// A 40 MHz pair: four indices apart, in one band, and on multiples of four
/// at 5 GHz.
pub open spec fn ht40_valid(main: u32, aux: u32) -> bool {
    &&& abs_diff(main, aux) == 4
    &&& band_of_idx(main) is Some
    &&& band_of_idx(main) == band_of_idx(aux)
    &&& band_of_idx(main) == Some(NL80211ChannelBand::Band5Ghz) ==> main % 4 == 0 && aux % 4 == 0
}

/// An 80 MHz pair: eight indices apart at 5 GHz, each 4 more than a multiple
/// of 8 above channel 2.
pub open spec fn vht80_valid(main: u32, aux: u32) -> bool {
    &&& abs_diff(main, aux) == 8
    &&& band_of_idx(main) == Some(NL80211ChannelBand::Band5Ghz)
    &&& band_of_idx(aux) == Some(NL80211ChannelBand::Band5Ghz)
    &&& (main - 2) % 8 == 4
    &&& (aux - 2) % 8 == 4
}

/// A 160 MHz pair: sixteen indices apart at 5 GHz, each 10 more than a
/// multiple of 16.
pub open spec fn vht160_valid(main: u32, aux: u32) -> bool {
    &&& abs_diff(main, aux) == 16
    &&& band_of_idx(main) == Some(NL80211ChannelBand::Band5Ghz)
    &&& band_of_idx(aux) == Some(NL80211ChannelBand::Band5Ghz)
    &&& main % 16 == 10
    &&& aux % 16 == 10
}

impl NL80211Channel {
    /// The channel is one that the constructors give.
    pub open spec fn valid(self) -> bool {
        match self {
            NL80211Channel::Channel20NoHT { channel } => band_of_idx(channel) is Some,
            NL80211Channel::ChannelHT20 { channel } => band_of_idx(channel) is Some,
            NL80211Channel::ChannelHT40 { main_channel, aux_channel } => ht40_valid(
                main_channel,
                aux_channel,
            ),
            NL80211Channel::ChannelVHT80 { main_channel, aux_channel } => vht80_valid(
                main_channel,
                aux_channel,
            ),
            NL80211Channel::ChannelVHT160 { main_channel, aux_channel } => vht160_valid(
                main_channel,
                aux_channel,
            ),
        }
    }

    /// The index that the channel is named and tuned by: the channel itself,
    /// or the main one of a pair.
    pub open spec fn main_idx(self) -> u32 {
        match self {
            NL80211Channel::Channel20NoHT { channel } => channel,
            NL80211Channel::ChannelHT20 { channel } => channel,
            NL80211Channel::ChannelHT40 { main_channel, .. } => main_channel,
            NL80211Channel::ChannelVHT80 { main_channel, .. } => main_channel,
            NL80211Channel::ChannelVHT160 { main_channel, .. } => main_channel,
        }
    }

    /// The index at the center of the channel.
    pub open spec fn center_idx(self) -> u32 {
        match self {
            NL80211Channel::Channel20NoHT { channel } => channel,
            NL80211Channel::ChannelHT20 { channel } => channel,
            NL80211Channel::ChannelHT40 { main_channel, aux_channel } => ((main_channel
                + aux_channel) / 2) as u32,
            NL80211Channel::ChannelVHT80 { main_channel, aux_channel } => ((main_channel
                + aux_channel) / 2) as u32,
            NL80211Channel::ChannelVHT160 { main_channel, aux_channel } => ((main_channel
                + aux_channel) / 2) as u32,
        }
    }

    pub open spec fn width_spec(self) -> NL80211ChannelWidth {
        match self {
            NL80211Channel::Channel20NoHT { .. } => NL80211ChannelWidth::Mhz20NoHT,
            NL80211Channel::ChannelHT20 { .. } => NL80211ChannelWidth::Mhz20,
            NL80211Channel::ChannelHT40 { .. } => NL80211ChannelWidth::Mhz40,
            NL80211Channel::ChannelVHT80 { .. } => NL80211ChannelWidth::Mhz80,
            NL80211Channel::ChannelVHT160 { .. } => NL80211ChannelWidth::Mhz160,
        }
    }
}

impl NL80211ChannelWidth {
    pub open spec fn bandwidth_spec(self) -> u32 {
        match self {
            NL80211ChannelWidth::Mhz20NoHT => 20,
            NL80211ChannelWidth::Mhz20 => 20,
            NL80211ChannelWidth::Mhz40 => 40,
            NL80211ChannelWidth::Mhz80 => 80,
            NL80211ChannelWidth::Mhz80P80 => 160,
            NL80211ChannelWidth::Mhz160 => 160,
            NL80211ChannelWidth::Mhz5 => 5,
            NL80211ChannelWidth::Mhz10 => 10,
        }
    }

    /// The width of the channel in MHz.
    pub fn bandwidth(self) -> (r: u32)
        ensures
            r == self.bandwidth_spec(),
    {
        match self {
            NL80211ChannelWidth::Mhz20NoHT => 20,
            NL80211ChannelWidth::Mhz20 => 20,
            NL80211ChannelWidth::Mhz40 => 40,
            NL80211ChannelWidth::Mhz80 => 80,
            NL80211ChannelWidth::Mhz80P80 => 160,
            NL80211ChannelWidth::Mhz160 => 160,
            NL80211ChannelWidth::Mhz5 => 5,
            NL80211ChannelWidth::Mhz10 => 10,
        }
    }
}

impl NL80211ChannelBand {
    /// The band that a frequency in MHz lies in.
    pub fn band_from_freq(freq: u32) -> (r: Option<NL80211ChannelBand>)
        ensures
            r == if 2401 <= freq <= 2495 {
                Some(NL80211ChannelBand::Band2400Mhz)
            } else if 5150 <= freq <= 5730 {
                Some(NL80211ChannelBand::Band5Ghz)
            } else {
                None
            },
    {
        if 2401 <= freq && freq <= 2495 {
            Some(NL80211ChannelBand::Band2400Mhz)
        } else if 5150 <= freq && freq <= 5730 {
            Some(NL80211ChannelBand::Band5Ghz)
        } else {
            None
        }
    }
}

/// The channel of kind `kind` on the pair `(main, aux)`: 0 for 20 MHz without
/// HT, 1 for HT20, 2 for HT40, 3 for VHT80, 4 for VHT160.
pub open spec fn channel_of_kind(kind: u8, main: u32, aux: u32) -> NL80211Channel {
    if kind == 0 {
        NL80211Channel::Channel20NoHT { channel: main }
    } else if kind == 1 {
        NL80211Channel::ChannelHT20 { channel: main }
    } else if kind == 2 {
        NL80211Channel::ChannelHT40 { main_channel: main, aux_channel: aux }
    } else if kind == 3 {
        NL80211Channel::ChannelVHT80 { main_channel: main, aux_channel: aux }
    } else {
        NL80211Channel::ChannelVHT160 { main_channel: main, aux_channel: aux }
    }
}

/// `n` channels of one kind, with both indices stepping by `step`.
pub open spec fn channel_run(kind: u8, main: u32, aux: u32, step: u32, n: nat) -> Seq<
    NL80211Channel,
> {
    Seq::new(n, |k: int| channel_of_kind(kind, (main + step * k) as u32, (aux + step * k) as u32))
}

/// Every channel of the two bands, grouped by band and kind: the 20 MHz
/// channels without and with HT, the HT40 pairs upwards and downwards, and at
/// 5 GHz the VHT80 and VHT160 pairs.
pub open spec fn all_channels_spec() -> Seq<NL80211Channel> {
    channel_run(0, 1, 1, 1, 14) + channel_run(1, 1, 1, 1, 14) + channel_run(2, 1, 5, 1, 9)
        + channel_run(2, 5, 1, 1, 9) + channel_run(0, 32, 32, 4, 29) + channel_run(1, 32, 32, 4, 29)
        + channel_run(2, 36, 40, 8, 14) + channel_run(2, 40, 36, 8, 14) + channel_run(
        3,
        38,
        46,
        16,
        7,
    ) + channel_run(4, 42, 58, 32, 3)
}

fn push_channel_run(out: &mut Vec<NL80211Channel>, kind: u8, main: u32, aux: u32, step: u32, n: u32)
    requires
        kind <= 4,
        main + step * n <= 1000,
        aux + step * n <= 1000,
    ensures
        final(out)@ == old(out)@ + channel_run(kind, main, aux, step, n as nat),
{
    let ghost start = out@;
    let mut k: u32 = 0;
    while k < n
        invariant
            k <= n,
            main + step * n <= 1000,
            aux + step * n <= 1000,
            out@ == start + channel_run(kind, main, aux, step, k as nat),
        decreases n - k,
    {
        assert(step * k <= step * n) by (nonlinear_arith)
            requires
                k <= n,
        ;
        let m = main + step * k;
        let a = aux + step * k;
        let c = if kind == 0 {
            NL80211Channel::Channel20NoHT { channel: m }
        } else if kind == 1 {
            NL80211Channel::ChannelHT20 { channel: m }
        } else if kind == 2 {
            NL80211Channel::ChannelHT40 { main_channel: m, aux_channel: a }
        } else if kind == 3 {
            NL80211Channel::ChannelVHT80 { main_channel: m, aux_channel: a }
        } else {
            NL80211Channel::ChannelVHT160 { main_channel: m, aux_channel: a }
        };
        out.push(c);
        proof {
            assert(channel_run(kind, main, aux, step, (k + 1) as nat) =~= channel_run(
                kind,
                main,
                aux,
                step,
                k as nat,
            ).push(c));
        }
        k = k + 1;
    }
}

impl NL80211Channel {
    /// Every channel of the two bands, in a fixed order.
    pub fn all_channels() -> (r: Vec<NL80211Channel>)
        ensures
            r@ == all_channels_spec(),
    {
        let mut r: Vec<NL80211Channel> = Vec::new();
        push_channel_run(&mut r, 0, 1, 1, 1, 14);
        push_channel_run(&mut r, 1, 1, 1, 1, 14);
        push_channel_run(&mut r, 2, 1, 5, 1, 9);
        push_channel_run(&mut r, 2, 5, 1, 1, 9);
        push_channel_run(&mut r, 0, 32, 32, 4, 29);
        push_channel_run(&mut r, 1, 32, 32, 4, 29);
        push_channel_run(&mut r, 2, 36, 40, 8, 14);
        push_channel_run(&mut r, 2, 40, 36, 8, 14);
        push_channel_run(&mut r, 3, 38, 46, 16, 7);
        push_channel_run(&mut r, 4, 42, 58, 32, 3);
        assert(r@ =~= all_channels_spec());
        r
    }

    /// The channel that the kernel reports by its control frequency, width and
    /// first center frequency, where it is one of these bands. A pair whose
    /// other index would fall below 0 is none.
    pub fn new(
        freq: u32,
        width: NL80211ChannelWidth,
        center_freq1: Option<u32>,
        _center_freq2: Option<u32>,
    ) -> (r: Option<NL80211Channel>)
        ensures
            ({
                match idx_of_freq(freq) {
                    None => r is None,
                    Some(ch) => match width {
                        NL80211ChannelWidth::Mhz20NoHT => r == if band_of_idx(ch) is Some {
                            Some(NL80211Channel::Channel20NoHT { channel: ch })
                        } else {
                            None::<NL80211Channel>
                        },
                        NL80211ChannelWidth::Mhz20 => r == if band_of_idx(ch) is Some {
                            Some(NL80211Channel::ChannelHT20 { channel: ch })
                        } else {
                            None::<NL80211Channel>
                        },
                        NL80211ChannelWidth::Mhz40 | NL80211ChannelWidth::Mhz80
                        | NL80211ChannelWidth::Mhz160 => {
                            let d: int = if width == NL80211ChannelWidth::Mhz40 {
                                2
                            } else if width == NL80211ChannelWidth::Mhz80 {
                                4
                            } else {
                                8
                            };
                            match center_freq1 {
                                None => r is None,
                                Some(cf) => match idx_of_freq(cf) {
                                    None => r is None,
                                    Some(c) => r == if abs_diff(c, ch) == d && 2 * ch >= c
                                        && ht40_valid(c, (2 * ch - c) as u32) {
                                        Some(
                                            NL80211Channel::ChannelHT40 {
                                                main_channel: c,
                                                aux_channel: (2 * ch - c) as u32,
                                            },
                                        )
                                    } else {
                                        None::<NL80211Channel>
                                    },
                                },
                            }
                        },
                        _ => r is None,
                    },
                }
            }),
    {
        let channel = match Self::freq_to_channel_idx(freq) {
            Some(c) => c,
            None => {
                return None;
            },
        };
        let d: u32 = match width {
            NL80211ChannelWidth::Mhz20NoHT => {
                return Self::mhz20_channel(channel);
            },
            NL80211ChannelWidth::Mhz20 => {
                return Self::ht20_channel(channel);
            },
            NL80211ChannelWidth::Mhz40 => 2,
            NL80211ChannelWidth::Mhz80 => 4,
            NL80211ChannelWidth::Mhz160 => 8,
            _ => {
                return None;
            },
        };
        let center = match center_freq1 {
            Some(cf) => match Self::freq_to_channel_idx(cf) {
                Some(c) => c,
                None => {
                    return None;
                },
            },
            None => {
                return None;
            },
        };
        let diff = if center >= channel {
            center - channel
        } else {
            channel - center
        };
        if diff != d || 2 * channel < center {
            return None;
        }
        Self::ht40_channel(center, 2 * channel - center)
    }

    /// The 20 MHz channel without HT at `channel`, if the index is known.
    pub fn mhz20_channel(channel: u32) -> (r: Option<NL80211Channel>)
        ensures
            r == if band_of_idx(channel) is Some {
                Some(NL80211Channel::Channel20NoHT { channel })
            } else {
                None::<NL80211Channel>
            },
    {
        match Self::channel_idx_to_band(channel) {
            Some(_) => Some(NL80211Channel::Channel20NoHT { channel }),
            None => None,
        }
    }

    /// The HT20 channel at `channel`, if the index is known.
    pub fn ht20_channel(channel: u32) -> (r: Option<NL80211Channel>)
        ensures
            r == if band_of_idx(channel) is Some {
                Some(NL80211Channel::ChannelHT20 { channel })
            } else {
                None::<NL80211Channel>
            },
    {
        match Self::channel_idx_to_band(channel) {
            Some(_) => Some(NL80211Channel::ChannelHT20 { channel }),
            None => None,
        }
    }

    /// The HT40 channel on the pair, if the pair is a valid one.
    pub fn ht40_channel(main_channel: u32, aux_channel: u32) -> (r: Option<NL80211Channel>)
        ensures
            r == if ht40_valid(main_channel, aux_channel) {
                Some(NL80211Channel::ChannelHT40 { main_channel, aux_channel })
            } else {
                None::<NL80211Channel>
            },
    {
        let diff = if main_channel >= aux_channel {
            main_channel - aux_channel
        } else {
            aux_channel - main_channel
        };
        if diff != 4 {
            return None;
        }
        let main_band = match Self::channel_idx_to_band(main_channel) {
            Some(b) => b,
            None => {
                return None;
            },
        };
        let aux_band = match Self::channel_idx_to_band(aux_channel) {
            Some(b) => b,
            None => {
                return None;
            },
        };
        if main_band != aux_band {
            return None;
        }
        if main_band == NL80211ChannelBand::Band5Ghz && (main_channel % 4 != 0 || aux_channel % 4
            != 0) {
            return None;
        }
        Some(NL80211Channel::ChannelHT40 { main_channel, aux_channel })
    }

    /// The VHT80 channel on the pair, if the pair is a valid one.
    pub fn vht80_channel(main_channel: u32, aux_channel: u32) -> (r: Option<NL80211Channel>)
        ensures
            r == if vht80_valid(main_channel, aux_channel) {
                Some(NL80211Channel::ChannelVHT80 { main_channel, aux_channel })
            } else {
                None::<NL80211Channel>
            },
    {
        let diff = if main_channel >= aux_channel {
            main_channel - aux_channel
        } else {
            aux_channel - main_channel
        };
        if diff != 8 || Self::channel_idx_to_band(main_channel) != Some(
            NL80211ChannelBand::Band5Ghz,
        ) || Self::channel_idx_to_band(aux_channel) != Some(NL80211ChannelBand::Band5Ghz) {
            return None;
        }
        if (main_channel - 2) % 8 != 4 || (aux_channel - 2) % 8 != 4 {
            return None;
        }
        Some(NL80211Channel::ChannelVHT80 { main_channel, aux_channel })
    }

    /// The VHT160 channel on the pair, if the pair is a valid one.
    pub fn vht160_channel(main_channel: u32, aux_channel: u32) -> (r: Option<NL80211Channel>)
        ensures
            r == if vht160_valid(main_channel, aux_channel) {
                Some(NL80211Channel::ChannelVHT160 { main_channel, aux_channel })
            } else {
                None::<NL80211Channel>
            },
    {
        let diff = if main_channel >= aux_channel {
            main_channel - aux_channel
        } else {
            aux_channel - main_channel
        };
        if diff != 16 || Self::channel_idx_to_band(main_channel) != Some(
            NL80211ChannelBand::Band5Ghz,
        ) || Self::channel_idx_to_band(aux_channel) != Some(NL80211ChannelBand::Band5Ghz) {
            return None;
        }
        if main_channel % 16 != 10 || aux_channel % 16 != 10 {
            return None;
        }
        Some(NL80211Channel::ChannelVHT160 { main_channel, aux_channel })
    }

    /// Whether `idx` names a 20 MHz channel: 1 to 14, or a multiple of 4 from
    /// 32 to 144.
    pub fn is_valid_20mhz_channel_idx(idx: u32) -> (r: bool)
        ensures
            r == ((1 <= idx <= 14) || (32 <= idx <= 144 && idx % 4 == 0)),
    {
        if 1 <= idx && idx <= 14 {
            true
        } else if 32 <= idx && idx <= 144 {
            idx % 4 == 0
        } else {
            false
        }
    }

    pub fn channel_idx_to_band(idx: u32) -> (r: Option<NL80211ChannelBand>)
        ensures
            r == band_of_idx(idx),
    {
        if 1 <= idx && idx <= 14 {
            Some(NL80211ChannelBand::Band2400Mhz)
        } else if 32 <= idx && idx <= 144 {
            Some(NL80211ChannelBand::Band5Ghz)
        } else {
            None
        }
    }

    pub fn channel_idx_to_freq(idx: u32) -> (r: Option<u32>)
        ensures
            r == freq_of_idx(idx),
    {
        if 1 <= idx && idx <= 13 {
            Some(2412 + 5 * (idx - 1))
        } else if idx == 14 {
            Some(2484)
        } else if 32 <= idx && idx <= 144 {
            Some(5160 + 5 * (idx - 32))
        } else {
            None
        }
    }

    /// The channel index of a frequency in MHz. Only the 2.4 GHz channels
    /// are known by frequency.
    pub fn freq_to_channel_idx(freq: u32) -> (r: Option<u32>)
        ensures
            r == idx_of_freq(freq),
    {
        if 2412 <= freq && freq <= 2472 {
            if (freq - 2412) % 5 == 0 {
                Some(1 + (freq - 2412) / 5)
            } else {
                None
            }
        } else if freq == 2484 {
            Some(14)
        } else {
            None
        }
    }

    pub fn band(&self) -> (r: NL80211ChannelBand)
        requires
            self.valid(),
        ensures
            Some(r) == band_of_idx(self.main_idx()),
    {
        match Self::channel_idx_to_band(self.main_index()) {
            Some(b) => b,
            None => NL80211ChannelBand::Band2400Mhz,
        }
    }

    fn main_index(&self) -> (r: u32)
        ensures
            r == self.main_idx(),
    {
        match self {
            NL80211Channel::Channel20NoHT { channel } => *channel,
            NL80211Channel::ChannelHT20 { channel } => *channel,
            NL80211Channel::ChannelHT40 { main_channel, .. } => *main_channel,
            NL80211Channel::ChannelVHT80 { main_channel, .. } => *main_channel,
            NL80211Channel::ChannelVHT160 { main_channel, .. } => *main_channel,
        }
    }

    /// The center frequency of the channel in MHz.
    pub fn frequency(&self) -> (r: u32)
        requires
            self.valid(),
        ensures
            Some(r) == freq_of_idx(self.center_idx()),
    {
        let center = match self {
            NL80211Channel::Channel20NoHT { channel } => *channel,
            NL80211Channel::ChannelHT20 { channel } => *channel,
            NL80211Channel::ChannelHT40 { main_channel, aux_channel } => (*main_channel
                + *aux_channel) / 2,
            NL80211Channel::ChannelVHT80 { main_channel, aux_channel } => (*main_channel
                + *aux_channel) / 2,
            NL80211Channel::ChannelVHT160 { main_channel, aux_channel } => (*main_channel
                + *aux_channel) / 2,
        };
        match Self::channel_idx_to_freq(center) {
            Some(f) => f,
            None => 0,
        }
    }

    pub fn width(&self) -> (r: NL80211ChannelWidth)
        ensures
            r == self.width_spec(),
    {
        match self {
            NL80211Channel::Channel20NoHT { .. } => NL80211ChannelWidth::Mhz20NoHT,
            NL80211Channel::ChannelHT20 { .. } => NL80211ChannelWidth::Mhz20,
            NL80211Channel::ChannelHT40 { .. } => NL80211ChannelWidth::Mhz40,
            NL80211Channel::ChannelVHT80 { .. } => NL80211ChannelWidth::Mhz80,
            NL80211Channel::ChannelVHT160 { .. } => NL80211ChannelWidth::Mhz160,
        }
    }

    /// The frequencies in MHz that the channel covers.
    pub fn freq_range(&self) -> (r: RangeInclusive<u32>)
        requires
            self.valid(),
        ensures
            ({
                let f = freq_of_idx(self.center_idx())->0;
                let half = self.width_spec().bandwidth_spec() / 2;
                r@.start == f - half && r@.end == f + half && !r@.exhausted
            }),
    {
        let center_freq = self.frequency();
        let bandwidth = self.width().bandwidth();
        RangeInclusive::new(center_freq - bandwidth / 2, center_freq + bandwidth / 2)
    }

    /// The 20 MHz channel indices that the channel covers.
    pub fn channel_range(&self) -> (r: RangeInclusive<u32>)
        requires
            self.valid(),
        ensures
            !r@.exhausted,
            match *self {
                NL80211Channel::Channel20NoHT { channel } => r@.start == channel && r@.end
                    == channel,
                NL80211Channel::ChannelHT20 { channel } => r@.start == channel && r@.end
                    == channel,
                NL80211Channel::ChannelHT40 { main_channel: m, aux_channel: a } => r@.start
                    == if m <= a {
                    m
                } else {
                    a
                } && r@.end == if m <= a {
                    a
                } else {
                    m
                },
                NL80211Channel::ChannelVHT80 { main_channel: m, aux_channel: a } => r@.start
                    == (if m <= a {
                    m
                } else {
                    a
                }) - 2 && r@.end == (if m <= a {
                    a
                } else {
                    m
                }) + 2,
                NL80211Channel::ChannelVHT160 { main_channel: m, aux_channel: a } => r@.start
                    == (if m <= a {
                    m
                } else {
                    a
                }) - 6 && r@.end == (if m <= a {
                    a
                } else {
                    m
                }) + 6,
            },
    {
        match self {
            NL80211Channel::Channel20NoHT { channel } => RangeInclusive::new(*channel, *channel),
            NL80211Channel::ChannelHT20 { channel } => RangeInclusive::new(*channel, *channel),
            NL80211Channel::ChannelHT40 { main_channel, aux_channel } => {
                let lo = if *main_channel <= *aux_channel {
                    *main_channel
                } else {
                    *aux_channel
                };
                let hi = if *main_channel <= *aux_channel {
                    *aux_channel
                } else {
                    *main_channel
                };
                RangeInclusive::new(lo, hi)
            },
            NL80211Channel::ChannelVHT80 { main_channel, aux_channel } => {
                let lo = if *main_channel <= *aux_channel {
                    *main_channel
                } else {
                    *aux_channel
                };
                let hi = if *main_channel <= *aux_channel {
                    *aux_channel
                } else {
                    *main_channel
                };
                RangeInclusive::new(lo - 2, hi + 2)
            },
            NL80211Channel::ChannelVHT160 { main_channel, aux_channel } => {
                let lo = if *main_channel <= *aux_channel {
                    *main_channel
                } else {
                    *aux_channel
                };
                let hi = if *main_channel <= *aux_channel {
                    *aux_channel
                } else {
                    *main_channel
                };
                RangeInclusive::new(lo - 2 - 4, hi + 2 + 4)
            },
        }
    }

    /// The control frequency in MHz that the kernel is told to tune to: that
    /// of the main channel, or of the lowest 20 MHz channel of an 80 or
    /// 160 MHz one.
    pub fn nla_frequency(&self) -> (r: u32)
        requires
            self.valid(),
        ensures
            Some(r) == match *self {
                NL80211Channel::ChannelVHT80 { main_channel, .. } => freq_of_idx(
                    (main_channel - 2) as u32,
                ),
                NL80211Channel::ChannelVHT160 { main_channel, .. } => freq_of_idx(
                    (main_channel - 6) as u32,
                ),
                _ => freq_of_idx(self.main_idx()),
            },
    {
        let idx = match self {
            NL80211Channel::ChannelVHT80 { main_channel, .. } => *main_channel - 2,
            NL80211Channel::ChannelVHT160 { main_channel, .. } => *main_channel - 2 - 4,
            _ => self.main_index(),
        };
        match Self::channel_idx_to_freq(idx) {
            Some(f) => f,
            None => 0,
        }
    }
}

} // verus!
