use wepcrack::channel::{NL80211Channel, NL80211ChannelBand, NL80211ChannelWidth};

#[test]
fn channel_index_frequencies() {
    assert_eq!(NL80211Channel::channel_idx_to_freq(1), Some(2412));
    assert_eq!(NL80211Channel::channel_idx_to_freq(13), Some(2472));
    assert_eq!(NL80211Channel::channel_idx_to_freq(14), Some(2484));
    assert_eq!(NL80211Channel::channel_idx_to_freq(36), Some(5180));
    assert_eq!(NL80211Channel::channel_idx_to_freq(15), None);
    assert_eq!(NL80211Channel::freq_to_channel_idx(2437), Some(6));
    assert_eq!(NL80211Channel::freq_to_channel_idx(2484), Some(14));
    assert_eq!(NL80211Channel::freq_to_channel_idx(2413), None);
    assert_eq!(NL80211Channel::freq_to_channel_idx(5180), None);
}

#[test]
fn channel_bands() {
    assert_eq!(NL80211Channel::channel_idx_to_band(7), Some(NL80211ChannelBand::Band2400Mhz));
    assert_eq!(NL80211Channel::channel_idx_to_band(100), Some(NL80211ChannelBand::Band5Ghz));
    assert_eq!(NL80211Channel::channel_idx_to_band(0), None);
    assert!(NL80211Channel::is_valid_20mhz_channel_idx(14));
    assert!(NL80211Channel::is_valid_20mhz_channel_idx(36));
    assert!(!NL80211Channel::is_valid_20mhz_channel_idx(37));
    assert_eq!(NL80211ChannelBand::band_from_freq(2450), Some(NL80211ChannelBand::Band2400Mhz));
    assert_eq!(NL80211ChannelBand::band_from_freq(5500), Some(NL80211ChannelBand::Band5Ghz));
    assert_eq!(NL80211ChannelBand::band_from_freq(3000), None);
}

#[test]
fn channel_pairs() {
    assert_eq!(
        NL80211Channel::ht40_channel(1, 5),
        Some(NL80211Channel::ChannelHT40 { main_channel: 1, aux_channel: 5 })
    );
    assert!(NL80211Channel::ht40_channel(36, 40).is_some());
    assert!(NL80211Channel::ht40_channel(37, 41).is_none());
    assert!(NL80211Channel::ht40_channel(12, 16).is_none());
    assert!(NL80211Channel::vht80_channel(38, 46).is_some());
    assert!(NL80211Channel::vht80_channel(36, 44).is_none());
    assert!(NL80211Channel::vht160_channel(42, 58).is_some());
    assert!(NL80211Channel::vht160_channel(42, 50).is_none());
    assert_eq!(NL80211Channel::mhz20_channel(200), None);
    assert_eq!(
        NL80211Channel::ht20_channel(6),
        Some(NL80211Channel::ChannelHT20 { channel: 6 })
    );
}

#[test]
fn channel_geometry() {
    let ht40 = NL80211Channel::ChannelHT40 { main_channel: 36, aux_channel: 40 };
    assert_eq!(ht40.frequency(), 5190);
    assert_eq!(ht40.band(), NL80211ChannelBand::Band5Ghz);
    assert_eq!(ht40.width(), NL80211ChannelWidth::Mhz40);
    assert_eq!(ht40.width().bandwidth(), 40);
    assert_eq!(ht40.freq_range(), 5170..=5210);
    assert_eq!(ht40.channel_range(), 36..=40);
    assert_eq!(ht40.nla_frequency(), 5180);
    let vht80 = NL80211Channel::ChannelVHT80 { main_channel: 38, aux_channel: 46 };
    assert_eq!(vht80.nla_frequency(), 5180);
    assert_eq!(vht80.channel_range(), 36..=48);
    let vht160 = NL80211Channel::ChannelVHT160 { main_channel: 42, aux_channel: 58 };
    assert_eq!(vht160.channel_range(), 36..=64);
    assert_eq!(vht160.nla_frequency(), 5180);
    let ht20 = NL80211Channel::ChannelHT20 { channel: 6 };
    assert_eq!(ht20.freq_range(), 2427..=2447);
    assert_eq!(NL80211ChannelWidth::Mhz80P80.bandwidth(), 160);
}

#[test]
fn channel_from_kernel_description() {
    assert_eq!(
        NL80211Channel::new(2437, NL80211ChannelWidth::Mhz20NoHT, None, None),
        Some(NL80211Channel::Channel20NoHT { channel: 6 })
    );
    assert_eq!(
        NL80211Channel::new(2437, NL80211ChannelWidth::Mhz40, Some(2447), None),
        Some(NL80211Channel::ChannelHT40 { main_channel: 8, aux_channel: 4 })
    );
    assert_eq!(NL80211Channel::new(2437, NL80211ChannelWidth::Mhz40, None, None), None);
    assert_eq!(NL80211Channel::new(2412, NL80211ChannelWidth::Mhz40, Some(2422), None), None);
    assert_eq!(NL80211Channel::new(2437, NL80211ChannelWidth::Mhz80, Some(2457), None), None);
    assert_eq!(NL80211Channel::new(2437, NL80211ChannelWidth::Mhz5, None, None), None);
    assert_eq!(NL80211Channel::new(1000, NL80211ChannelWidth::Mhz20, None, None), None);
}

#[test]
fn all_channels_list() {
    let all = NL80211Channel::all_channels();
    assert_eq!(all.len(), 142);
    assert_eq!(all[0], NL80211Channel::Channel20NoHT { channel: 1 });
    assert_eq!(all[141], NL80211Channel::ChannelVHT160 { main_channel: 106, aux_channel: 122 });
    assert!(all.contains(&NL80211Channel::ChannelHT40 { main_channel: 140, aux_channel: 144 }));
    for c in &all {
        let rebuilt = match *c {
            NL80211Channel::Channel20NoHT { channel } => NL80211Channel::mhz20_channel(channel),
            NL80211Channel::ChannelHT20 { channel } => NL80211Channel::ht20_channel(channel),
            NL80211Channel::ChannelHT40 { main_channel, aux_channel } => {
                NL80211Channel::ht40_channel(main_channel, aux_channel)
            }
            NL80211Channel::ChannelVHT80 { main_channel, aux_channel } => {
                NL80211Channel::vht80_channel(main_channel, aux_channel)
            }
            NL80211Channel::ChannelVHT160 { main_channel, aux_channel } => {
                NL80211Channel::vht160_channel(main_channel, aux_channel)
            }
        };
        assert_eq!(rebuilt, Some(*c));
    }
}
