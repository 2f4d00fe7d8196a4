//! A wireless device as offered for the attack: a wiphy with its
//! interfaces, and whether it can sniff in monitor mode.
use vstd::prelude::*;

use crate::nl80211::{NL80211Interface, NL80211InterfaceType, NL80211Wiphy};

verus! {

pub struct Device {
    wiphy: NL80211Wiphy,
    interfaces: Vec<NL80211Interface>,
    supports_monitor_mode: bool,
}

impl Device {
    pub closed spec fn wiphy_spec(&self) -> NL80211Wiphy {
        self.wiphy
    }

    pub closed spec fn interfaces_spec(&self) -> Seq<NL80211Interface> {
        self.interfaces@
    }

    pub closed spec fn supports_monitor_mode_spec(&self) -> bool {
        self.supports_monitor_mode
    }

    /// The device of a wiphy and the interfaces on it; it supports monitor
    /// mode where the wiphy lists that interface type.
    pub fn from_wiphy(wiphy: NL80211Wiphy, interfaces: Vec<NL80211Interface>) -> (r: Device)
        ensures
            r.wiphy_spec() == wiphy,
            r.interfaces_spec() == interfaces@,
            r.supports_monitor_mode_spec() == wiphy.interface_types_spec().contains(
                NL80211InterfaceType::Monitor,
            ),
    {
        let types = wiphy.supported_interface_types();
        let mut found = false;
        let mut k: usize = 0;
        while k < types.len()
            invariant
                k <= types@.len(),
                types@ == wiphy.interface_types_spec(),
                found == (exists|m: int| 0 <= m < k && types@[m] == NL80211InterfaceType::Monitor),
            decreases types@.len() - k,
        {
            if types[k] == NL80211InterfaceType::Monitor {
                found = true;
            }
            k = k + 1;
        }
        proof {
            if found {
                let m = choose|m: int| 0 <= m < k && types@[m] == NL80211InterfaceType::Monitor;
                assert(types@.contains(types@[m]));
            }
        }
        Device { wiphy, interfaces, supports_monitor_mode: found }
    }

    pub fn name(&self) -> (r: &str)
        ensures
            r@ == self.wiphy_spec().name_spec(),
    {
        self.wiphy.name()
    }

    pub fn wiphy(&self) -> (r: &NL80211Wiphy)
        ensures
            *r == self.wiphy_spec(),
    {
        &self.wiphy
    }

    pub fn interfaces(&self) -> (r: &[NL80211Interface])
        ensures
            r@ == self.interfaces_spec(),
    {
        self.interfaces.as_slice()
    }

    pub fn supports_monitor_mode(&self) -> (r: bool)
        ensures
            r == self.supports_monitor_mode_spec(),
    {
        self.supports_monitor_mode
    }

    /// Whether the device can be used for the attack: it must sniff in
    /// monitor mode.
    pub fn is_suitable(&self) -> (r: bool)
        ensures
            r == self.supports_monitor_mode_spec(),
    {
        self.supports_monitor_mode
    }
}

} // verus!
