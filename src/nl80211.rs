//! The records that the kernel's nl80211 interface reports about wireless
//! hardware (a "wiphy") and its network interfaces.
use vstd::prelude::*;

verus! {

#[derive(Clone, Copy, Debug, PartialEq, Eq, Structural)]
pub enum NL80211InterfaceType {
    Unspecified,
    Adhoc,
    Station,
    Ap,
    ApVLAN,
    Wds,
    Monitor,
    MeshPoint,
    P2PClient,
    P2PGroupOwner,
    P2PDevice,
    Ocb,
    Nan,
}

pub type NL80211WiphyIndex = u32;

pub type NL80211InterfaceIndex = u32;

/// A piece of wireless hardware.
#[derive(Clone, Debug)]
pub struct NL80211Wiphy {
    index: NL80211WiphyIndex,
    name: String,
    supported_interface_types: Vec<NL80211InterfaceType>,
}

impl NL80211Wiphy {
    pub closed spec fn index_spec(&self) -> NL80211WiphyIndex {
        self.index
    }

    pub closed spec fn name_spec(&self) -> Seq<char> {
        self.name@
    }

    pub closed spec fn interface_types_spec(&self) -> Seq<NL80211InterfaceType> {
        self.supported_interface_types@
    }

    /// The record of a wiphy, as the kernel reports it.
    pub fn new(
        index: NL80211WiphyIndex,
        name: String,
        supported_interface_types: Vec<NL80211InterfaceType>,
    ) -> (r: NL80211Wiphy)
        ensures
            r.index_spec() == index,
            r.name_spec() == name@,
            r.interface_types_spec() == supported_interface_types@,
    {
        NL80211Wiphy { index, name, supported_interface_types }
    }

    pub fn index(&self) -> (r: NL80211WiphyIndex)
        ensures
            r == self.index_spec(),
    {
        self.index
    }

    pub fn name(&self) -> (r: &str)
        ensures
            r@ == self.name_spec(),
    {
        self.name.as_str()
    }

    pub fn supported_interface_types(&self) -> (r: &[NL80211InterfaceType])
        ensures
            r@ == self.interface_types_spec(),
    {
        self.supported_interface_types.as_slice()
    }
}

/// A network interface on a wiphy.
#[derive(Clone, Debug)]
pub struct NL80211Interface {
    index: NL80211InterfaceIndex,
    name: String,
    interface_type: NL80211InterfaceType,
    mac_address: [u8; 6],
    wiphy: NL80211WiphyIndex,
}

impl NL80211Interface {
    pub closed spec fn index_spec(&self) -> NL80211InterfaceIndex {
        self.index
    }

    pub closed spec fn name_spec(&self) -> Seq<char> {
        self.name@
    }

    pub closed spec fn interface_type_spec(&self) -> NL80211InterfaceType {
        self.interface_type
    }

    pub closed spec fn mac_address_spec(&self) -> Seq<u8> {
        self.mac_address@
    }

    pub closed spec fn wiphy_spec(&self) -> NL80211WiphyIndex {
        self.wiphy
    }

    /// The record of an interface, as the kernel reports it.
    pub fn new(
        index: NL80211InterfaceIndex,
        name: String,
        interface_type: NL80211InterfaceType,
        mac_address: [u8; 6],
        wiphy: NL80211WiphyIndex,
    ) -> (r: NL80211Interface)
        ensures
            r.index_spec() == index,
            r.name_spec() == name@,
            r.interface_type_spec() == interface_type,
            r.mac_address_spec() == mac_address@,
            r.wiphy_spec() == wiphy,
    {
        NL80211Interface { index, name, interface_type, mac_address, wiphy }
    }

    pub fn index(&self) -> (r: NL80211InterfaceIndex)
        ensures
            r == self.index_spec(),
    {
        self.index
    }

    pub fn name(&self) -> (r: &str)
        ensures
            r@ == self.name_spec(),
    {
        self.name.as_str()
    }

    pub fn interface_type(&self) -> (r: NL80211InterfaceType)
        ensures
            r == self.interface_type_spec(),
    {
        self.interface_type
    }

    pub fn mac_address(&self) -> (r: &[u8; 6])
        ensures
            r@ == self.mac_address_spec(),
    {
        &self.mac_address
    }

    pub fn wiphy(&self) -> (r: NL80211WiphyIndex)
        ensures
            r == self.wiphy_spec(),
    {
        self.wiphy
    }
}

} // verus!
