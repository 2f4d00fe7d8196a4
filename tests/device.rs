use wepcrack::device::Device;
use wepcrack::nl80211::{NL80211Interface, NL80211InterfaceType, NL80211Wiphy};

#[test]
fn device_with_monitor_support_is_suitable() {
    let wiphy = NL80211Wiphy::new(
        0,
        "phy0".to_string(),
        vec![NL80211InterfaceType::Station, NL80211InterfaceType::Monitor],
    );
    let iface = NL80211Interface::new(3, "wlan0".to_string(), NL80211InterfaceType::Station, [1, 2, 3, 4, 5, 6], 0);
    assert_eq!(iface.index(), 3);
    assert_eq!(iface.name(), "wlan0");
    assert_eq!(iface.interface_type(), NL80211InterfaceType::Station);
    assert_eq!(iface.mac_address(), &[1, 2, 3, 4, 5, 6]);
    assert_eq!(iface.wiphy(), 0);
    let dev = Device::from_wiphy(wiphy, vec![iface]);
    assert_eq!(dev.name(), "phy0");
    assert_eq!(dev.wiphy().index(), 0);
    assert_eq!(dev.wiphy().supported_interface_types().len(), 2);
    assert_eq!(dev.interfaces().len(), 1);
    assert!(dev.supports_monitor_mode());
    assert!(dev.is_suitable());
}

#[test]
fn device_without_monitor_support_is_not_suitable() {
    let wiphy = NL80211Wiphy::new(1, "phy1".to_string(), vec![NL80211InterfaceType::Ap]);
    let dev = Device::from_wiphy(wiphy, Vec::new());
    assert!(!dev.supports_monitor_mode());
    assert!(!dev.is_suitable());
}
