use llogin::wifi::{
    check_lpu_wifi, check_lpu_wifi_linux, check_lpu_wifi_macos, check_lpu_wifi_windows,
    check_wifi_airport, check_wifi_iw_link, check_wifi_iwconfig, check_wifi_networksetup,
    check_wifi_nmcli, current_platform, iw_interface, iw_step, networksetup_step,
    networksetup_wifi_device, IwStep, NetworkSetupStep, Platform, WifiCheck, WifiProbe,
};

fn some(s: &str) -> Option<String> {
    Some(s.to_string())
}

#[test]
fn linux_probes_run_in_order_until_one_tells() {
    assert_eq!(check_lpu_wifi_linux(&vec![]), WifiCheck::Run(WifiProbe::Nmcli));
    assert_eq!(check_lpu_wifi_linux(&vec![None]), WifiCheck::Run(WifiProbe::Iwconfig));
    assert_eq!(check_lpu_wifi_linux(&vec![None, None]), WifiCheck::Run(WifiProbe::Iw));
    assert_eq!(check_lpu_wifi_linux(&vec![None, Some(true)]), WifiCheck::Decided(true));
    assert_eq!(check_lpu_wifi_linux(&vec![Some(false)]), WifiCheck::Decided(false));
    assert_eq!(check_lpu_wifi_linux(&vec![None, None, Some(true)]), WifiCheck::Decided(true));
    // None of nmcli, iwconfig and iw could tell: /proc/net/wireless is read last.
    assert_eq!(
        check_lpu_wifi_linux(&vec![None, None, None]),
        WifiCheck::Run(WifiProbe::ProcWireless)
    );
    assert_eq!(
        check_lpu_wifi_linux(&vec![None, None, None, Some(true)]),
        WifiCheck::Decided(true)
    );
    assert_eq!(
        check_lpu_wifi_linux(&vec![None, None, None, Some(false)]),
        WifiCheck::Decided(false)
    );
}

#[test]
fn verdict_stands_whatever_follows() {
    assert_eq!(
        check_lpu_wifi(Platform::Linux, &vec![Some(false), Some(true)]),
        WifiCheck::Decided(false)
    );
}

#[test]
fn macos_and_windows_orders() {
    assert_eq!(check_lpu_wifi_macos(&vec![]), WifiCheck::Run(WifiProbe::Airport));
    assert_eq!(check_lpu_wifi_macos(&vec![None]), WifiCheck::Run(WifiProbe::NetworkSetup));
    assert_eq!(check_lpu_wifi_macos(&vec![None, None]), WifiCheck::Decided(false));
    assert_eq!(check_lpu_wifi(Platform::Windows, &vec![]), WifiCheck::Run(WifiProbe::Netsh));
}

#[test]
fn nmcli_output() {
    assert_eq!(check_wifi_nmcli(None), None);
    assert_eq!(check_wifi_nmcli(some("no:Home\nyes:LPU-Hostel\n")), Some(true));
    assert_eq!(check_wifi_nmcli(some("yes:Block-34\n")), Some(true));
    assert_eq!(check_wifi_nmcli(some("no:LPU\nyes:Home\n")), Some(false));
    assert_eq!(check_wifi_nmcli(some("")), Some(false));
}

#[test]
fn iwconfig_output() {
    assert_eq!(
        check_wifi_iwconfig(some("wlan0     IEEE 802.11  ESSID:\"LPU-Wireless\"\n")),
        Some(true)
    );
    assert_eq!(check_wifi_iwconfig(some("wlan0  ESSID:\"Home\"\n")), Some(false));
    assert_eq!(check_wifi_iwconfig(some("LPU \"LPU\"\n")), Some(false));
    assert_eq!(check_wifi_iwconfig(some("wlan0  ESSID:\"MyLPU\"\n")), Some(false));
    assert_eq!(check_wifi_iwconfig(some("wlan0  ESSID:\"Home\"  Nickname:\"LPU\"\n")), Some(false));
    assert_eq!(check_wifi_iwconfig(None), None);
}

#[test]
fn iw_output() {
    let dev = "phy#0\n\tInterface wlp2s0\n\t\tifindex 3\n";
    assert_eq!(iw_interface(some(dev)), Some("wlp2s0".to_string()));
    assert_eq!(iw_interface(some("phy#0\n")), None);
    assert_eq!(iw_interface(None), None);
    assert_eq!(check_wifi_iw_link(some("Connected to aa:bb\n\tSSID: Block 12\n")), Some(true));
    assert_eq!(check_wifi_iw_link(some("Not connected.\n")), Some(false));
    assert_eq!(check_wifi_iw_link(some("\tSSID: MyLPU\n")), Some(false));
    assert_eq!(check_wifi_iw_link(None), None);
}

#[test]
fn netsh_output() {
    assert!(check_lpu_wifi_windows(some("    SSID                   : LPU\r\n")));
    assert!(!check_lpu_wifi_windows(some("    SSID                   : Home\r\n")));
    assert!(!check_lpu_wifi_windows(some("    SSID                   : MyLPU\r\n")));
    assert!(!check_lpu_wifi_windows(some("    Description            : LPU adapter\r\n")));
    assert!(check_lpu_wifi_windows(some(
        "    Name                   : Wi-Fi\r\n    BSSID                  : aa:bb\r\n    SSID                   : Block-5\r\n"
    )));
    assert!(!check_lpu_wifi_windows(None));
}

#[test]
fn airport_output() {
    let out = "     agrCtlRSSI: -50\n          BSSID: aa:bb\n           SSID: LPU-Hostel\n";
    assert_eq!(check_wifi_airport(some(out)), Some(true));
    assert_eq!(check_wifi_airport(some("           SSID: Home\n")), Some(false));
    assert_eq!(check_wifi_airport(some("nothing\n")), None);
    assert_eq!(check_wifi_airport(None), None);
}

#[test]
fn networksetup_output() {
    let ports = "Hardware Port: Ethernet\nDevice: en0\n\nHardware Port: Wi-Fi\nDevice: en1\n";
    assert_eq!(networksetup_wifi_device(some(ports)), Some("en1".to_string()));
    assert_eq!(networksetup_wifi_device(some("Hardware Port: Wi-Fi\n")), None);
    assert!(check_wifi_networksetup(some("Current Wi-Fi Network: Block-2\n")));
    assert!(!check_wifi_networksetup(some("Current Wi-Fi Network: Home\n")));
    assert!(!check_wifi_networksetup(some("Current Wi-Fi Network: MyLPU\n")));
    assert!(check_wifi_networksetup(some("Current AirPort Network: LPU-Hostel\n")));
    assert!(!check_wifi_networksetup(None));
}

#[test]
fn platform_and_tool_steps() {
    assert_eq!(current_platform(true, false), Platform::Windows);
    assert_eq!(current_platform(false, true), Platform::MacOs);
    assert_eq!(current_platform(false, false), Platform::Linux);
    assert!(matches!(iw_step(some("\tInterface wlan0\n")), IwStep::AskLink(ref i) if i == "wlan0"));
    assert!(matches!(iw_step(some("phy#0\n")), IwStep::NoVerdict));
    assert!(matches!(iw_step(None), IwStep::NoVerdict));
    assert!(matches!(
        networksetup_step(some("Hardware Port: Wi-Fi\nDevice: en0\n")),
        NetworkSetupStep::AskNetwork(ref d) if d == "en0"
    ));
    assert!(matches!(networksetup_step(some("Hardware Port: Ethernet\nDevice: en0\n")), NetworkSetupStep::NotConnected));
    assert!(matches!(networksetup_step(None), NetworkSetupStep::NotConnected));
}
