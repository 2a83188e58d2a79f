use nac::agent::compliance::run_checks;
use nac::agent::platform::{
    collect_primary_mac, linux_mac, macos_primary_mac, stored_device_id, system_info, windows_os_info,
    windows_primary_mac,
};
use nac::agent::software::{
    bluetooth_enabled, collect_installed_software, folder_sharing_enabled, macos_bluetooth, macos_sharing,
    macos_usb_storage, parse_dpkg_status, parse_rpm_list, powershell_true, usb_storage_enabled,
};

#[test]
fn test_run_checks_returns_report() {
    let report = run_checks("linux", None, None, None);
    let os_check = report.checks.iter().find(|c| c.name == "os_supported");
    assert!(os_check.is_some());
    assert!(os_check.unwrap().passed);
}

#[test]
fn compliance_details() {
    let report = run_checks("linux", Some("alice"), None, Some("TRUE"));
    assert!(report.is_compliant);
    assert_eq!(report.checks[0].detail, "OS: linux");
    assert_eq!(report.checks[1].detail, "non-root");
    assert_eq!(report.checks[2].detail, "enabled");
    let root = run_checks("freebsd", None, Some("root"), Some("0"));
    assert!(!root.is_compliant);
    assert!(!root.checks[0].passed);
    assert_eq!(root.checks[1].detail, "running as root");
    assert_eq!(root.checks[2].detail, "not confirmed");
}

const DPKG: &str = "Package: bash\nStatus: install ok installed\nVersion: 5.2-1 \n\nPackage: gone\nStatus: deinstall ok config-files\nVersion: 1\n\nPackage: vim\nVersion: 9.0\nStatus: install ok installed\n";

#[test]
fn dpkg_status_lists_installed_packages() {
    let pkgs = parse_dpkg_status(DPKG);
    assert_eq!(pkgs.len(), 1);
    assert_eq!(pkgs[0].name, "bash");
    assert_eq!(pkgs[0].version, "5.2-1");
    let with_end = format!("{DPKG}\n");
    let pkgs2 = parse_dpkg_status(&with_end);
    assert_eq!(pkgs2.len(), 2);
    assert_eq!(pkgs2[1].name, "vim");
}

#[test]
fn rpm_listing() {
    let pkgs = parse_rpm_list("bash\t5.1\r\n\nkernel\n");
    assert_eq!(pkgs.len(), 2);
    assert_eq!(pkgs[0].version, "5.1");
    assert_eq!(pkgs[1].name, "kernel");
    assert_eq!(pkgs[1].version, "");
    let chosen = collect_installed_software(None, Some("a\t1\n"));
    assert_eq!(chosen.len(), 1);
    assert!(collect_installed_software(None, None).is_empty());
    assert_eq!(collect_installed_software(Some(""), Some("a\t1\n")).len(), 0);
}

#[test]
fn device_state_checks() {
    assert!(usb_storage_enabled(Some(vec![".".into(), "1-1:1.0".into()])));
    assert!(!usb_storage_enabled(Some(vec![".hidden".into()])));
    assert!(!usb_storage_enabled(None));
    assert!(bluetooth_enabled(Some(vec!["hci0".into()])));
    assert!(folder_sharing_enabled(vec![None, Some("bash\n".into()), Some("smbd\n".into())]));
    assert!(!folder_sharing_enabled(vec![Some("nfsdx".into())]));
    assert!(powershell_true(" True\r\n"));
    assert!(!powershell_true("False"));
    assert!(macos_usb_storage("USB: Mass Storage Device"));
    assert!(macos_bluetooth("Bluetooth Power: On"));
    assert!(!macos_sharing("Disabled = 1;"));
}

#[test]
fn primary_mac_sources() {
    assert_eq!(linux_mac("aa:bb:cc:dd:ee:ff\n"), Some("aa:bb:cc:dd:ee:ff".to_string()));
    assert_eq!(linux_mac("00:00:00:00:00:00"), None);
    assert_eq!(
        collect_primary_mac(vec![None, Some("00:00:00:00:00:00\n".into()), Some("02:42:ac:11:00:02\n".into())]),
        "02:42:ac:11:00:02"
    );
    assert_eq!(collect_primary_mac(vec![]), "");
    assert_eq!(
        windows_primary_mac("\"00-00-00-00-00-00\",\"x\"\r\n\"AA-BB-CC-DD-EE-FF\",\"\\Device\\Tcpip_{X}\"\r\n"),
        "aa:bb:cc:dd:ee:ff"
    );
    assert_eq!(
        macos_primary_mac("Hardware Port: Wi-Fi\nDevice: en0\nEthernet Address: A4:83:E7:00:11:22\n"),
        "a4:83:e7:00:11:22"
    );
}

#[test]
fn host_information() {
    assert_eq!(
        windows_os_info("Microsoft Windows 11 Pro|10.0.22631\r\n"),
        ("Windows 11 Pro".to_string(), "10.0.22631".to_string())
    );
    assert_eq!(windows_os_info("garbage"), ("Windows".to_string(), String::new()));
    let info = system_info(None, None, Some(2048 * 1024), "Linux".into(), "6.1".into(), "0.1.0".into(), String::new());
    assert_eq!(info.hostname, "unknown");
    assert_eq!(info.cpu_cores, 1);
    assert_eq!(info.mem_total_mb, 2048);
    assert_eq!(stored_device_id(Some("  abc-123\n")), Some("abc-123".to_string()));
    assert_eq!(stored_device_id(Some(" \n")), None);
    assert_eq!(stored_device_id(None), None);
}

#[test]
fn test_collect_system_info() {
    let info = system_info(
        sys_info::hostname().ok(),
        sys_info::cpu_num().ok(),
        sys_info::mem_info().ok().map(|m| m.total),
        sys_info::os_type().unwrap_or_else(|_| "unknown".to_string()),
        sys_info::os_release().unwrap_or_else(|_| "unknown".to_string()),
        "0.1.0".to_string(),
        String::new(),
    );
    assert!(!info.hostname.is_empty());
    assert!(!info.os_name.is_empty());
    assert!(info.cpu_cores >= 1);
}
