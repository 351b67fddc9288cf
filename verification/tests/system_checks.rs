use innomonitor::system_verification::{
    bundled_npcap_paths, dependency_search_paths, get_dependency_status_message, get_permission_instructions,
    is_comprehensive_monitoring_running, libpcap_search_paths, locate_libpcap, npcap_search_paths,
    test_basic_packet_capture, verify_libpcap_availability, verify_macos_permissions, verify_npcap_availability,
    verify_system_requirements, verify_system_requirements_windows, verify_windows_permissions, DependencyStatus,
};

#[test]
fn libpcap_is_looked_for_in_order() {
    let paths = libpcap_search_paths();
    assert_eq!(paths.len(), 7);
    let mut exists = vec![false; 7];
    assert_eq!(verify_libpcap_availability(&exists).unwrap_err(), "libpcap not found in any expected location");
    exists[5] = true;
    exists[6] = true;
    assert_eq!(verify_libpcap_availability(&exists).unwrap(), "libpcap found at: /usr/local/lib/libpcap.dylib");
    let deps = dependency_search_paths();
    assert_eq!(deps.len(), 6);
    assert_eq!(locate_libpcap(&vec![false, false, true, true, false, false]), Some("/usr/local/opt/libpcap/lib/libpcap.dylib"));
    assert_eq!(locate_libpcap(&vec![false; 6]), None);
}

#[test]
fn npcap_checks() {
    assert_eq!(bundled_npcap_paths().len(), 4);
    assert_eq!(npcap_search_paths()[2], "C:\\Program Files\\Npcap\\wpcap.dll");
    assert_eq!(verify_npcap_availability(&vec![true, false, true, false], &vec![false; 4]).unwrap(), "Bundled Npcap DLLs found (2 files)");
    assert_eq!(verify_npcap_availability(&vec![false; 4], &vec![false, true, true, false]).unwrap(),
        "System Npcap found at: C:\\Windows\\SysWOW64\\Npcap\\wpcap.dll");
    assert_eq!(verify_npcap_availability(&vec![], &vec![false; 4]).unwrap_err(), "Npcap not found. Please install from https://npcap.com/");
    assert!(verify_windows_permissions().is_ok());
}

#[test]
fn capture_and_permission_outcomes() {
    assert_eq!(test_basic_packet_capture(Ok(3)).unwrap(), "Found 3 network devices");
    assert_eq!(test_basic_packet_capture(Ok(0)).unwrap_err(), "No network devices found");
    assert_eq!(test_basic_packet_capture(Err("denied".to_string())).unwrap_err(), "Failed to list network devices: denied");
    assert_eq!(verify_macos_permissions(Ok((true, "crw-rw---- /dev/bpf0".to_string()))).unwrap(), "BPF devices accessible");
    assert_eq!(verify_macos_permissions(Ok((true, "".to_string()))).unwrap_err(), "No BPF devices found");
    assert_eq!(verify_macos_permissions(Ok((false, "bpf".to_string()))).unwrap_err(),
        "Cannot access BPF devices - may need elevated permissions");
    assert_eq!(verify_macos_permissions(Err("no ls".to_string())).unwrap_err(), "Failed to check BPF devices: no ls");
    let v = verify_system_requirements();
    assert_eq!(v.len(), 1);
    assert_eq!(v[0].name, "Platform Check");
}

#[test]
fn dependency_messages() {
    let full = DependencyStatus { libpcap_path: Some("/usr/lib/libpcap.dylib".to_string()), libpcap_version: Some("1.10.4".to_string()) };
    assert_eq!(get_dependency_status_message(Ok(full)), "✅ Dependencies OK - libpcap 1.10.4 found at /usr/lib/libpcap.dylib");
    let no_version = DependencyStatus { libpcap_path: Some("/p".to_string()), libpcap_version: None };
    assert_eq!(get_dependency_status_message(Ok(no_version)), "✅ Dependencies OK - libpcap found at /p");
    let missing = DependencyStatus { libpcap_path: None, libpcap_version: None };
    assert_eq!(get_dependency_status_message(Ok(missing)), "❌ Dependencies missing - run install-macos-deps.sh");
    assert_eq!(get_dependency_status_message(Err("boom".to_string())), "⚠️ Dependency check failed: boom");
    assert!(get_permission_instructions().starts_with("🚨 macOS Network Permission Required"));
    assert!(is_comprehensive_monitoring_running(&vec![false, true]));
    assert!(!is_comprehensive_monitoring_running(&vec![true]));
    assert!(!is_comprehensive_monitoring_running(&vec![false, false]));
}

#[test]
fn windows_requirements_list() {
    let v = verify_system_requirements_windows(Err("Npcap not found. Please install from https://npcap.com/".to_string()),
        test_basic_packet_capture(Ok(2)));
    assert_eq!(v.len(), 3);
    assert_eq!(v[0].name, "Npcap Library");
    assert!(v[0].outcome.is_err());
    assert_eq!(v[1].name, "Windows Permissions");
    assert_eq!(v[1].outcome.as_ref().unwrap(), "Windows packet capture permissions (admin privileges may be required)");
    assert_eq!(v[2].name, "Packet Capture Test");
    assert_eq!(v[2].outcome.as_ref().unwrap(), "Found 2 network devices");
}
