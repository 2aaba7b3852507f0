use balabol::adapters::{find_best_physical_interface_index, is_physical_adapter, NetworkAdapter};

fn adapter(if_type: u32, up: bool, description: &str, if_index: u32) -> NetworkAdapter {
    NetworkAdapter { if_type, oper_status: if up { 1 } else { 2 }, description: description.to_string(), if_index }
}

#[test]
fn test_find_physical_interface() {
    let adapters = vec![adapter(6, true, "Intel(R) Ethernet Connection", 12), adapter(71, true, "Intel Wi-Fi", 7)];
    let idx = find_best_physical_interface_index(&adapters);
    println!("Found physical interface index: {:?}", idx);
    assert!(idx.is_some(), "Should find a physical interface on Windows");
    assert_eq!(idx, Some(12));
    assert_eq!(find_best_physical_interface_index(&[]), None);
}

#[test]
fn vpn_adapters_are_skipped() {
    let adapters = vec![
        adapter(6, true, "WireGuard Tunnel", 3),
        adapter(6, false, "Intel Ethernet", 4),
        adapter(24, true, "Loopback", 1),
        adapter(71, true, "Intel Wi-Fi 6 AX201", 7),
        adapter(6, true, "Realtek PCIe", 9),
    ];
    assert_eq!(find_best_physical_interface_index(&adapters), Some(7));
    assert!(!is_physical_adapter(&adapter(6, true, "TAP-Windows Adapter V9", 2)));
    assert!(is_physical_adapter(&adapter(244, true, "Mobile Broadband", 2)));
    assert_eq!(find_best_physical_interface_index(&[adapter(6, true, "Ethernet", 0)]), None);
}
