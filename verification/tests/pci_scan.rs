//! Firmware PCI enumeration driven by simulated configuration space.

use aipervisor::pci_scan::{pci_config_address, PciBusScan, PciFunctionAddress, PciScanAction, MAX_PCI_DEVICES};

/// Runs a scan against `config`, returning the recorded functions and the
/// number of reads made.
fn run_scan(config: impl Fn(u8, u8, u8, u8) -> u32) -> (Vec<PciFunctionAddress>, usize) {
    let mut scan = PciBusScan::new();
    let mut reads = 0usize;
    loop {
        match scan.next_action() {
            PciScanAction::ReadConfig { bus, device, function, offset } => {
                reads += 1;
                scan.record(config(bus, device, function, offset));
            },
            PciScanAction::Finished => break,
        }
    }
    (scan.devices().clone(), reads)
}

fn addr(bus: u8, device: u8, function: u8) -> PciFunctionAddress {
    PciFunctionAddress { bus, device, function }
}

#[test]
fn config_address_exact_values() {
    assert_eq!(pci_config_address(0, 0, 0, 0), 0x8000_0000);
    assert_eq!(pci_config_address(1, 3, 2, 0x0C), 0x8001_1A0C);
    assert_eq!(pci_config_address(0xFF, 0xFF, 0xFF, 0xFF), 0x80FF_FFFC);
}

#[test]
fn scan_records_present_functions_and_stops_after_empty_bus() {
    let (devices, _) = run_scan(|bus, device, function, offset| match (bus, device, function, offset) {
        (0, 0, 0, 0) => 0x1237_8086,
        (0, 0, 0, 0x0C) => 0x0000_0000,
        (0, 3, 0, 0) => 0x100E_8086,
        (0, 3, 0, 0x0C) => 0x0080_0000,
        (0, 3, 2, 0) => 0x100F_8086,
        _ => 0xFFFF_FFFF,
    });
    assert_eq!(devices, vec![addr(0, 0, 0), addr(0, 3, 0), addr(0, 3, 2)]);
}

#[test]
fn scan_continues_across_populated_buses() {
    let (devices, _) = run_scan(|bus, device, function, offset| match (bus, device, function, offset) {
        (0, 1, 0, 0) | (1, 4, 0, 0) | (2, 31, 0, 0) => 0x0001_1AF4,
        (_, _, 0, 0x0C) => 0,
        _ => 0xFFFF_FFFF,
    });
    assert_eq!(devices, vec![addr(0, 1, 0), addr(1, 4, 0), addr(2, 31, 0)]);
}

#[test]
fn scan_of_empty_space_finishes_after_bus_zero() {
    let (devices, reads) = run_scan(|_, _, _, _| 0xFFFF_FFFF);
    assert!(devices.is_empty());
    assert_eq!(reads, 32);
}

#[test]
fn scan_caps_recorded_functions() {
    let (devices, _) = run_scan(|_, _, _, offset| if offset == 0x0C { 0x0080_0000 } else { 0x0001_8086 });
    assert_eq!(devices.len(), MAX_PCI_DEVICES);
    assert_eq!(devices[255], addr(0, 31, 7));
}

#[test]
fn single_function_device_probes_function_zero_only() {
    let (devices, reads) = run_scan(|bus, device, function, _| {
        if bus == 0 && device == 0 && function <= 1 { 0x0001_8086 } else { 0xFFFF_FFFF }
    });
    assert_eq!(devices, vec![addr(0, 0, 0)]);
    assert_eq!(reads, 32 + 2 + 32);
}
