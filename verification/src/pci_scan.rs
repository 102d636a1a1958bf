//! Firmware PCI enumeration as a state machine: the scan asks for one
//! configuration-space dword at a time and decides from each answer what
//! to read next, which functions to record, and when to stop.
//!
//! Buses are scanned from 0 upwards; the scan stops after the first bus on
//! which no device answers, after bus 255, or once 256 functions were
//! recorded. On each bus, devices 0 to 31 are probed through function 0;
//! a device whose header type marks it multi-function is probed on
//! functions 0 to 7, any other on function 0 only.

use vstd::prelude::*;

verus! {

/// Most PCI functions the scan records.
pub const MAX_PCI_DEVICES: usize = 256;

/// A PCI function on segment 0.
#[derive(Debug, Clone, Copy, PartialEq, Eq, Structural)]
pub struct PciFunctionAddress {
    /// Bus number.
    pub bus: u8,
    /// Device number (0 to 31).
    pub device: u8,
    /// Function number (0 to 7).
    pub function: u8,
}

/// What the scan needs next.
#[derive(Debug, Clone, Copy, PartialEq, Eq, Structural)]
pub enum PciScanAction {
    /// Read the configuration dword at `offset` of the given function.
    ReadConfig {
        /// Bus number.
        bus: u8,
        /// Device number.
        device: u8,
        /// Function number.
        function: u8,
        /// Dword-aligned register offset.
        offset: u8,
    },
    /// The scan is over.
    Finished,
}

/// Where the scan stands: which read it is waiting for.
#[derive(Debug, Clone, Copy, PartialEq, Eq, Structural)]
pub enum PciScanPhase {
    /// Waiting for the vendor/device dword of function 0 of a device.
    ReadHeader {
        /// Bus number.
        bus: u8,
        /// Device number.
        device: u8,
    },
    /// Waiting for the header-type dword of function 0 of a present device.
    ReadHeaderType {
        /// Bus number.
        bus: u8,
        /// Device number.
        device: u8,
    },
    /// Waiting for the vendor/device dword of one function of a present device.
    ReadFunction {
        /// Bus number.
        bus: u8,
        /// Device number.
        device: u8,
        /// Function number.
        function: u8,
        /// Last function probed on this device (0 or 7).
        max_function: u8,
    },
    /// The scan is over.
    Finished,
}

/// The configuration mechanism #1 address of a register: enable bit, bus,
/// device (5 bits), function (3 bits) and the dword-aligned offset.
pub open spec fn config_address(bus: u8, device: u8, function: u8, offset: u8) -> u32 {
    0x8000_0000u32 | ((bus as u32) << 16u32) | (((device & 0x1Fu8) as u32) << 11u32)
        | (((function & 0x7u8) as u32) << 8u32) | ((offset & 0xFCu8) as u32)
}

/// Computes the configuration mechanism #1 address written to port 0xCF8.
pub fn pci_config_address(bus: u8, device: u8, function: u8, offset: u8) -> (address: u32)
    ensures
        address == config_address(bus, device, function, offset),
{
    0x8000_0000u32 | ((bus as u32) << 16u32) | (((device & 0x1F) as u32) << 11u32)
        | (((function & 0x7) as u32) << 8u32) | ((offset & 0xFC) as u32)
}

/// A vendor/device dword names a function that answered (vendor not 0xFFFF).
pub open spec fn function_present(id: u32) -> bool {
    id & 0xFFFFu32 != 0xFFFFu32
}

/// The last function to probe on a device with header-type dword `dword`:
/// 7 when bit 7 of the header type (bits 23:16) marks it multi-function.
pub open spec fn last_function(dword: u32) -> u8 {
    if ((dword >> 16u32) & 0xFFu32) & 0x80u32 != 0 { 7 } else { 0 }
}

/// The read a phase waits for.
pub open spec fn phase_action(p: PciScanPhase) -> PciScanAction {
    match p {
        PciScanPhase::ReadHeader { bus, device } => PciScanAction::ReadConfig { bus, device, function: 0, offset: 0 },
        PciScanPhase::ReadHeaderType { bus, device } => PciScanAction::ReadConfig { bus, device, function: 0, offset: 0x0C },
        PciScanPhase::ReadFunction { bus, device, function, max_function: _ } =>
            PciScanAction::ReadConfig { bus, device, function, offset: 0 },
        PciScanPhase::Finished => PciScanAction::Finished,
    }
}

/// The phase after device `device` of `bus` is done, and whether the new
/// bus has a present device yet: the next device on the bus; after device
/// 31, the end of the scan when the bus had no device, enough functions
/// were recorded or the bus was the last, else device 0 of the next bus.
pub open spec fn after_device(bus: u8, device: u8, bus_present: bool, recorded: nat) -> (PciScanPhase, bool) {
    if device < 31 {
        (PciScanPhase::ReadHeader { bus, device: (device + 1) as u8 }, bus_present)
    } else if !bus_present || recorded >= MAX_PCI_DEVICES || bus == 255 {
        (PciScanPhase::Finished, bus_present)
    } else {
        (PciScanPhase::ReadHeader { bus: (bus + 1) as u8, device: 0 }, false)
    }
}

/// The scan state after answering the read `p` waits for with `value`:
/// (phase, whether the current bus has a present device, recorded functions).
pub open spec fn scan_step(
    p: PciScanPhase,
    bus_present: bool,
    found: Seq<PciFunctionAddress>,
    value: u32,
) -> (PciScanPhase, bool, Seq<PciFunctionAddress>) {
    match p {
        PciScanPhase::ReadHeader { bus, device } => if function_present(value) {
            (PciScanPhase::ReadHeaderType { bus, device }, true, found)
        } else {
            let (next, present) = after_device(bus, device, bus_present, found.len());
            (next, present, found)
        },
        PciScanPhase::ReadHeaderType { bus, device } =>
            (PciScanPhase::ReadFunction { bus, device, function: 0, max_function: last_function(value) }, bus_present, found),
        PciScanPhase::ReadFunction { bus, device, function, max_function } => {
            let recorded = if function_present(value) {
                found.push(PciFunctionAddress { bus, device, function })
            } else {
                found
            };
            if function_present(value) && recorded.len() >= MAX_PCI_DEVICES {
                (PciScanPhase::Finished, bus_present, recorded)
            } else if function < max_function {
                (PciScanPhase::ReadFunction { bus, device, function: (function + 1) as u8, max_function }, bus_present, recorded)
            } else {
                let (next, present) = after_device(bus, device, bus_present, recorded.len());
                (next, present, recorded)
            }
        },
        PciScanPhase::Finished => (PciScanPhase::Finished, bus_present, found),
    }
}

/// The bus/device/function order of an address.
pub open spec fn address_key(a: PciFunctionAddress) -> int {
    a.bus * 256 + a.device * 8 + a.function
}

/// The recorded functions are distinct, in bus/device/function order, and
/// at most `MAX_PCI_DEVICES` of them.
pub open spec fn found_ordered(found: Seq<PciFunctionAddress>) -> bool {
    &&& found.len() <= MAX_PCI_DEVICES
    &&& forall|i: int, j: int| 0 <= i < j < found.len() ==> address_key(#[trigger] found[i]) < address_key(#[trigger] found[j])
    &&& forall|i: int| 0 <= i < found.len() ==> (#[trigger] found[i]).device < 32 && found[i].function < 8
}

/// Reads left before the scan is over, at most: each answer moves the scan
/// forward through at most ten reads per device.
pub open spec fn reads_left(p: PciScanPhase) -> nat {
    match p {
        PciScanPhase::ReadHeader { bus, device } => (256 * 320 - (bus * 320 + device * 10)) as nat,
        PciScanPhase::ReadHeaderType { bus, device } => (256 * 320 - (bus * 320 + device * 10 + 1)) as nat,
        PciScanPhase::ReadFunction { bus, device, function, max_function: _ } =>
            (256 * 320 - (bus * 320 + device * 10 + 2 + function)) as nat,
        PciScanPhase::Finished => 0,
    }
}

/// A PCI enumeration in progress over the firmware's configuration space.
#[derive(Debug)]
pub struct PciBusScan {
    phase: PciScanPhase,
    bus_present: bool,
    found: Vec<PciFunctionAddress>,
}

/// The phase points at a device slot, and every recorded function comes
/// before it.
spec fn phase_well_formed(p: PciScanPhase, found: Seq<PciFunctionAddress>) -> bool {
    match p {
        PciScanPhase::ReadHeader { bus, device } => device < 32
            && forall|i: int| 0 <= i < found.len() ==> address_key(#[trigger] found[i]) < bus * 256 + device * 8,
        PciScanPhase::ReadHeaderType { bus, device } => device < 32
            && forall|i: int| 0 <= i < found.len() ==> address_key(#[trigger] found[i]) < bus * 256 + device * 8,
        PciScanPhase::ReadFunction { bus, device, function, max_function } => device < 32 && function <= max_function
            && max_function < 8
            && forall|i: int| 0 <= i < found.len() ==> address_key(#[trigger] found[i]) < bus * 256 + device * 8 + function,
        PciScanPhase::Finished => true,
    }
}

impl PciBusScan {
    /// The read the scan waits for.
    pub closed spec fn phase(&self) -> PciScanPhase {
        self.phase
    }

    /// Whether a device answered on the bus being scanned.
    pub closed spec fn bus_present(&self) -> bool {
        self.bus_present
    }

    /// The functions recorded so far, in the order found.
    pub closed spec fn found(&self) -> Seq<PciFunctionAddress> {
        self.found@
    }

    #[verifier::type_invariant]
    spec fn scan_inv(&self) -> bool {
        &&& found_ordered(self.found@)
        &&& phase_well_formed(self.phase, self.found@)
        &&& (self.phase !is Finished ==> self.found@.len() < MAX_PCI_DEVICES)
    }

    /// Starts a scan at device 0 of bus 0 with nothing recorded.
    pub fn new() -> (s: Self)
        ensures
            s.phase() == (PciScanPhase::ReadHeader { bus: 0, device: 0 }),
            !s.bus_present(),
            s.found() == Seq::<PciFunctionAddress>::empty(),
    {
        PciBusScan { phase: PciScanPhase::ReadHeader { bus: 0, device: 0 }, bus_present: false, found: Vec::new() }
    }

    /// The configuration read the scan needs next, or `Finished`.
    pub fn next_action(&self) -> (a: PciScanAction)
        ensures
            a == phase_action(self.phase()),
    {
        match self.phase {
            PciScanPhase::ReadHeader { bus, device } => PciScanAction::ReadConfig { bus, device, function: 0, offset: 0 },
            PciScanPhase::ReadHeaderType { bus, device } =>
                PciScanAction::ReadConfig { bus, device, function: 0, offset: 0x0C },
            PciScanPhase::ReadFunction { bus, device, function, max_function: _ } =>
                PciScanAction::ReadConfig { bus, device, function, offset: 0 },
            PciScanPhase::Finished => PciScanAction::Finished,
        }
    }

    /// The functions recorded so far.
    pub fn devices(&self) -> (d: &Vec<PciFunctionAddress>)
        ensures
            d@ == self.found(),
            found_ordered(d@),
    {
        proof {
            use_type_invariant(self);
        }
        &self.found
    }

    /// Records the answer to the read the scan waited for and moves on:
    /// the new state is `scan_step` of the old one. The recorded functions
    /// stay distinct, ordered and at most `MAX_PCI_DEVICES`, and the scan
    /// moves strictly forward.
    pub fn record(&mut self, value: u32)
        requires
            old(self).phase() !is Finished,
        ensures
            (final(self).phase(), final(self).bus_present(), final(self).found())
                == scan_step(old(self).phase(), old(self).bus_present(), old(self).found(), value),
            found_ordered(final(self).found()),
            reads_left(final(self).phase()) < reads_left(old(self).phase()),
    {
        proof {
            use_type_invariant(&*self);
        }
        let mut found: Vec<PciFunctionAddress> = Vec::new();
        std::mem::swap(&mut found, &mut self.found);
        let phase = self.phase;
        let bus_present = self.bus_present;
        let present = (value & 0xFFFF) != 0xFFFF;
        let (next, next_present) = match phase {
            PciScanPhase::ReadHeader { bus, device } => {
                if present {
                    (PciScanPhase::ReadHeaderType { bus, device }, true)
                } else {
                    next_device(bus, device, bus_present, found.len())
                }
            },
            PciScanPhase::ReadHeaderType { bus, device } => {
                let header_type = ((value >> 16u32) & 0xFF) as u8;
                let max_function: u8 = if header_type & 0x80 != 0 { 7 } else { 0 };
                proof {
                    assert((((value >> 16u32) & 0xFFu32) as u8) & 0x80u8 != 0
                        <==> ((value >> 16u32) & 0xFFu32) & 0x80u32 != 0) by (bit_vector);
                }
                (PciScanPhase::ReadFunction { bus, device, function: 0, max_function }, bus_present)
            },
            PciScanPhase::ReadFunction { bus, device, function, max_function } => {
                if present {
                    let ghost before = found@;
                    found.push(PciFunctionAddress { bus, device, function });
                    proof {
                        assert forall|i: int, j: int| 0 <= i < j < found@.len()
                            implies address_key(#[trigger] found@[i]) < address_key(#[trigger] found@[j]) by {
                            if j == before.len() {
                                assert(found@[i] == before[i]);
                            } else {
                                assert(found@[i] == before[i] && found@[j] == before[j]);
                            }
                        }
                        assert forall|i: int| 0 <= i < found@.len()
                            implies (#[trigger] found@[i]).device < 32 && found@[i].function < 8 by {
                            if i < before.len() {
                                assert(found@[i] == before[i]);
                            }
                        }
                    }
                }
                if present && found.len() >= MAX_PCI_DEVICES {
                    (PciScanPhase::Finished, bus_present)
                } else if function < max_function {
                    (PciScanPhase::ReadFunction { bus, device, function: function + 1, max_function }, bus_present)
                } else {
                    next_device(bus, device, bus_present, found.len())
                }
            },
            PciScanPhase::Finished => (PciScanPhase::Finished, bus_present),
        };
        *self = PciBusScan { phase: next, bus_present: next_present, found };
    }
}

/// The phase after device `device` of `bus`, as `after_device` says.
fn next_device(bus: u8, device: u8, bus_present: bool, recorded: usize) -> (r: (PciScanPhase, bool))
    requires
        device < 32,
    ensures
        r == after_device(bus, device, bus_present, recorded as nat),
{
    if device < 31 {
        (PciScanPhase::ReadHeader { bus, device: device + 1 }, bus_present)
    } else if !bus_present || recorded >= MAX_PCI_DEVICES || bus == 255 {
        (PciScanPhase::Finished, bus_present)
    } else {
        (PciScanPhase::ReadHeader { bus: bus + 1, device: 0 }, false)
    }
}

/// Configuration address law: the mechanism #1 address of a register is
/// 0x8000_0000 plus the bus times 0x1_0000, the device (mod 32) times
/// 0x800, the function (mod 8) times 0x100 and the offset rounded down to
/// a multiple of four.
pub proof fn lemma_config_address_fields(bus: u8, device: u8, function: u8, offset: u8)
    ensures
        config_address(bus, device, function, offset) as int == 0x8000_0000 + bus * 0x1_0000
            + (device % 32) * 0x800 + (function % 8) * 0x100 + (offset / 4) * 4,
{
    let (b, d, f, o) = (bus as u32, device as u32, function as u32, offset as u32);
    assert(b < 256 && d < 256 && f < 256 && o < 256 ==> 0x8000_0000u32 | (b << 16u32) | ((d & 0x1Fu32) << 11u32)
        | ((f & 0x7u32) << 8u32) | (o & 0xFCu32)
        == 0x8000_0000u32 + b * 0x1_0000u32 + (d % 32u32) * 0x800u32 + (f % 8u32) * 0x100u32 + (o / 4u32) * 4u32) by (bit_vector);
    assert((device & 0x1Fu8) as u32 == (device as u32) & 0x1Fu32) by (bit_vector);
    assert((function & 0x7u8) as u32 == (function as u32) & 0x7u32) by (bit_vector);
    assert((offset & 0xFCu8) as u32 == (offset as u32) & 0xFCu32) by (bit_vector);
}

/// Scan law: a read of a function's vendor/device dword records that
/// function exactly when its vendor id (the low 16 bits) is not 0xFFFF;
/// no other answer records anything. A present device's header-type dword
/// (offset 0x0C) decides its functions: all eight when bit 7 of the header
/// type byte (bit 23 of the dword) is set, else function 0 only.
pub proof fn lemma_scan_step_records(p: PciScanPhase, bus_present: bool, found: Seq<PciFunctionAddress>, value: u32)
    ensures
        scan_step(p, bus_present, found, value).2 == match p {
            PciScanPhase::ReadFunction { bus, device, function, max_function: _ } =>
                if value % 0x1_0000 != 0xFFFF { found.push(PciFunctionAddress { bus, device, function }) } else { found },
            _ => found,
        },
        match p {
            PciScanPhase::ReadHeader { bus, device } => value % 0x1_0000 != 0xFFFF
                ==> scan_step(p, bus_present, found, value).0 == (PciScanPhase::ReadHeaderType { bus, device }),
            PciScanPhase::ReadHeaderType { bus, device } => scan_step(p, bus_present, found, value).0
                == (PciScanPhase::ReadFunction { bus, device, function: 0, max_function: if (value / 0x80_0000) % 2 == 1 { 7u8 } else { 0u8 } }),
            _ => true,
        },
        phase_action(p) == match p {
            PciScanPhase::ReadHeader { bus, device } => PciScanAction::ReadConfig { bus, device, function: 0, offset: 0 },
            PciScanPhase::ReadHeaderType { bus, device } => PciScanAction::ReadConfig { bus, device, function: 0, offset: 0x0C },
            PciScanPhase::ReadFunction { bus, device, function, max_function: _ } =>
                PciScanAction::ReadConfig { bus, device, function, offset: 0 },
            PciScanPhase::Finished => PciScanAction::Finished,
        },
{
    assert((value & 0xFFFFu32 != 0xFFFFu32) == (value % 0x1_0000u32 != 0xFFFFu32)) by (bit_vector);
    assert((((value >> 16u32) & 0xFFu32) & 0x80u32 != 0) == ((value / 0x80_0000u32) % 2u32 == 1u32)) by (bit_vector);
}

} // verus!
