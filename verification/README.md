# aipervisor

The verified core of a static x86-64 hypervisor, written in Verus.

- `src/` is the library. Every function carries a `requires`/`ensures`
  contract that Verus proves:
  - `ept`: EPT init planning from the platform layout, mapping records,
    materialization of the four-level hierarchy, resolution of guest
    physical addresses, and the laws that tie them together.
  - `guest_abi`, `guest_boot`: the guest boot info blob (builder and
    parser, with a round-trip law), the relay measurement extension, and
    ELF64 parsing of guest images.
  - `observation`: CPUID snapshot decoding.
  - `pci_scan`: firmware PCI enumeration as a state machine that asks
    for one configuration read at a time.
  - `snapshot`: the planned platform layout and requirements, their
    fixed-capacity snapshots embedded in the hypervisor image, and the
    conversions both ways (with round-trip laws).
  - `gate_d`: Gate D datapath guests, matching launch records
    with launch plans, and accepting or refusing what the CPU seams report.
  - `boot_check`, `hypervisor_efi`, `loader`: error types, the snapshot's
    fixed-capacity strings, the UEFI page allocator's bookkeeping and the
    bounds of firmware memory reads.
- `app/` holds what touches the machine: the CPUID instruction, PCI port
  I/O, volatile physical reads, the firmware's page allocation call,
  copies into firmware pages and the chain-load of the hypervisor image;
  each access is admitted by the library first.
- `tests/` runs the library on concrete values.
