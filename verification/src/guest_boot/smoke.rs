//! Minimal smoke guest image for single-partition VMX launch bring-up.

use vstd::prelude::*;

verus! {

/// Serial marker emitted when the smoke guest runs (COM1 write in image).
pub const GUEST_SMOKE_RUNNING_MARKER: &'static str = "GUEST: smoke partition running";

/// Minimal freestanding guest code: write a marker prefix to COM1 and halt.
///
/// `mov rax, 'G'; mov rdx, 0x3F8; out dx, al; mov rax, '\n'; out dx, al; hlt`.
/// The image is placed at the guest entry physical address from static layout planning.
pub const GUEST_SMOKE_IMAGE: [u8; 24] = [
    0x48, 0xC7, 0xC0, 0x47, 0x00, 0x00, 0x00,
    0x48, 0xC7, 0xC2, 0xF8, 0x03, 0x00, 0x00,
    0xEE,
    0x48, 0xC7, 0xC0, 0x0A, 0x00, 0x00, 0x00,
    0xEE,
    0xF4,
];

} // verus!
