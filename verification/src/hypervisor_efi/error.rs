//! Hypervisor UEFI entry errors.

use vstd::prelude::*;
use vstd::string::StringExecFns;
use crate::boot_check::{BootCheckError, BootCheckErrorKind};

verus! {

/// Size in bytes of a SHA-256 configuration digest.
pub const SHA256_DIGEST_BYTES: usize = 32;

/// Kind of hypervisor UEFI verification error.
#[derive(Debug, Clone, Copy, PartialEq, Eq, Structural)]
pub enum HypervisorEfiErrorKind {
    /// Transfer blob parsing failed.
    Transfer,
    /// Boot info parsing or digest verification failed.
    BootInfo,
    /// Observation payload decoding failed.
    Observation,
    /// Embedded requirements snapshot mismatch.
    Requirements,
    /// Platform validation or bring-up failed.
    Platform,
}

impl HypervisorEfiErrorKind {
    /// The variant name, as the error text shows it.
    pub open spec fn name(self) -> Seq<char> {
        match self {
            HypervisorEfiErrorKind::Transfer => "Transfer"@,
            HypervisorEfiErrorKind::BootInfo => "BootInfo"@,
            HypervisorEfiErrorKind::Observation => "Observation"@,
            HypervisorEfiErrorKind::Requirements => "Requirements"@,
            HypervisorEfiErrorKind::Platform => "Platform"@,
        }
    }

    /// Renders the variant name.
    pub fn to_string(&self) -> (s: String)
        ensures
            s@ == self.name(),
    {
        match self {
            HypervisorEfiErrorKind::Transfer => String::from_str("Transfer"),
            HypervisorEfiErrorKind::BootInfo => String::from_str("BootInfo"),
            HypervisorEfiErrorKind::Observation => String::from_str("Observation"),
            HypervisorEfiErrorKind::Requirements => String::from_str("Requirements"),
            HypervisorEfiErrorKind::Platform => String::from_str("Platform"),
        }
    }
}

/// Structured hypervisor UEFI verification error.
#[derive(Debug, Clone, PartialEq, Eq)]
pub struct HypervisorEfiError {
    /// Error category.
    pub kind: HypervisorEfiErrorKind,
    /// Human-readable message.
    pub message: String,
}

impl HypervisorEfiError {
    /// Creates a new hypervisor EFI error.
    pub fn new(kind: HypervisorEfiErrorKind, message: &str) -> (e: Self)
        ensures
            e.kind == kind,
            e.message@ == message@,
    {
        HypervisorEfiError { kind, message: String::from_str(message) }
    }

    /// Renders the error as `Kind: message`.
    pub fn to_string(&self) -> (s: String)
        ensures
            s@ == self.kind.name() + ": "@ + self.message@,
    {
        let mut s = self.kind.to_string();
        s.append(": ");
        s.append(self.message.as_str());
        s
    }
}

/// The UEFI entry error kind that reports a boot check failure.
pub open spec fn efi_kind_for_boot_check(kind: BootCheckErrorKind) -> HypervisorEfiErrorKind {
    match kind {
        BootCheckErrorKind::BootAbi => HypervisorEfiErrorKind::BootInfo,
        BootCheckErrorKind::Observation => HypervisorEfiErrorKind::Observation,
        BootCheckErrorKind::Platform => HypervisorEfiErrorKind::Platform,
    }
}

impl From<BootCheckError> for HypervisorEfiError {
    fn from(err: BootCheckError) -> (e: Self) {
        let kind = match err.kind {
            BootCheckErrorKind::BootAbi => HypervisorEfiErrorKind::BootInfo,
            BootCheckErrorKind::Observation => HypervisorEfiErrorKind::Observation,
            BootCheckErrorKind::Platform => HypervisorEfiErrorKind::Platform,
        };
        HypervisorEfiError { kind, message: err.message }
    }
}

impl vstd::std_specs::convert::FromSpecImpl<BootCheckError> for HypervisorEfiError {
    open spec fn obeys_from_spec() -> bool {
        true
    }

    open spec fn from_spec(v: BootCheckError) -> HypervisorEfiError {
        HypervisorEfiError { kind: efi_kind_for_boot_check(v.kind), message: v.message }
    }
}

/// Checks that the requirements snapshot carries the configuration digest
/// the hypervisor image was built for.
pub fn check_requirements_digest(
    expected_config_digest: &[u8; SHA256_DIGEST_BYTES],
    snapshot_config_digest: &[u8; SHA256_DIGEST_BYTES],
) -> (r: Result<(), HypervisorEfiError>)
    ensures
        r is Ok <==> snapshot_config_digest@ == expected_config_digest@,
        r matches Err(e) ==> e.kind == HypervisorEfiErrorKind::Requirements
            && e.message@ == "requirements snapshot digest mismatch"@,
{
    let mut i: usize = 0;
    while i < SHA256_DIGEST_BYTES
        invariant
            i <= SHA256_DIGEST_BYTES,
            expected_config_digest@.len() == SHA256_DIGEST_BYTES,
            snapshot_config_digest@.len() == SHA256_DIGEST_BYTES,
            forall|j: int| 0 <= j < i ==> expected_config_digest@[j] == snapshot_config_digest@[j],
        decreases SHA256_DIGEST_BYTES - i,
    {
        if expected_config_digest[i] != snapshot_config_digest[i] {
            return Err(HypervisorEfiError::new(
                HypervisorEfiErrorKind::Requirements,
                "requirements snapshot digest mismatch",
            ));
        }
        i = i + 1;
    }
    assert(snapshot_config_digest@ =~= expected_config_digest@);
    Ok(())
}

} // verus!
