//! Loader-side errors and the bounds of firmware physical memory reads.

use vstd::prelude::*;
use vstd::string::StringExecFns;

verus! {

/// Default UEFI memory map descriptor size used by OVMF on x86-64.
pub const DEFAULT_MEMORY_DESCRIPTOR_SIZE: usize = 48;

/// Maximum physical address readable during early boot (4 GiB).
pub const DEFAULT_MAX_PHYSICAL_ADDRESS: u64 = 0x1_0000_0000;

/// Kind of loader error.
#[derive(Debug, Clone, Copy, PartialEq, Eq, Structural)]
pub enum LoaderErrorKind {
    /// Boot info construction failed.
    BootInfo,
    /// Observation input assembly failed.
    Observation,
}

impl LoaderErrorKind {
    /// The human-readable name of this kind.
    pub open spec fn text(self) -> Seq<char> {
        match self {
            LoaderErrorKind::BootInfo => "loader boot info error"@,
            LoaderErrorKind::Observation => "loader observation error"@,
        }
    }

    /// Renders the kind as text.
    pub fn to_string(&self) -> (s: String)
        ensures
            s@ == self.text(),
    {
        match self {
            LoaderErrorKind::BootInfo => String::from_str("loader boot info error"),
            LoaderErrorKind::Observation => String::from_str("loader observation error"),
        }
    }
}

/// Structured loader error.
#[derive(Debug, Clone, PartialEq, Eq)]
pub struct LoaderError {
    /// Error category.
    pub kind: LoaderErrorKind,
    /// Human-readable message.
    pub message: String,
}

impl LoaderError {
    /// Creates a new loader error.
    pub fn new(kind: LoaderErrorKind, message: &str) -> (e: Self)
        ensures
            e.kind == kind,
            e.message@ == message@,
    {
        LoaderError { kind, message: String::from_str(message) }
    }

    /// The error text: `kind: message`.
    pub open spec fn text(self) -> Seq<char> {
        self.kind.text() + ": "@ + self.message@
    }

    /// Renders the error as `kind: message`.
    pub fn to_string(&self) -> (s: String)
        ensures
            s@ == self.text(),
    {
        let mut s = self.kind.to_string();
        s.append(": ");
        s.append(self.message.as_str());
        s
    }
}

/// Kind of UEFI loader error.
#[derive(Debug, Clone, Copy, PartialEq, Eq, Structural)]
pub enum LoaderEfiErrorKind {
    /// Loader handoff construction failed.
    Handoff,
}

impl LoaderEfiErrorKind {
    /// The human-readable name of this kind.
    pub open spec fn text(self) -> Seq<char> {
        match self {
            LoaderEfiErrorKind::Handoff => "uefi loader handoff error"@,
        }
    }

    /// Renders the kind as text.
    pub fn to_string(&self) -> (s: String)
        ensures
            s@ == self.text(),
    {
        match self {
            LoaderEfiErrorKind::Handoff => String::from_str("uefi loader handoff error"),
        }
    }
}

/// Structured UEFI loader error.
#[derive(Debug, Clone, PartialEq, Eq)]
pub struct LoaderEfiError {
    /// Error category.
    pub kind: LoaderEfiErrorKind,
    /// Human-readable message.
    pub message: String,
}

impl LoaderEfiError {
    /// Creates a new loader EFI error.
    pub fn new(kind: LoaderEfiErrorKind, message: &str) -> (e: Self)
        ensures
            e.kind == kind,
            e.message@ == message@,
    {
        LoaderEfiError { kind, message: String::from_str(message) }
    }

    /// Renders the error as `kind: message`.
    pub fn to_string(&self) -> (s: String)
        ensures
            s@ == self.kind.text() + ": "@ + self.message@,
    {
        let mut s = self.kind.to_string();
        s.append(": ");
        s.append(self.message.as_str());
        s
    }

    /// Reports a loader failure at the UEFI entry boundary: a handoff error
    /// whose message is the loader error's full text.
    pub fn from_loader_error(err: &LoaderError) -> (e: Self)
        ensures
            e.kind == LoaderEfiErrorKind::Handoff,
            e.message@ == err.text(),
    {
        LoaderEfiError { kind: LoaderEfiErrorKind::Handoff, message: err.to_string() }
    }
}

/// Kind of firmware memory read error.
#[derive(Debug, Clone, Copy, PartialEq, Eq, Structural)]
pub enum AcpiWalkErrorKind {
    /// An address computation overflowed.
    Bounds,
    /// The read falls outside readable memory.
    Memory,
}

/// Structured firmware memory read error.
#[derive(Debug, Clone, PartialEq, Eq)]
pub struct AcpiWalkError {
    /// Error category.
    pub kind: AcpiWalkErrorKind,
    /// Human-readable message.
    pub message: String,
}

/// Reads firmware physical memory through the identity-mapped low region.
#[derive(Debug, Clone, Copy, PartialEq, Eq, Structural)]
pub struct IdentityMappedPhysicalMemory {
    max_address: u64,
}

impl IdentityMappedPhysicalMemory {
    /// Creates a reader capped at `max_address`.
    pub fn new(max_address: u64) -> (m: Self)
        ensures
            m.limit() == max_address,
    {
        IdentityMappedPhysicalMemory { max_address }
    }

    /// The first address past the readable region.
    pub closed spec fn limit(self) -> u64 {
        self.max_address
    }

    /// Admits a read of `len` bytes at `physical_address`: the range must
    /// not wrap and must end at or below the readable limit.
    pub fn check_read(&self, physical_address: u64, len: usize) -> (r: Result<(), AcpiWalkError>)
        ensures
            r is Ok <==> physical_address + len <= self.limit(),
            r matches Err(e) ==> if physical_address + len > u64::MAX {
                e.kind == AcpiWalkErrorKind::Bounds && e.message@ == "physical read overflow"@
            } else {
                e.kind == AcpiWalkErrorKind::Memory && e.message@ == "physical read exceeds mapped region"@
            },
    {
        let end = match physical_address.checked_add(len as u64) {
            Some(end) => end,
            None => {
                return Err(AcpiWalkError {
                    kind: AcpiWalkErrorKind::Bounds,
                    message: String::from_str("physical read overflow"),
                });
            },
        };
        if end > self.max_address {
            return Err(AcpiWalkError {
                kind: AcpiWalkErrorKind::Memory,
                message: String::from_str("physical read exceeds mapped region"),
            });
        }
        Ok(())
    }
}

} // verus!
