//! Turning container images into disks that boot as a MicroVM.

use vstd::prelude::*;

use crate::templates::Architecture;

pub mod accounts;
pub mod archive;
pub mod cache;
pub mod catalog;
pub mod choices;
pub mod kernel;
pub mod laws;
pub mod names;
pub mod order;
pub mod placed;
pub mod provision;
pub mod runtime;

verus! {

/// Why a path of the guest cannot be used.
#[derive(Debug)]
pub enum GuestPathViolation {
    /// More symbolic links were followed than allowed.
    SymlinkLoop { limit: usize },
    /// Something that is no directory stands where one is needed.
    NonDirectoryAncestor { ancestor: String },
}

/// What an import can fail at.
#[allow(inconsistent_fields)]
#[derive(Debug)]
pub enum ResolveError {
    /// A path of the guest cannot be used.
    GuestPathUnusable { path: String, reason: GuestPathViolation },
    /// A file operation on the guest's tree failed.
    GuestInjectionIo { operation: &'static str, path: String, source: String },
    /// The caller no longer waits for the tree.
    GuestInjectionCancelled { path: String },
    /// A file operation in the cache failed.
    CacheIo { operation: &'static str, path: String, source: String },
    /// A digest that this release pins is no digest.
    Malformed(String),
    /// Some bytes are not those that were pinned.
    DigestMismatch { subject: String, expected: String, actual: String },
    /// There is nowhere to have a kernel from.
    KernelUnavailable { architecture: Architecture, reason: String },
    /// A kernel could not be downloaded.
    KernelDownloadFailed { url: String, message: String },
    /// A package does not hold the kernel that it was made for.
    KernelPackageMemberMissing { package: String, member: String },
    /// A file operation on a kernel failed.
    KernelIo { operation: &'static str, path: String, source: String },
    /// A kernel is for another machine than this host.
    KernelArchitectureMismatch { path: String, found: Architecture, host: Architecture },
    /// A kernel is for a machine that no host can boot.
    UnsupportedKernelArchitecture { path: String, machine: u16 },
}

/// [`ResolveError`] as contracts speak of it.
pub enum Refusal {
    SymlinkLoop { path: Seq<char>, limit: nat },
    NonDirectoryAncestor { path: Seq<char>, ancestor: Seq<char> },
    InjectionIo { operation: Seq<char>, path: Seq<char>, source: Seq<char> },
    Cancelled { path: Seq<char> },
    CacheIo { operation: Seq<char>, path: Seq<char>, source: Seq<char> },
    Malformed(Seq<char>),
    DigestMismatch { subject: Seq<char>, expected: Seq<char>, actual: Seq<char> },
    KernelUnavailable { architecture: Architecture, reason: Seq<char> },
    KernelDownloadFailed { url: Seq<char>, message: Seq<char> },
    KernelPackageMemberMissing { package: Seq<char>, member: Seq<char> },
    KernelIo { operation: Seq<char>, path: Seq<char>, source: Seq<char> },
    KernelArchitectureMismatch { path: Seq<char>, found: Architecture, host: Architecture },
    UnsupportedKernelArchitecture { path: Seq<char>, machine: u16 },
}

impl View for ResolveError {
    type V = Refusal;

    open spec fn view(&self) -> Refusal {
        match self {
            ResolveError::GuestPathUnusable { path, reason } => match reason {
                GuestPathViolation::SymlinkLoop { limit } => Refusal::SymlinkLoop {
                    path: path@,
                    limit: *limit as nat,
                },
                GuestPathViolation::NonDirectoryAncestor { ancestor } => {
                    Refusal::NonDirectoryAncestor { path: path@, ancestor: ancestor@ }
                },
            },
            ResolveError::GuestInjectionIo { operation, path, source } => Refusal::InjectionIo {
                operation: operation@,
                path: path@,
                source: source@,
            },
            ResolveError::GuestInjectionCancelled { path } => Refusal::Cancelled { path: path@ },
            ResolveError::CacheIo { operation, path, source } => Refusal::CacheIo {
                operation: operation@,
                path: path@,
                source: source@,
            },
            ResolveError::Malformed(what) => Refusal::Malformed(what@),
            ResolveError::DigestMismatch { subject, expected, actual } => Refusal::DigestMismatch {
                subject: subject@,
                expected: expected@,
                actual: actual@,
            },
            ResolveError::KernelUnavailable { architecture, reason } => {
                Refusal::KernelUnavailable { architecture: *architecture, reason: reason@ }
            },
            ResolveError::KernelDownloadFailed { url, message } => Refusal::KernelDownloadFailed {
                url: url@,
                message: message@,
            },
            ResolveError::KernelPackageMemberMissing { package, member } => {
                Refusal::KernelPackageMemberMissing { package: package@, member: member@ }
            },
            ResolveError::KernelIo { operation, path, source } => Refusal::KernelIo {
                operation: operation@,
                path: path@,
                source: source@,
            },
            ResolveError::KernelArchitectureMismatch { path, found, host } => {
                Refusal::KernelArchitectureMismatch { path: path@, found: *found, host: *host }
            },
            ResolveError::UnsupportedKernelArchitecture { path, machine } => {
                Refusal::UnsupportedKernelArchitecture { path: path@, machine: *machine }
            },
        }
    }
}

} // verus!
