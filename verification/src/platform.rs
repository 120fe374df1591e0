//! The target platform, as the parts of the library that depend on it see it.

use vstd::prelude::*;

verus! {

/// Operating-system family the app runs on.
#[derive(Debug, Clone, Copy, PartialEq, Eq, Structural)]
pub enum Os {
    Windows,
    Macos,
    Linux,
    /// A Unix other than macOS and Linux (for example FreeBSD).
    OtherUnix,
}

/// Processor architecture the app runs on.
#[derive(Debug, Clone, Copy, PartialEq, Eq, Structural)]
pub enum Arch {
    X86_64,
    Aarch64,
    Other,
}

} // verus!
