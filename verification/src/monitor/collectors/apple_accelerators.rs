//! Apple hardware accelerators: what is known of the Secure Enclave and of unified
//! memory, and how many accelerators are present.

use vstd::prelude::*;

verus! {

/// Information about Secure Enclave.
#[derive(Debug, Clone)]
pub struct SecureEnclaveInfo {
    /// Whether Secure Enclave is available.
    pub available: bool,
    /// Supported algorithm.
    pub algorithm: String,
}

impl Default for SecureEnclaveInfo {
    /// Not available, no algorithm.
    fn default() -> (i: Self)
        ensures
            !i.available,
            i.algorithm@ == Seq::<char>::empty(),
    {
        SecureEnclaveInfo { available: false, algorithm: String::new() }
    }
}

/// Information about Unified Memory Architecture.
#[derive(Debug, Clone, Copy, PartialEq, Eq, Structural)]
pub struct UmaInfo {
    /// Whether UMA is available.
    pub available: bool,
    /// Page size in bytes.
    pub page_size: usize,
}

impl Default for UmaInfo {
    /// Not available, page size 0.
    fn default() -> (i: Self)
        ensures
            !i.available,
            i.page_size == 0,
    {
        UmaInfo { available: false, page_size: 0 }
    }
}

/// 1 for a present accelerator, 0 otherwise.
pub open spec fn present(b: bool) -> int {
    if b {
        1
    } else {
        0
    }
}

/// The number of accelerators present among the Afterburner, the Neural Engine, the
/// Metal GPU, the Secure Enclave and unified memory.
pub fn available_count(
    afterburner: bool,
    neural_engine: bool,
    metal: bool,
    secure_enclave: bool,
    uma: bool,
) -> (n: u32)
    ensures
        n == present(afterburner) + present(neural_engine) + present(metal) + present(
            secure_enclave,
        ) + present(uma),
{
    let mut count: u32 = 0;
    if afterburner {
        count += 1;
    }
    if neural_engine {
        count += 1;
    }
    if metal {
        count += 1;
    }
    if secure_enclave {
        count += 1;
    }
    if uma {
        count += 1;
    }
    count
}

} // verus!
