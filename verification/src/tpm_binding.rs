//! Development binding to the platform's root of trust. This variant
//! simulates the hardware; a real binding is an extension point.

use vstd::prelude::*;
use vstd::string::StringExecFns;

verus! {

/// Failures of the root-of-trust binding.
#[derive(Debug, PartialEq, Eq)]
pub enum TpmError {
    /// The hardware cannot be found.
    HardwareNotFound,
    /// The hardware context reported the carried message.
    ContextError(String),
}

impl TpmError {
    /// A short human-readable rendering.
    pub fn message(&self) -> (r: String)
        ensures
            *self == TpmError::HardwareNotFound ==> r@ == "Hardware unavailable"@,
            *self matches TpmError::ContextError(m) ==> r@ == "TPM Error: "@ + m@,
    {
        match self {
            TpmError::HardwareNotFound => ("Hardware unavailable").to_owned(),
            TpmError::ContextError(m) => {
                let mut rendered = ("TPM Error: ").to_owned();
                rendered.append(m.as_str());
                rendered
            },
        }
    }
}

/// The simulated root-of-trust binding.
pub struct TpmBinding;

impl TpmBinding {
    pub fn new() -> (r: TpmBinding) {
        TpmBinding {}
    }

    /// The simulated hardware is always reachable.
    pub fn check_availability(&self) -> (r: bool)
        ensures
            r,
    {
        true
    }

    /// The node's stable identity fingerprint.
    pub fn get_node_fingerprint(&self) -> (r: String)
        ensures
            r@ == "MOCK_FINGERPRINT_DEV_001"@,
    {
        ("MOCK_FINGERPRINT_DEV_001").to_owned()
    }

    /// A simulated quote over the given nonce.
    pub fn generate_attestation_quote(&self, nonce: &str) -> (r: String)
        ensures
            r@ == "MOCK_QUOTE::"@ + nonce@ + "_SIGNED"@,
    {
        let mut quote = ("MOCK_QUOTE::").to_owned();
        quote.append(nonce);
        quote.append("_SIGNED");
        quote
    }
}

} // verus!
