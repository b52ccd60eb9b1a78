//! What the backend reports of the SBI environment, and how probing it fails.
use vstd::prelude::*;

pub mod dkms;

verus! {

/// The pair of registers an SBI call returns: its error code and its value.
#[derive(Clone, Copy, Debug, PartialEq, Eq, Structural)]
pub struct SbiCallResult {
    pub error: i64,
    pub value: u64,
}

/// One live FWFT sample: the Linux CPU it was taken on and the result of
/// the `GET` call for each standard feature, in the order of the feature table.
#[derive(Clone, Copy, Debug, PartialEq, Eq)]
pub struct FwftInformation {
    pub cpu: u32,
    pub results: [SbiCallResult; 6],
}

/// A live FWFT sample together with the SBI hart ID of the sampled CPU.
#[derive(Clone, Copy, Debug, PartialEq, Eq)]
pub struct FwftInfo {
    pub cpu: u32,
    pub hart_id: u64,
    pub results: [SbiCallResult; 6],
}

/// Everything the DKMS backend reports: the Base extension fields, the
/// machine identity registers, the probe result of every extension in the
/// order of the extension table, and one FWFT sample.
pub struct SbiInformation {
    pub spec_version: u64,
    pub impl_id: u64,
    pub impl_version: u64,
    pub mvendorid: u64,
    pub marchid: u64,
    pub mimpid: u64,
    pub extensions: [SbiCallResult; 25],
    pub fwft: FwftInformation,
}

/// The same report with the FWFT sample's hart ID, as the JSON schema has it.
pub struct SbiInfo {
    pub spec_version: u64,
    pub impl_id: u64,
    pub impl_version: u64,
    pub mvendorid: u64,
    pub marchid: u64,
    pub mimpid: u64,
    pub extensions: [SbiCallResult; 25],
    pub fwft: FwftInfo,
}

/// Why the backend could not report.
#[derive(Debug, PartialEq, Eq)]
pub enum ProbeError {
    /// The probe module is not loaded.
    ModuleNotLoaded,
    /// A parameter could not be read or did not hold what it should.
    Message(String),
}

/// Probes the SBI environment through the DKMS backend, from the texts of
/// its module parameters (`None` when the module is not loaded).
pub fn probe(texts: Option<dkms::ParameterTexts>) -> (r: Result<SbiInformation, ProbeError>)
    ensures
        dkms::probe_outcome(texts, r),
{
    dkms::probe(texts)
}

} // verus!
