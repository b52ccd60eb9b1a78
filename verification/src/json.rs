//! The locale-independent JSON report: what each of its fields holds. The
//! values of XLEN registers are kept exactly, as hexadecimal texts.
use vstd::prelude::*;
use crate::backend::{SbiCallResult, SbiInfo};
use crate::fwft::{features, spec_feature};
use crate::marchid::{project_name, spec_project_name};
use crate::mvendorid::{spec_vendor_name, vendor_name};
use crate::number::{prefixed_hex, to_prefixed_hex};
use crate::sbi_ext::{extension_keys_are_unique, selected, spec_extension, EXTENSION_COUNT, STANDARD_EXTENSION_COUNT};
use crate::sbi_impl::{self, spec_name, spec_specification_version, spec_version, specification_version};
use crate::vuln::{pmu2_crash, spec_pmu2_crash, PMU2_CRASH_ID};

verus! {

/// The version of the JSON schema.
pub const SCHEMA_VERSION: u8 = 1;

/// An XLEN register value, which the report shows as a hexadecimal text.
#[derive(Clone, Copy, Debug, PartialEq, Eq, Structural)]
pub struct HexValue(pub u64);

impl HexValue {
    /// The text that stands for the value in the report: `0x` and its
    /// hexadecimal digits.
    pub fn as_text(&self) -> (text: String)
        ensures
            text@ == prefixed_hex(self.0 as nat),
    {
        to_prefixed_hex(self.0)
    }
}

pub struct RawVersion {
    pub raw: HexValue,
    pub version: Option<String>,
}

pub struct ImplementationId {
    pub raw: HexValue,
    pub name: &'static str,
}

pub struct Implementation {
    pub id: ImplementationId,
    pub version: RawVersion,
}

pub struct NamedRaw {
    pub raw: HexValue,
    pub name: Option<&'static str>,
}

pub struct Raw {
    pub raw: HexValue,
}

pub struct Machine {
    pub vendor_id: NamedRaw,
    pub architecture_id: NamedRaw,
    pub implementation_id: Raw,
}

/// An SBI call's result as the report has it: the error code, and the
/// value as a hexadecimal text.
#[derive(Clone, Copy, Debug, PartialEq, Eq, Structural)]
pub struct CallResult {
    pub error: i64,
    pub value: HexValue,
}

impl From<&SbiCallResult> for CallResult {
    fn from(result: &SbiCallResult) -> (r: Self) {
        Self { error: result.error, value: HexValue(result.value) }
    }
}

impl vstd::std_specs::convert::FromSpecImpl<&SbiCallResult> for CallResult {
    open spec fn obeys_from_spec() -> bool {
        true
    }

    open spec fn from_spec(result: &SbiCallResult) -> Self {
        CallResult { error: result.error, value: HexValue(result.value) }
    }
}

/// A call result under the key of the extension or feature it belongs to.
pub struct KeyedResult {
    pub key: &'static str,
    pub result: CallResult,
}

pub struct Vulnerability {
    pub id: &'static str,
    pub affected: bool,
}

pub struct Vulnerabilities {
    pub pmu2_crash: Vulnerability,
}

pub struct FirmwareFeatures {
    pub linux_cpu_id: u32,
    pub sbi_hart_id: HexValue,
    pub features: Vec<KeyedResult>,
}

/// The whole report. The keyed results are in the order of their tables;
/// the keys are distinct, and the JSON object that holds them orders them
/// by key.
pub struct Output {
    pub schema_version: u8,
    pub sbi_specification: RawVersion,
    pub sbi_implementation: Implementation,
    pub machine: Machine,
    pub extensions: Vec<KeyedResult>,
    pub vulnerabilities: Vulnerabilities,
    pub firmware_features: FirmwareFeatures,
}

pub open spec fn call_result(result: SbiCallResult) -> CallResult {
    CallResult { error: result.error, value: HexValue(result.value) }
}

pub open spec fn option_view(text: Option<String>) -> Option<Seq<char>> {
    match text {
        Some(t) => Some(t@),
        None => None,
    }
}

pub open spec fn name_view(name: Option<&'static str>) -> Option<Seq<char>> {
    match name {
        Some(n) => Some(n@),
        None => None,
    }
}

/// The results of the selected extensions under their keys.
fn keyed_extensions(results: &[SbiCallResult; 25], legacy: bool) -> (keyed: Vec<KeyedResult>)
    ensures
        keyed.len() == if legacy { EXTENSION_COUNT } else { STANDARD_EXTENSION_COUNT },
        forall|i: int|
            #![trigger keyed@[i]]
            0 <= i < keyed.len() ==> keyed@[i].key == spec_extension(i).key
                && keyed@[i].result == call_result(results@[i]),
        forall|i: int, j: int|
            0 <= i < j < keyed.len() ==> #[trigger] keyed@[i].key@ != #[trigger] keyed@[j].key@,
{
    let chosen = selected(legacy);
    let mut keyed: Vec<KeyedResult> = Vec::new();
    let mut i: usize = 0;
    while i < chosen.len()
        invariant
            chosen.len() <= 25,
            i <= chosen.len(),
            keyed.len() == i,
            forall|j: int| 0 <= j < chosen.len() ==> #[trigger] chosen@[j] == spec_extension(j),
            forall|j: int|
                #![trigger keyed@[j]]
                0 <= j < i ==> keyed@[j].key == spec_extension(j).key
                    && keyed@[j].result == call_result(results@[j]),
        decreases chosen.len() - i,
    {
        let result = CallResult::from(&results[i]);
        keyed.push(KeyedResult { key: chosen[i].key, result });
        i = i + 1;
    }
    proof {
        extension_keys_are_unique();
    }
    keyed
}

/// The results of the features under their keys.
fn keyed_features(results: &[SbiCallResult; 6]) -> (keyed: Vec<KeyedResult>)
    ensures
        keyed.len() == 6,
        forall|i: int|
            #![trigger keyed@[i]]
            0 <= i < 6 ==> keyed@[i].key == spec_feature(i).key
                && keyed@[i].result == call_result(results@[i]),
{
    let table = features();
    let mut keyed: Vec<KeyedResult> = Vec::new();
    let mut k: usize = 0;
    while k < 6
        invariant
            k <= 6,
            keyed.len() == k,
            forall|j: int| 0 <= j < 6 ==> #[trigger] table@[j] == spec_feature(j),
            forall|j: int|
                #![trigger keyed@[j]]
                0 <= j < k ==> keyed@[j].key == spec_feature(j).key
                    && keyed@[j].result == call_result(results@[j]),
        decreases 6 - k,
    {
        let result = CallResult::from(&results[k]);
        keyed.push(KeyedResult { key: table[k].key, result });
        k = k + 1;
    }
    keyed
}

/// Builds the JSON report of `info`, with the legacy extensions when
/// `legacy` asks for them.
pub fn output(info: &SbiInfo, legacy: bool) -> (out: Output)
    ensures
        out.schema_version == SCHEMA_VERSION,
        out.sbi_specification.raw == HexValue(info.spec_version),
        option_view(out.sbi_specification.version) == Some(
            spec_specification_version(info.spec_version as usize),
        ),
        out.sbi_implementation.id.raw == HexValue(info.impl_id),
        out.sbi_implementation.id.name == spec_name((info.impl_id as usize) as int),
        out.sbi_implementation.version.raw == HexValue(info.impl_version),
        option_view(out.sbi_implementation.version.version) == spec_version(
            (info.impl_id as usize) as int,
            info.impl_version as usize,
        ),
        out.machine.vendor_id.raw == HexValue(info.mvendorid),
        name_view(out.machine.vendor_id.name) == spec_vendor_name(info.mvendorid as usize),
        out.machine.architecture_id.raw == HexValue(info.marchid),
        out.machine.architecture_id.name == spec_project_name((info.marchid as usize) as int),
        out.machine.implementation_id.raw == HexValue(info.mimpid),
        out.extensions.len() == if legacy { EXTENSION_COUNT } else { STANDARD_EXTENSION_COUNT },
        forall|i: int|
            #![trigger out.extensions@[i]]
            0 <= i < out.extensions.len() ==> out.extensions@[i].key == spec_extension(i).key
                && out.extensions@[i].result == call_result(info.extensions@[i]),
        forall|i: int, j: int|
            0 <= i < j < out.extensions.len() ==> #[trigger] out.extensions@[i].key@
                != #[trigger] out.extensions@[j].key@,
        out.vulnerabilities.pmu2_crash.id == PMU2_CRASH_ID,
        out.vulnerabilities.pmu2_crash.affected == spec_pmu2_crash(
            (info.impl_id as usize) as int,
            (info.impl_version as usize) as int,
        ),
        out.firmware_features.linux_cpu_id == info.fwft.cpu,
        out.firmware_features.sbi_hart_id == HexValue(info.fwft.hart_id),
        out.firmware_features.features.len() == 6,
        forall|i: int|
            #![trigger out.firmware_features.features@[i]]
            0 <= i < 6 ==> out.firmware_features.features@[i].key == spec_feature(i).key
                && out.firmware_features.features@[i].result == call_result(info.fwft.results@[i]),
{
    let impl_id = info.impl_id as usize;
    let impl_version = info.impl_version as usize;
    let extensions = keyed_extensions(&info.extensions, legacy);
    let feature_results = keyed_features(&info.fwft.results);
    let firmware_features = FirmwareFeatures {
        linux_cpu_id: info.fwft.cpu,
        sbi_hart_id: HexValue(info.fwft.hart_id),
        features: feature_results,
    };
    Output {
        schema_version: SCHEMA_VERSION,
        sbi_specification: RawVersion {
            raw: HexValue(info.spec_version),
            version: Some(specification_version(info.spec_version as usize)),
        },
        sbi_implementation: Implementation {
            id: ImplementationId { raw: HexValue(info.impl_id), name: sbi_impl::name(impl_id) },
            version: RawVersion {
                raw: HexValue(info.impl_version),
                version: sbi_impl::version(impl_id, impl_version),
            },
        },
        machine: Machine {
            vendor_id: NamedRaw {
                raw: HexValue(info.mvendorid),
                name: vendor_name(info.mvendorid as usize),
            },
            architecture_id: NamedRaw {
                raw: HexValue(info.marchid),
                name: project_name(info.marchid as usize),
            },
            implementation_id: Raw { raw: HexValue(info.mimpid) },
        },
        extensions,
        vulnerabilities: Vulnerabilities {
            pmu2_crash: Vulnerability { id: PMU2_CRASH_ID, affected: pmu2_crash(impl_id, impl_version) },
        },
        firmware_features,
    }
}

} // verus!
