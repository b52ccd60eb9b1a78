//! Known vulnerabilities of SBI implementations.
use vstd::prelude::*;
use crate::sbi_impl::open_sbi_id;

verus! {

/// The identifier of the OpenSBI PMU2 crash vulnerability.
pub const PMU2_CRASH_ID: &'static str = "CVE-2025-63913";

/// Whether the implementation `impl_id` at version `version` is exposed to
/// the PMU2 crash: OpenSBI from v1.3 through v1.6 (fixed in v1.7).
pub open spec fn spec_pmu2_crash(impl_id: int, version: int) -> bool {
    impl_id == 1 && 0x1_0003 <= version <= 0x1_0006
}

pub fn pmu2_crash(impl_id: usize, version: usize) -> (affected: bool)
    ensures
        affected <==> (impl_id == 1 && version >= 0x1_0003 && version <= 0x1_0006),
        affected == spec_pmu2_crash(impl_id as int, version as int),
{
    impl_id == open_sbi_id() && 0x1_0003 <= version && version <= 0x1_0006
}


/// Exactly the OpenSBI releases v1.3 through v1.6 are exposed: the version
/// `major << 16 | minor` of implementation 1 with major 1 and minor 3 to 6,
/// and no other implementation or version.
pub proof fn pmu2_crash_affects_opensbi_1_3_to_1_6(impl_id: int, version: int)
    ensures
        spec_pmu2_crash(impl_id, version) <==> (impl_id == 1 && version >= 0x1_0003 && version <= 0x1_0006),
        spec_pmu2_crash(impl_id, version) <==> (impl_id == 1 && version >= 0 && version / 0x1_0000 == 1 && 3
            <= version % 0x1_0000 <= 6),
{
}

} // verus!
