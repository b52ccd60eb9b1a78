//! Names of the registered open-source RISC-V architecture IDs (`marchid`).
use vstd::prelude::*;

verus! {

/// The registered projects; the architecture ID of the project at index `i`
/// is `i + 1`.
pub const PROJECTS: [&'static str; 55] = [
    "Rocket",
    "BOOM",
    "CVA6",
    "CV32E40P",
    "Spike",
    "E-Class",
    "ORCA",
    "SCR1",
    "YARVI",
    "RVBS",
    "SweRV EH1",
    "MSCC",
    "BlackParrot",
    "BaseJump Manycore",
    "C-Class",
    "SweRV EL2",
    "SweRV EH2",
    "SERV",
    "NEORV32",
    "CV32E40X",
    "CV32E40S",
    "Ibex",
    "RudolV",
    "Steel Core",
    "XiangShan",
    "Hummingbirdv2 E203",
    "Hazard3",
    "CV32E41P",
    "Rift",
    "RISu064",
    "AIRISC",
    "Proteus",
    "VexRiscv",
    "Shuttle",
    "CV32E2",
    "Wally",
    "Boa32",
    "WIV64",
    "RV6",
    "ApogeoRV",
    "MicroRV32",
    "QEMU",
    "KianV",
    "Coreblocks",
    "rrv32",
    "VexiiRiscv",
    "Wildcat",
    "CVA5",
    "River",
    "Raptor",
    "Sargantana",
    "KianV Stealth",
    "RVController",
    "aRVern",
    "SARV",
];

/// The project registered under architecture ID `id`: IDs from 1 to 55 are
/// registered, every other ID is not.
pub open spec fn spec_project_name(id: int) -> Option<&'static str> {
    if 1 <= id <= 55 {
        Some(PROJECTS@[id - 1])
    } else {
        None
    }
}

/// The name of the project registered under architecture ID `id`, if any.
pub fn project_name(id: usize) -> (name: Option<&'static str>)
    ensures
        id >= 1 && id <= 55 ==> name == Some(PROJECTS@[id - 1]),
        id < 1 || id > 55 ==> name is None,
        name == spec_project_name(id as int),
{
    if id == 0 || id > 55 {
        return None;
    }
    let projects = PROJECTS;
    Some(projects[id - 1])
}


/// Every registered architecture ID names its project, and no other ID
/// names one: the IDs 1 to 55 name the entries of the table in order.
pub proof fn registered_ids_are_named(id: int)
    ensures
        id >= 1 && id <= 55 ==> spec_project_name(id) == Some(PROJECTS@[id - 1]),
        id < 1 || id > 55 ==> spec_project_name(id) is None,
{
}

} // verus!
