//! SBI implementation IDs: their names, and how each implementation
//! encodes its version.
use vstd::prelude::*;
use crate::number::{decimal, push_decimal};

verus! {

/// The implementation ID that `sbi_spec` assigns to the Berkeley Boot Loader.
#[verifier::external_body]
pub(crate) fn bbl_id() -> (id: usize)
    ensures
        id == 0,
{
    sbi_spec::base::impl_id::BBL
}

/// The implementation ID that `sbi_spec` assigns to OpenSBI.
#[verifier::external_body]
pub(crate) fn open_sbi_id() -> (id: usize)
    ensures
        id == 1,
{
    sbi_spec::base::impl_id::OPEN_SBI
}

/// The implementation ID that `sbi_spec` assigns to Xvisor.
#[verifier::external_body]
pub(crate) fn xvisor_id() -> (id: usize)
    ensures
        id == 2,
{
    sbi_spec::base::impl_id::XVISOR
}

/// The implementation ID that `sbi_spec` assigns to KVM.
#[verifier::external_body]
pub(crate) fn kvm_id() -> (id: usize)
    ensures
        id == 3,
{
    sbi_spec::base::impl_id::KVM
}

/// The implementation ID that `sbi_spec` assigns to RustSBI.
#[verifier::external_body]
pub(crate) fn rust_sbi_id() -> (id: usize)
    ensures
        id == 4,
{
    sbi_spec::base::impl_id::RUST_SBI
}

/// The implementation ID that `sbi_spec` assigns to Diosix.
#[verifier::external_body]
pub(crate) fn diosix_id() -> (id: usize)
    ensures
        id == 5,
{
    sbi_spec::base::impl_id::DIOSIX
}

/// The implementation ID that `sbi_spec` assigns to Coffer.
#[verifier::external_body]
pub(crate) fn coffer_id() -> (id: usize)
    ensures
        id == 6,
{
    sbi_spec::base::impl_id::COFFER
}

/// The implementation ID that `sbi_spec` assigns to the Xen Project.
#[verifier::external_body]
pub(crate) fn xen_id() -> (id: usize)
    ensures
        id == 7,
{
    sbi_spec::base::impl_id::XEN
}

/// The implementation ID that `sbi_spec` assigns to PolarFire Hart Software Services.
#[verifier::external_body]
pub(crate) fn polarfire_hss_id() -> (id: usize)
    ensures
        id == 8,
{
    sbi_spec::base::impl_id::POLARFIRE_HSS
}

/// The implementation ID that `sbi_spec` assigns to coreboot.
#[verifier::external_body]
pub(crate) fn coreboot_id() -> (id: usize)
    ensures
        id == 9,
{
    sbi_spec::base::impl_id::COREBOOT
}

/// The implementation ID that `sbi_spec` assigns to oreboot.
#[verifier::external_body]
pub(crate) fn oreboot_id() -> (id: usize)
    ensures
        id == 10,
{
    sbi_spec::base::impl_id::OREBOOT
}

/// The implementation ID of bhyve, which `sbi_spec` does not list.
pub const BHYVE_ID: usize = 11;

/// The name of the implementation with ID `id`; `unknown` for an ID that
/// is not registered.
pub open spec fn spec_name(id: int) -> &'static str {
    if id == 0 {
        "Berkeley Boot Loader (BBL)"
    } else if id == 1 {
        "OpenSBI"
    } else if id == 2 {
        "Xvisor"
    } else if id == 3 {
        "KVM"
    } else if id == 4 {
        "RustSBI"
    } else if id == 5 {
        "Diosix"
    } else if id == 6 {
        "Coffer"
    } else if id == 7 {
        "Xen Project"
    } else if id == 8 {
        "PolarFire Hart Software Services"
    } else if id == 9 {
        "coreboot"
    } else if id == 10 {
        "oreboot"
    } else if id == 11 {
        "bhyve"
    } else {
        "unknown"
    }
}

/// The name of the SBI implementation with ID `id`.
pub fn name(id: usize) -> (name: &'static str)
    ensures
        name == spec_name(id as int),
{
    if id == bbl_id() {
        "Berkeley Boot Loader (BBL)"
    } else if id == open_sbi_id() {
        "OpenSBI"
    } else if id == xvisor_id() {
        "Xvisor"
    } else if id == kvm_id() {
        "KVM"
    } else if id == rust_sbi_id() {
        "RustSBI"
    } else if id == diosix_id() {
        "Diosix"
    } else if id == coffer_id() {
        "Coffer"
    } else if id == xen_id() {
        "Xen Project"
    } else if id == polarfire_hss_id() {
        "PolarFire Hart Software Services"
    } else if id == coreboot_id() {
        "coreboot"
    } else if id == oreboot_id() {
        "oreboot"
    } else if id == BHYVE_ID {
        "bhyve"
    } else {
        "unknown"
    }
}

/// How the implementation with ID `id` encodes its version `raw`, when the
/// encoding is known: OpenSBI and PolarFire HSS as `major.minor` with the
/// major number above bit 16; KVM and RustSBI as `major.minor.patch` with
/// eight bits for each of minor and patch. Other encodings stay undecoded.
pub open spec fn spec_version(id: int, raw: usize) -> Option<Seq<char>> {
    if id == 1 || id == 8 {
        Some(decimal((raw >> 16usize) as nat) + "."@ + decimal((raw & 0xffffusize) as nat))
    } else if id == 3 || id == 4 {
        Some(
            decimal((raw >> 16usize) as nat) + "."@ + decimal(((raw >> 8usize) & 0xffusize) as nat)
                + "."@ + decimal((raw & 0xffusize) as nat),
        )
    } else {
        None
    }
}

/// The version `raw` of the implementation with ID `id`, decoded where the
/// implementation's encoding is known.
pub fn version(id: usize, raw: usize) -> (text: Option<String>)
    ensures
        match text {
            Some(t) => spec_version(id as int, raw) == Some(t@),
            None => spec_version(id as int, raw) is None,
        },
{
    if id == open_sbi_id() || id == polarfire_hss_id() {
        let mut text = String::new();
        push_decimal(&mut text, (raw >> 16usize) as u64);
        text.append(".");
        push_decimal(&mut text, (raw & 0xffffusize) as u64);
        assert(text@ =~= decimal((raw >> 16usize) as nat) + "."@ + decimal((raw & 0xffffusize) as nat));
        Some(text)
    } else if id == kvm_id() || id == rust_sbi_id() {
        let mut text = String::new();
        push_decimal(&mut text, (raw >> 16usize) as u64);
        text.append(".");
        push_decimal(&mut text, ((raw >> 8usize) & 0xffusize) as u64);
        text.append(".");
        push_decimal(&mut text, (raw & 0xffusize) as u64);
        assert(text@ =~= decimal((raw >> 16usize) as nat) + "."@ + decimal(((raw >> 8usize) & 0xffusize) as nat)
            + "."@ + decimal((raw & 0xffusize) as nat));
        Some(text)
    } else {
        None
    }
}

/// The SBI specification version that `raw` encodes, as `major.minor`: the
/// major number in bits 24 to 30, the minor number in bits 0 to 23.
pub open spec fn spec_specification_version(raw: usize) -> Seq<char> {
    decimal(((raw >> 24usize) & 0x7fusize) as nat) + "."@ + decimal((raw & 0xff_ffffusize) as nat)
}

/// Renders `raw` with `sbi_spec::base::Version::from_raw(raw).to_string()`.
/// Claimed, as the crate's source shows: the text is the major number
/// `(raw >> 24) & 0x7f`, a dot, and the minor number `raw & 0xffffff`, in
/// decimal.
#[verifier::external_body]
pub(crate) fn specification_version(raw: usize) -> (text: String)
    ensures
        text@ == spec_specification_version(raw),
{
    sbi_spec::base::Version::from_raw(raw).to_string()
}


/// The version `major.minor` of OpenSBI or PolarFire HSS, encoded as the
/// major number above bit 16 and the minor number below it, reads back as
/// `major.minor`.
pub proof fn major_minor_versions_read_back(id: int, major: usize, minor: usize)
    requires
        id == 1 || id == 8,
        major < 0x1_0000,
        minor < 0x1_0000,
    ensures
        spec_version(id, (major << 16usize) | minor) == Some(decimal(major as nat) + "."@ + decimal(minor as nat)),
{
    let raw = (major << 16usize) | minor;
    assert((raw >> 16usize) == major && (raw & 0xffffusize) == minor) by (bit_vector)
        requires
            major < 0x1_0000usize,
            minor < 0x1_0000usize,
            raw == (major << 16usize) | minor,
    ;
}

/// The version `major.minor.patch` of KVM or RustSBI, encoded as the major
/// number above bit 16 and eight bits each for the minor and patch numbers,
/// reads back as `major.minor.patch`.
pub proof fn major_minor_patch_versions_read_back(id: int, major: usize, minor: usize, patch: usize)
    requires
        id == 3 || id == 4,
        major < 0x1_0000,
        minor < 0x100,
        patch < 0x100,
    ensures
        spec_version(id, (major << 16usize) | (minor << 8usize) | patch) == Some(
            decimal(major as nat) + "."@ + decimal(minor as nat) + "."@ + decimal(patch as nat),
        ),
{
    let raw = (major << 16usize) | (minor << 8usize) | patch;
    assert((raw >> 16usize) == major && ((raw >> 8usize) & 0xffusize) == minor && (raw & 0xffusize) == patch)
        by (bit_vector)
        requires
            major < 0x1_0000usize,
            minor < 0x100usize,
            patch < 0x100usize,
            raw == (major << 16usize) | (minor << 8usize) | patch,
    ;
}

/// The SBI specification version `major.minor`, encoded as the major number
/// in bits 24 to 30 and the minor number in bits 0 to 23, reads back as
/// `major.minor`.
pub proof fn specification_versions_read_back(major: usize, minor: usize)
    requires
        major < 0x80,
        minor < 0x100_0000,
    ensures
        spec_specification_version((major << 24usize) | minor) == decimal(major as nat) + "."@ + decimal(minor as nat),
{
    let raw = (major << 24usize) | minor;
    assert(((raw >> 24usize) & 0x7fusize) == major && (raw & 0xff_ffffusize) == minor) by (bit_vector)
        requires
            major < 0x80usize,
            minor < 0x100_0000usize,
            raw == (major << 24usize) | minor,
    ;
}

} // verus!
