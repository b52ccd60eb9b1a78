use lssbi::driver::{classify_extension_probe, sbi_error_name, ExtensionProbeStatus};
use lssbi::backend::{FwftInfo, SbiCallResult, SbiInfo};
use lssbi::sbi_impl::name;
use lssbi::mvendorid::vendor_name;
use lssbi::sbi_impl::version;
use lssbi::vuln::pmu2_crash;
use sbi_spec::base::impl_id;

#[test]
fn classifies_extension_probe_results() {
    assert_eq!(
        classify_extension_probe(&SbiCallResult { error: 0, value: 0 }),
        ExtensionProbeStatus::NotSupported
    );
    assert_eq!(
        classify_extension_probe(&SbiCallResult { error: 0, value: 1 }),
        ExtensionProbeStatus::Supported
    );
    assert_eq!(
        classify_extension_probe(&SbiCallResult { error: 0, value: 2 }),
        ExtensionProbeStatus::SupportedWithValue(2)
    );
    assert_eq!(
        classify_extension_probe(&SbiCallResult {
            error: -4,
            value: 0,
        }),
        ExtensionProbeStatus::Error(-4)
    );
}

#[test]
fn names_standard_and_unknown_sbi_errors() {
    assert_eq!(sbi_error_name(-1), "SBI_ERR_FAILED");
    assert_eq!(sbi_error_name(-2), "SBI_ERR_NOT_SUPPORTED");
    assert_eq!(sbi_error_name(-3), "SBI_ERR_INVALID_PARAM");
    assert_eq!(sbi_error_name(-4), "SBI_ERR_DENIED");
    assert_eq!(sbi_error_name(-5), "SBI_ERR_INVALID_ADDRESS");
    assert_eq!(sbi_error_name(-6), "SBI_ERR_ALREADY_AVAILABLE");
    assert_eq!(sbi_error_name(-7), "SBI_ERR_ALREADY_STARTED");
    assert_eq!(sbi_error_name(-8), "SBI_ERR_ALREADY_STOPPED");
    assert_eq!(sbi_error_name(-9), "SBI_ERR_NO_SHMEM");
    assert_eq!(sbi_error_name(-10), "SBI_ERR_INVALID_STATE");
    assert_eq!(sbi_error_name(-11), "SBI_ERR_BAD_RANGE");
    assert_eq!(sbi_error_name(-12), "SBI_ERR_TIMEOUT");
    assert_eq!(sbi_error_name(-13), "SBI_ERR_IO");
    assert_eq!(sbi_error_name(-14), "SBI_ERR_DENIED_LOCKED");
    assert_eq!(sbi_error_name(-99), "SBI_ERR_UNKNOWN");
}

#[test]
fn decodes_jep106_id() {
    assert_eq!(vendor_name(0x144), Some("Nordic VLSI ASA"));
}

#[test]
fn rejects_unknown_or_oversized_ids() {
    assert_eq!(vendor_name(0), None);
    assert_eq!(vendor_name(usize::MAX), None);
}

#[test]
fn formats_known_version_encodings() {
    for (id, raw, expected) in [
        (impl_id::OPEN_SBI, 0x0001_0006, "1.6"),
        (impl_id::POLARFIRE_HSS, 0x0001_0006, "1.6"),
        (impl_id::KVM, 0x0004_0102, "4.1.2"),
        (impl_id::RUST_SBI, 0x0004_0102, "4.1.2"),
    ] {
        assert_eq!(version(id, raw).as_deref(), Some(expected));
    }
}

#[test]
fn leaves_unknown_version_encoding_raw() {
    assert_eq!(version(impl_id::BBL, 42), None);
}

#[test]
fn opensbi_1_3_through_1_6_are_affected() {
    assert!(pmu2_crash(impl_id::OPEN_SBI, 0x1_0003));
    assert!(pmu2_crash(impl_id::OPEN_SBI, 0x1_0006));
}

#[test]
fn other_versions_and_implementations_are_not_affected() {
    assert!(!pmu2_crash(impl_id::OPEN_SBI, 0x1_0002));
    assert!(!pmu2_crash(impl_id::OPEN_SBI, 0x1_0007));
    assert!(!pmu2_crash(impl_id::RUST_SBI, 0x1_0006));
}

#[test]
fn names_every_registered_implementation() {
    let expected = [
        (impl_id::BBL, "Berkeley Boot Loader (BBL)"),
        (impl_id::OPEN_SBI, "OpenSBI"),
        (impl_id::XVISOR, "Xvisor"),
        (impl_id::KVM, "KVM"),
        (impl_id::RUST_SBI, "RustSBI"),
        (impl_id::DIOSIX, "Diosix"),
        (impl_id::COFFER, "Coffer"),
        (impl_id::XEN, "Xen Project"),
        (impl_id::POLARFIRE_HSS, "PolarFire Hart Software Services"),
        (impl_id::COREBOOT, "coreboot"),
        (impl_id::OREBOOT, "oreboot"),
        (11, "bhyve"),
        (12, "unknown"),
        (usize::MAX, "unknown"),
    ];
    for (id, text) in expected {
        assert_eq!(name(id), text);
    }
}

#[test]
fn specification_versions_read_as_major_and_minor() {
    let info = SbiInfo {
        spec_version: 0x8100_0003,
        impl_id: 0,
        impl_version: 0,
        mvendorid: 0,
        marchid: 0,
        mimpid: 0,
        extensions: [SbiCallResult { error: 0, value: 0 }; 25],
        fwft: FwftInfo { cpu: 0, hart_id: 0, results: [SbiCallResult { error: 0, value: 0 }; 6] },
    };
    let output = lssbi::json::output(&info, false);
    assert_eq!(output.sbi_specification.version.as_deref(), Some("1.3"));
    assert_eq!(output.sbi_implementation.version.version, None);
    assert!(!output.vulnerabilities.pmu2_crash.affected);
    assert_eq!(output.vulnerabilities.pmu2_crash.id, "CVE-2025-63913");
}
