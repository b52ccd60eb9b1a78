use lssbi::backend::{FwftInfo, SbiCallResult, SbiInfo};
use lssbi::fwft::FEATURE_COUNT;
use lssbi::json::{output, KeyedResult};
use lssbi::sbi_ext::EXTENSION_COUNT;
use sbi_spec::base::impl_id;

fn find<'a>(results: &'a [KeyedResult], key: &str) -> &'a KeyedResult {
    results.iter().find(|entry| entry.key == key).unwrap()
}

#[test]
fn schema_preserves_xlen_values() {
    const LARGE_XLEN: u64 = 0x8000_0000_5800_0002;
    let mut extensions = [SbiCallResult { error: 0, value: 0 }; EXTENSION_COUNT];
    extensions[0] = SbiCallResult {
        error: -4,
        value: LARGE_XLEN,
    };
    let mut features = [SbiCallResult { error: 0, value: 0 }; FEATURE_COUNT];
    features[0] = SbiCallResult {
        error: -2,
        value: u64::MAX,
    };
    let info = SbiInfo {
        spec_version: 0x0200_0000,
        impl_id: impl_id::RUST_SBI as u64,
        impl_version: 0x0004_0102,
        mvendorid: 0x144,
        marchid: LARGE_XLEN,
        mimpid: 0x1234,
        extensions,
        fwft: FwftInfo {
            cpu: 3,
            hart_id: LARGE_XLEN,
            results: features,
        },
    };

    let value = output(&info, false);
    assert_eq!(value.schema_version, 1);
    assert_eq!(value.sbi_specification.raw.as_text(), "0x2000000");
    assert_eq!(value.sbi_specification.version.as_deref(), Some("2.0"));
    assert_eq!(value.sbi_implementation.id.raw.as_text(), "0x4");
    assert_eq!(value.sbi_implementation.id.name, "RustSBI");
    assert_eq!(value.sbi_implementation.version.raw.as_text(), "0x40102");
    assert_eq!(value.sbi_implementation.version.version.as_deref(), Some("4.1.2"));
    assert_eq!(value.machine.vendor_id.raw.as_text(), "0x144");
    assert_eq!(value.machine.architecture_id.raw.as_text(), "0x8000000058000002");
    assert_eq!(value.machine.implementation_id.raw.as_text(), "0x1234");
    assert_eq!(value.extensions.len(), 16);
    let base = find(&value.extensions, "base");
    assert_eq!(base.result.error, -4);
    assert_eq!(base.result.value.as_text(), "0x8000000058000002");
    assert_eq!(value.firmware_features.linux_cpu_id, 3);
    assert_eq!(value.firmware_features.sbi_hart_id.as_text(), "0x8000000058000002");
    let misaligned = find(&value.firmware_features.features, "misaligned_exc_deleg");
    assert_eq!(misaligned.result.error, -2);
    assert_eq!(misaligned.result.value.as_text(), "0xffffffffffffffff");

    let legacy = output(&info, true);
    assert_eq!(legacy.extensions.len(), 25);
}
