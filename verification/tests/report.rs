use lssbi::backend::{FwftInformation, ProbeError, SbiCallResult, SbiInformation};
use lssbi::driver::{
    feature_status, locale_directory, localize_probe_error, report_lines, status_line, status_width,
    FeatureStatus, LocaleDirectory, Translations,
};
use lssbi::fwft::Kind;
use lssbi::sbi_ext::extensions;
use lssbi::fwft::features;

fn english() -> Translations {
    Translations {
        raw: "raw".to_owned(),
        id: "ID".to_owned(),
        sbi_specification: "SBI specification".to_owned(),
        sbi_implementation: "SBI implementation".to_owned(),
        sbi_implementation_version: "SBI implementation version".to_owned(),
        machine_vendor_id: "Machine vendor ID".to_owned(),
        machine_architecture_id: "Machine architecture ID".to_owned(),
        machine_implementation_id: "Machine implementation ID".to_owned(),
        sbi_extensions: "SBI extensions".to_owned(),
        supported: "Supported".to_owned(),
        not_supported: "Not supported".to_owned(),
        probe_value: "probe value".to_owned(),
        error: "Error".to_owned(),
        vulnerabilities: "Vulnerabilities".to_owned(),
        pmu2_crash: "PMU2 Crash".to_owned(),
        affected: "Affected".to_owned(),
        not_affected: "Not affected".to_owned(),
        firmware_features: "Firmware Features".to_owned(),
        disabled: "Disabled".to_owned(),
        extension_names: extensions().iter().map(|e| e.message.to_owned()).collect(),
        feature_names: features().iter().map(|f| f.message.to_owned()).collect(),
    }
}

fn readme_machine() -> SbiInformation {
    let mut extensions = [SbiCallResult { error: 0, value: 1 }; 25];
    for index in [9, 10, 11] {
        extensions[index] = SbiCallResult { error: 0, value: 0 };
    }
    SbiInformation {
        spec_version: 0x0200_0000,
        impl_id: 1,
        impl_version: 0x1_0006,
        mvendorid: 0x710,
        marchid: 0x8000_0000_5800_0002,
        mimpid: 0x33d8_a600,
        extensions,
        fwft: FwftInformation {
            cpu: 0,
            results: [SbiCallResult { error: -2, value: 0 }; 6],
        },
    }
}

const README_OUTPUT: &str = "\
SBI specification: v2.0 (raw 0x2000000)
SBI implementation: OpenSBI (ID 0x1)
SBI implementation version: v1.6 (raw 0x10006)
Machine vendor ID: SpacemiT (Hangzhou)Technology Co Ltd (raw 0x710)
Machine architecture ID: 0x8000000058000002
Machine implementation ID: 0x33d8a600
SBI extensions:
  Base:                           Supported
  Timer:                          Supported
  Inter-processor Interrupt:      Supported
  Remote Fence:                   Supported
  Hart State Management:          Supported
  System Reset:                   Supported
  Performance Monitoring Unit:    Supported
  Debug Console:                  Supported
  System Suspend:                 Supported
  Collab. Processor Perf. Control: Not supported
  Nested Acceleration:            Not supported
  Steal-time Accounting:          Not supported
  Supervisor Software Events:     Supported
  Firmware Features:              Supported
  Debug Triggers:                 Supported
  Message Proxy:                  Supported
Vulnerabilities:
  PMU2 Crash (CVE-2025-63913):    Affected
Firmware Features:
  Misaligned Exception Delegation: Not supported
  Landing Pad:                    Not supported
  Shadow Stack:                   Not supported
  Double Trap:                    Not supported
  PTE A/D Hardware Updating:      Not supported
  Pointer Masking PMLEN:          Not supported";

#[test]
fn reproduces_the_documented_report() {
    let lines = report_lines(&readme_machine(), false, &english());
    assert_eq!(lines.join("\n"), README_OUTPUT);
}

#[test]
fn legacy_calls_follow_the_current_extensions() {
    let lines = report_lines(&readme_machine(), true, &english());
    assert_eq!(lines.len(), 7 + 25 + 2 + 1 + 6);
    assert!(lines[7 + 16].starts_with("  Legacy Set Timer:"));
    assert!(lines[7 + 24].starts_with("  Legacy Shutdown:"));
}

#[test]
fn probe_values_and_errors_stay_visible() {
    let mut machine = readme_machine();
    machine.impl_id = 99;
    machine.impl_version = 0x42;
    machine.mvendorid = 0;
    machine.marchid = 42;
    machine.extensions[1] = SbiCallResult { error: 0, value: 0x1234 };
    machine.extensions[2] = SbiCallResult { error: -4, value: 7 };
    machine.fwft.results[0] = SbiCallResult { error: 0, value: 0 };
    machine.fwft.results[5] = SbiCallResult { error: 0, value: 7 };
    let lines = report_lines(&machine, false, &english());
    assert_eq!(lines[1], "SBI implementation: unknown (ID 0x63)");
    assert_eq!(lines[2], "SBI implementation version: 0x42");
    assert_eq!(lines[3], "Machine vendor ID: 0x0");
    assert_eq!(lines[4], "Machine architecture ID: QEMU (raw 0x2a)");
    assert_eq!(lines[8], "  Timer:                          Supported (probe value 0x1234)");
    assert_eq!(lines[9], "  Inter-processor Interrupt:      Error: SBI_ERR_DENIED (-4)");
    assert_eq!(lines[24], "  PMU2 Crash (CVE-2025-63913):    Not affected");
    assert_eq!(lines[26], "  Misaligned Exception Delegation: Not supported");
    assert_eq!(lines[31], "  Pointer Masking PMLEN:          7");
}

#[test]
fn feature_values_read_by_kind() {
    let ok = |value| SbiCallResult { error: 0, value };
    assert_eq!(feature_status(Kind::Boolean, &ok(0)), FeatureStatus::NotSupported);
    assert_eq!(feature_status(Kind::Boolean, &ok(5)), FeatureStatus::Supported);
    assert_eq!(feature_status(Kind::Pmlen, &ok(0)), FeatureStatus::Disabled);
    assert_eq!(feature_status(Kind::Pmlen, &ok(16)), FeatureStatus::Length(16));
    assert_eq!(
        feature_status(Kind::Pmlen, &SbiCallResult { error: -1, value: 16 }),
        FeatureStatus::NotSupported
    );
}

#[test]
fn status_column_stays_between_32_and_48() {
    assert_eq!(status_width(&vec!["Base".to_owned()]), 32);
    assert_eq!(status_width(&vec![]), 32);
    assert_eq!(status_width(&vec!["x".repeat(40)]), 41);
    assert_eq!(status_width(&vec!["x".repeat(60), "y".to_owned()]), 48);
    assert_eq!(status_width(&vec!["名前".repeat(10)]), 41);
    assert_eq!(status_line("Base:", "Supported", 32), format!("  Base:{}Supported", " ".repeat(27)));
    assert_eq!(status_line(&"x".repeat(50), "Supported", 48), format!("  {} Supported", "x".repeat(50)));
}

#[test]
fn probe_errors_read_in_the_users_language() {
    assert_eq!(
        localize_probe_error(ProbeError::ModuleNotLoaded, "module missing".to_owned()),
        "module missing"
    );
    assert_eq!(
        localize_probe_error(ProbeError::Message("cannot read".to_owned()), "x".to_owned()),
        "cannot read"
    );
}

#[test]
fn catalogs_follow_the_installation_layout() {
    assert_eq!(locale_directory(Some("bin")), LocaleDirectory::UnderPrefix);
    assert_eq!(locale_directory(Some("sbin")), LocaleDirectory::UnderPrefix);
    assert_eq!(locale_directory(Some("debug")), LocaleDirectory::BesideExecutable);
    assert_eq!(locale_directory(None), LocaleDirectory::BesideExecutable);
}
