use lssbi::fwft::features;
use lssbi::marchid::project_name;
use lssbi::sbi_ext::{extensions, selected, STANDARD_EXTENSION_COUNT};

#[test]
fn includes_all_standard_features() {
    let table = features();
    assert_eq!(table.len(), 6);
    assert_eq!(table[0].key, "misaligned_exc_deleg");
    assert_eq!(table[5].key, "pointer_masking_pmlen");
}

#[test]
fn decodes_registered_ids() {
    assert_eq!(project_name(1), Some("Rocket"));
    assert_eq!(project_name(42), Some("QEMU"));
    assert_eq!(project_name(55), Some("SARV"));
}

#[test]
fn rejects_unregistered_ids() {
    assert_eq!(project_name(0), None);
    assert_eq!(project_name(56), None);
    assert_eq!(project_name(usize::MAX), None);
}

#[test]
fn extension_keys_are_unique() {
    let table = extensions();
    assert_eq!(table.len(), 25);
    for (index, extension) in table.iter().enumerate() {
        assert!(
            table[..index]
                .iter()
                .all(|other| other.key != extension.key)
        );
    }
}

#[test]
fn legacy_extensions_are_opt_in() {
    assert_eq!(selected(false).len(), STANDARD_EXTENSION_COUNT);
    assert_eq!(selected(true).len(), extensions().len());
}
