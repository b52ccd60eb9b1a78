use lssbi::backend::dkms::{parse_fwft, parse_parameter, parse_records};
use lssbi::backend::{FwftInformation, SbiCallResult};
use lssbi::fwft::features;
use lssbi::sbi_ext::{extensions, EXTENSION_COUNT};

const FWFT_SAMPLE: &str = "\
cpu 3
misaligned_exc_deleg 0 1
landing_pad -2 0
shadow_stack 0 0
double_trap 0 1
pte_ad_hw_updating 0 1
pointer_masking_pmlen 0 7
";

#[test]
fn parses_unsigned_module_parameter() {
    assert_eq!(
        parse_parameter("9223372038331170818\n"),
        Ok(0x8000_0000_5800_0002)
    );
}

#[test]
fn rejects_non_numeric_parameter() {
    assert!(parse_parameter("not-a-number\n").is_err());
}

#[test]
fn parses_live_fwft_sample() {
    assert_eq!(
        parse_fwft(FWFT_SAMPLE),
        Ok(FwftInformation {
            cpu: 3,
            results: [
                SbiCallResult { error: 0, value: 1 },
                SbiCallResult {
                    error: -2,
                    value: 0,
                },
                SbiCallResult { error: 0, value: 0 },
                SbiCallResult { error: 0, value: 1 },
                SbiCallResult { error: 0, value: 1 },
                SbiCallResult { error: 0, value: 7 },
            ],
        })
    );
}

#[test]
fn rejects_out_of_order_fwft_sample() {
    let malformed = FWFT_SAMPLE.replacen("landing_pad", "shadow_stack", 1);
    assert!(parse_fwft(&malformed).is_err());
}

#[test]
fn parses_all_extension_records() {
    let keys = extensions().map(|extension| extension.key);
    let text = keys
        .iter()
        .map(|key| format!("{key} 0 1"))
        .collect::<Vec<_>>()
        .join("\n");
    let results = parse_records(&text, &keys).unwrap();
    assert_eq!(results.len(), EXTENSION_COUNT);
    assert!(
        results
            .iter()
            .all(|result| result.error == 0 && result.value == 1)
    );
}

#[test]
fn fwft_keys_match_feature_table() {
    let keys = features().map(|feature| feature.key);
    assert_eq!(keys[0], "misaligned_exc_deleg");
    assert_eq!(keys[5], "pointer_masking_pmlen");
}
