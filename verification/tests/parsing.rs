use lssbi::backend::dkms::{
    parse_fwft, parse_parameter, parse_records, probe, read_parameter, ParameterTexts,
};
use lssbi::backend::{ProbeError, SbiCallResult};
use lssbi::number::{to_decimal, to_prefixed_hex, ParseIntError};

const KEYS: [&str; 2] = ["base", "time"];

fn records_error(text: &str) -> String {
    parse_records(text, &KEYS).unwrap_err()
}

#[test]
fn every_unsigned_value_reads_back() {
    for value in [0u64, 1, 42, 0x8000_0000_5800_0002, u64::MAX] {
        assert_eq!(parse_parameter(&format!("{value}\n")), Ok(value));
        assert_eq!(parse_parameter(&to_decimal(value)), Ok(value));
    }
}

#[test]
fn parameter_text_follows_integer_parsing() {
    assert_eq!(parse_parameter("  42 \t\n"), Ok(42));
    assert_eq!(parse_parameter("+7\n"), Ok(7));
    assert_eq!(parse_parameter("\n"), Err(ParseIntError::Empty));
    assert_eq!(parse_parameter("+"), Err(ParseIntError::InvalidDigit));
    assert_eq!(parse_parameter("-1"), Err(ParseIntError::InvalidDigit));
    assert_eq!(parse_parameter("1 2"), Err(ParseIntError::InvalidDigit));
    assert_eq!(
        parse_parameter("18446744073709551616"),
        Err(ParseIntError::PosOverflow)
    );
    assert_eq!(
        parse_parameter("184467440737095516160x"),
        Err(ParseIntError::PosOverflow)
    );
}

#[test]
fn records_read_back_exactly() {
    let results = [
        SbiCallResult { error: i64::MIN, value: u64::MAX },
        SbiCallResult { error: i64::MAX, value: 0 },
    ];
    let text = format!(
        "base {} {}\ntime {} {}\n\n   \n",
        results[0].error, results[0].value, results[1].error, results[1].value
    );
    assert_eq!(parse_records(&text, &KEYS), Ok(results.to_vec()));
    let crlf = text.replace('\n', "\r\n");
    assert_eq!(parse_records(&crlf, &KEYS), Ok(results.to_vec()));
}

#[test]
fn records_settle_what_may_follow() {
    let results = vec![
        SbiCallResult { error: 0, value: 2 },
        SbiCallResult { error: -2, value: 0 },
    ];
    for text in ["base 0 2\ntime -2 0", "base 0 2\ntime -2 0\n", "base 0 2\r\ntime -2 0\r\n  \n"] {
        assert_eq!(parse_records(text, &KEYS), Ok(results.clone()));
        for blank in ["", "  ", "\t\n", " \n\r\n\n", "\u{a0}"] {
            let longer = format!("{text}\n{blank}");
            assert_eq!(parse_records(&longer, &KEYS), Ok(results.clone()));
        }
        for extra in ["extra 0 1", " x", "base 0 2", "time -2 0\r"] {
            let longer = format!("{text}\n{extra}");
            assert_eq!(records_error(&longer), "unexpected trailing record");
        }
    }
}

#[test]
fn records_report_each_fault() {
    assert_eq!(records_error(""), "missing base record");
    assert_eq!(records_error("base 0 1"), "missing time record");
    assert_eq!(records_error("   \ntime 0 1"), "missing base key");
    assert_eq!(records_error("time 0 1\nbase 0 1"), "expected base record, found time");
    assert_eq!(records_error("base"), "missing base error");
    assert_eq!(
        records_error("base x 1"),
        "invalid base error: invalid digit found in string"
    );
    assert_eq!(
        records_error("base -9223372036854775809 1"),
        "invalid base error: number too small to fit in target type"
    );
    assert_eq!(records_error("base 0"), "missing base value");
    assert_eq!(
        records_error("base 0 -1"),
        "invalid base value: invalid digit found in string"
    );
    assert_eq!(
        records_error("base 0 18446744073709551616"),
        "invalid base value: number too large to fit in target type"
    );
    assert_eq!(records_error("base 0 1 2"), "unexpected field in base record");
    assert_eq!(
        records_error("base 0 1\ntime 0 1\nextra 0 1"),
        "unexpected trailing record"
    );
}

#[test]
fn fwft_sample_reports_each_fault() {
    assert_eq!(parse_fwft("").unwrap_err(), "missing CPU record");
    assert_eq!(parse_fwft("core 1").unwrap_err(), "the first record is not a CPU record");
    assert_eq!(parse_fwft("\n").unwrap_err(), "the first record is not a CPU record");
    assert_eq!(parse_fwft("cpu").unwrap_err(), "missing CPU number");
    assert_eq!(
        parse_fwft("cpu x").unwrap_err(),
        "invalid CPU number: invalid digit found in string"
    );
    assert_eq!(
        parse_fwft("cpu 4294967296").unwrap_err(),
        "invalid CPU number: number too large to fit in target type"
    );
    assert_eq!(parse_fwft("cpu 1 2").unwrap_err(), "unexpected field in CPU record");
    assert_eq!(parse_fwft("cpu 1").unwrap_err(), "missing misaligned_exc_deleg record");
}

#[test]
fn parameters_name_their_path() {
    assert_eq!(
        read_parameter("impl_id", Err("No such file or directory".to_owned())),
        Err(ProbeError::Message(
            "cannot read /sys/module/lssbi_probe/parameters/impl_id: No such file or directory"
                .to_owned()
        ))
    );
    assert_eq!(
        read_parameter("impl_id", Ok("one\n".to_owned())),
        Err(ProbeError::Message(
            "invalid value in /sys/module/lssbi_probe/parameters/impl_id: invalid digit found in string"
                .to_owned()
        ))
    );
    assert_eq!(read_parameter("impl_id", Ok("1\n".to_owned())), Ok(1));
}

fn sample_texts() -> ParameterTexts {
    let extensions = lssbi::sbi_ext::extensions()
        .iter()
        .map(|extension| format!("{} 0 1\n", extension.key))
        .collect::<String>();
    ParameterTexts {
        spec_version: Ok("33554432\n".to_owned()),
        impl_id: Ok("1\n".to_owned()),
        impl_version: Ok("65542\n".to_owned()),
        mvendorid: Ok("1808\n".to_owned()),
        marchid: Ok("9223372038331170818\n".to_owned()),
        mimpid: Ok("869836288\n".to_owned()),
        extensions: Ok(extensions),
        fwft: Ok("cpu 0\nmisaligned_exc_deleg 0 1\nlanding_pad -2 0\nshadow_stack -2 0\ndouble_trap -2 0\npte_ad_hw_updating -2 0\npointer_masking_pmlen 0 0\n".to_owned()),
    }
}

#[test]
fn probe_reports_every_parameter() {
    assert_eq!(probe(None).err(), Some(ProbeError::ModuleNotLoaded));
    let info = probe(Some(sample_texts())).unwrap();
    assert_eq!(info.spec_version, 0x0200_0000);
    assert_eq!(info.impl_id, 1);
    assert_eq!(info.impl_version, 0x1_0006);
    assert_eq!(info.mvendorid, 0x710);
    assert_eq!(info.marchid, 0x8000_0000_5800_0002);
    assert_eq!(info.mimpid, 0x33d8_a600);
    assert!(info.extensions.iter().all(|r| r.error == 0 && r.value == 1));
    assert_eq!(info.fwft.cpu, 0);
    assert_eq!(info.fwft.results[1], SbiCallResult { error: -2, value: 0 });
}

#[test]
fn probe_stops_at_the_first_faulty_parameter() {
    let mut texts = sample_texts();
    texts.impl_version = Err("denied".to_owned());
    texts.mimpid = Ok("x".to_owned());
    assert_eq!(
        probe(Some(texts)).err(),
        Some(ProbeError::Message(
            "cannot read /sys/module/lssbi_probe/parameters/impl_version: denied".to_owned()
        ))
    );
    let mut texts = sample_texts();
    texts.extensions = Ok("base 0 1\n".to_owned());
    assert_eq!(
        probe(Some(texts)).err(),
        Some(ProbeError::Message(
            "invalid value in /sys/module/lssbi_probe/parameters/extensions: missing time record"
                .to_owned()
        ))
    );
}

#[test]
fn hex_texts_keep_values_apart() {
    assert_eq!(to_prefixed_hex(0), "0x0");
    assert_eq!(to_prefixed_hex(255), "0xff");
    assert_eq!(to_prefixed_hex(u64::MAX), "0xffffffffffffffff");
    assert_ne!(to_prefixed_hex(0x10), to_prefixed_hex(0x100));
    for value in [1u64, 0xabc, 0x8000_0000_5800_0002] {
        assert_eq!(to_prefixed_hex(value), format!("{value:#x}"));
        assert_eq!(to_decimal(value), value.to_string());
    }
}
