//! The text report: how each probe result reads, and the lines the report
//! is made of, from the messages of the user's language.
use vstd::prelude::*;
use crate::backend::{ProbeError, SbiCallResult, SbiInformation};
use crate::text::same_text;
use crate::fwft::{features, spec_feature, Kind};
use crate::number::{decimal, prefixed_hex, push_decimal, push_signed_decimal, signed_decimal, to_prefixed_hex};
use crate::marchid::{project_name, spec_project_name};
use crate::mvendorid::{spec_vendor_name, vendor_name};
use crate::sbi_error::{sbi_error_kind, spec_sbi_error_kind, SbiErrorKind};
use crate::sbi_ext::{EXTENSION_COUNT, STANDARD_EXTENSION_COUNT};
use crate::sbi_impl::{self, spec_name, spec_specification_version, spec_version, specification_version};
use crate::vuln::{pmu2_crash, spec_pmu2_crash, PMU2_CRASH_ID};

verus! {

/// How the probe of an extension reads: an error, or, without error,
/// absent (value 0), present (value 1), or present with another value that
/// the implementation defines.
#[derive(Clone, Copy, Debug, PartialEq, Eq, Structural)]
pub enum ExtensionProbeStatus {
    NotSupported,
    Supported,
    SupportedWithValue(u64),
    Error(i64),
}

pub open spec fn spec_classify_extension_probe(result: SbiCallResult) -> ExtensionProbeStatus {
    if result.error != 0 {
        ExtensionProbeStatus::Error(result.error)
    } else if result.value == 0 {
        ExtensionProbeStatus::NotSupported
    } else if result.value == 1 {
        ExtensionProbeStatus::Supported
    } else {
        ExtensionProbeStatus::SupportedWithValue(result.value)
    }
}

/// Tells a failed probe from an absent extension, and keeps a probe value
/// other than 0 and 1.
pub fn classify_extension_probe(result: &SbiCallResult) -> (status: ExtensionProbeStatus)
    ensures
        status == spec_classify_extension_probe(*result),
{
    if result.error != 0 {
        ExtensionProbeStatus::Error(result.error)
    } else {
        match result.value {
            0 => ExtensionProbeStatus::NotSupported,
            1 => ExtensionProbeStatus::Supported,
            value => ExtensionProbeStatus::SupportedWithValue(value),
        }
    }
}

/// The name of the error code `error` in the SBI specification;
/// `SBI_ERR_UNKNOWN` for a code it does not define.
pub open spec fn spec_sbi_error_name(error: i64) -> &'static str {
    match spec_sbi_error_kind(error) {
        SbiErrorKind::Success => "SBI_SUCCESS",
        SbiErrorKind::Failed => "SBI_ERR_FAILED",
        SbiErrorKind::NotSupported => "SBI_ERR_NOT_SUPPORTED",
        SbiErrorKind::InvalidParam => "SBI_ERR_INVALID_PARAM",
        SbiErrorKind::Denied => "SBI_ERR_DENIED",
        SbiErrorKind::InvalidAddress => "SBI_ERR_INVALID_ADDRESS",
        SbiErrorKind::AlreadyAvailable => "SBI_ERR_ALREADY_AVAILABLE",
        SbiErrorKind::AlreadyStarted => "SBI_ERR_ALREADY_STARTED",
        SbiErrorKind::AlreadyStopped => "SBI_ERR_ALREADY_STOPPED",
        SbiErrorKind::NoShmem => "SBI_ERR_NO_SHMEM",
        SbiErrorKind::InvalidState => "SBI_ERR_INVALID_STATE",
        SbiErrorKind::BadRange => "SBI_ERR_BAD_RANGE",
        SbiErrorKind::Timeout => "SBI_ERR_TIMEOUT",
        SbiErrorKind::Io => "SBI_ERR_IO",
        SbiErrorKind::DeniedLocked => "SBI_ERR_DENIED_LOCKED",
        SbiErrorKind::Custom => "SBI_ERR_UNKNOWN",
    }
}

pub fn sbi_error_name(error: i64) -> (name: &'static str)
    ensures
        name == spec_sbi_error_name(error),
{
    match sbi_error_kind(error) {
        SbiErrorKind::Success => "SBI_SUCCESS",
        SbiErrorKind::Failed => "SBI_ERR_FAILED",
        SbiErrorKind::NotSupported => "SBI_ERR_NOT_SUPPORTED",
        SbiErrorKind::InvalidParam => "SBI_ERR_INVALID_PARAM",
        SbiErrorKind::Denied => "SBI_ERR_DENIED",
        SbiErrorKind::InvalidAddress => "SBI_ERR_INVALID_ADDRESS",
        SbiErrorKind::AlreadyAvailable => "SBI_ERR_ALREADY_AVAILABLE",
        SbiErrorKind::AlreadyStarted => "SBI_ERR_ALREADY_STARTED",
        SbiErrorKind::AlreadyStopped => "SBI_ERR_ALREADY_STOPPED",
        SbiErrorKind::NoShmem => "SBI_ERR_NO_SHMEM",
        SbiErrorKind::InvalidState => "SBI_ERR_INVALID_STATE",
        SbiErrorKind::BadRange => "SBI_ERR_BAD_RANGE",
        SbiErrorKind::Timeout => "SBI_ERR_TIMEOUT",
        SbiErrorKind::Io => "SBI_ERR_IO",
        SbiErrorKind::DeniedLocked => "SBI_ERR_DENIED_LOCKED",
        SbiErrorKind::Custom => "SBI_ERR_UNKNOWN",
    }
}

/// How a firmware feature reads: a failed `GET` reads as not supported; an
/// on/off feature reads by whether its value is nonzero; the pointer-masking
/// length reads as disabled when zero, else as the length.
#[derive(Clone, Copy, Debug, PartialEq, Eq, Structural)]
pub enum FeatureStatus {
    NotSupported,
    Supported,
    Disabled,
    Length(u64),
}

pub open spec fn spec_feature_status(kind: Kind, result: SbiCallResult) -> FeatureStatus {
    if result.error != 0 {
        FeatureStatus::NotSupported
    } else {
        match kind {
            Kind::Boolean => if result.value != 0 {
                FeatureStatus::Supported
            } else {
                FeatureStatus::NotSupported
            },
            Kind::Pmlen => if result.value == 0 {
                FeatureStatus::Disabled
            } else {
                FeatureStatus::Length(result.value)
            },
        }
    }
}

pub fn feature_status(kind: Kind, result: &SbiCallResult) -> (status: FeatureStatus)
    ensures
        result.error != 0 ==> status == FeatureStatus::NotSupported,
        result.error == 0 && kind is Boolean ==> (status == FeatureStatus::Supported <==> result.value != 0),
        result.error == 0 && kind is Boolean && result.value == 0 ==> status == FeatureStatus::NotSupported,
        result.error == 0 && kind is Pmlen && result.value == 0 ==> status == FeatureStatus::Disabled,
        result.error == 0 && kind is Pmlen && result.value != 0 ==> status == FeatureStatus::Length(result.value),
        status == spec_feature_status(kind, *result),
{
    if result.error != 0 {
        FeatureStatus::NotSupported
    } else {
        match kind {
            Kind::Boolean => if result.value != 0 {
                FeatureStatus::Supported
            } else {
                FeatureStatus::NotSupported
            },
            Kind::Pmlen => if result.value == 0 {
                FeatureStatus::Disabled
            } else {
                FeatureStatus::Length(result.value)
            },
        }
    }
}

/// How many terminal columns `text` takes, as `unicode_width` counts them.
pub uninterp spec fn display_width(text: Seq<char>) -> usize;

/// Measures `text` with `UnicodeWidthStr::width` of the `unicode_width`
/// crate. Claimed: the result depends on the characters of `text` alone;
/// what it is is left to the crate's tables.
#[verifier::external_body]
fn text_width(text: &str) -> (width: usize)
    ensures
        width == display_width(text@),
{
    unicode_width::UnicodeWidthStr::width(text)
}

/// The widest of `names` with one column more for the colon that follows
/// each, 0 when there is none.
pub open spec fn widest_label(names: Seq<Seq<char>>) -> int
    decreases names.len(),
{
    if names.len() == 0 {
        0
    } else {
        let rest = widest_label(names.drop_last());
        let last = display_width(names.last()) + 1;
        if rest >= last {
            rest
        } else {
            last
        }
    }
}

pub open spec fn clamp(value: int, lo: int, hi: int) -> int {
    if value < lo {
        lo
    } else if value > hi {
        hi
    } else {
        value
    }
}

/// The column where statuses start: room for the widest label (a name and
/// its colon), at least 32 and at most 48.
pub open spec fn spec_status_width(names: Seq<Seq<char>>) -> int {
    clamp(widest_label(names), 32, 48)
}

pub open spec fn string_views(strings: Seq<String>) -> Seq<Seq<char>> {
    strings.map_values(|s: String| s@)
}

/// The column where the statuses of `names` start.
pub fn status_width(names: &Vec<String>) -> (width: usize)
    ensures
        width == spec_status_width(string_views(names@)),
        32 <= width <= 48,
{
    let ghost views = string_views(names@);
    let mut widest: usize = 0;
    let mut i: usize = 0;
    assert(views.take(0) =~= Seq::<Seq<char>>::empty());
    while i < names.len()
        invariant
            i <= names.len(),
            views == string_views(names@),
            widest as int == if widest_label(views.take(i as int)) > usize::MAX {
                usize::MAX as int
            } else {
                widest_label(views.take(i as int))
            },
        decreases names.len() - i,
    {
        let w = text_width(names[i].as_str());
        let label: usize = if w == usize::MAX {
            usize::MAX
        } else {
            w + 1
        };
        if label > widest {
            widest = label;
        }
        assert(views.take(i + 1).drop_last() =~= views.take(i as int));
        assert(views.take(i + 1).last() == names@[i as int]@);
        i = i + 1;
    }
    assert(views.take(names.len() as int) =~= views);
    if widest < 32 {
        32
    } else if widest > 48 {
        48
    } else {
        widest
    }
}

/// `count` spaces.
pub open spec fn spaces(count: int) -> Seq<char> {
    Seq::new(count as nat, |i: int| ' ')
}

/// The line of a status: indented by two, the label, padding up to the
/// status column (at least one space), the status.
pub open spec fn spec_status_line(label: Seq<char>, status: Seq<char>, width: int) -> Seq<char> {
    let used = display_width(label);
    let padding = if width - used >= 1 {
        width - used
    } else {
        1
    };
    "  "@ + label + spaces(padding) + status
}

pub fn status_line(label: &str, status: &str, width: usize) -> (line: String)
    ensures
        line@ == spec_status_line(label@, status@, width as int),
{
    let used = text_width(label);
    let padding: usize = if width > used && width - used >= 1 {
        width - used
    } else {
        1
    };
    let mut line = String::from_str("  ");
    line.append(label);
    let ghost before = line@;
    let mut i: usize = 0;
    while i < padding
        invariant
            i <= padding,
            line@ == before + spaces(i as int),
        decreases padding - i,
    {
        line.append(" ");
        proof {
            reveal_strlit(" ");
        }
        assert(before + spaces(i as int) + " "@ =~= before + spaces(i + 1));
        i = i + 1;
    }
    line.append(status);
    proof {
        reveal_strlit("  ");
    }
    assert(line@ =~= spec_status_line(label@, status@, width as int));
    line
}

/// The messages of the report in the user's language: the labels and
/// statuses, the names of all extensions in the order of the extension
/// table, and the names of the features in the order of the feature table.
pub struct Translations {
    pub raw: String,
    pub id: String,
    pub sbi_specification: String,
    pub sbi_implementation: String,
    pub sbi_implementation_version: String,
    pub machine_vendor_id: String,
    pub machine_architecture_id: String,
    pub machine_implementation_id: String,
    pub sbi_extensions: String,
    pub supported: String,
    pub not_supported: String,
    pub probe_value: String,
    pub error: String,
    pub vulnerabilities: String,
    pub pmu2_crash: String,
    pub affected: String,
    pub not_affected: String,
    pub firmware_features: String,
    pub disabled: String,
    pub extension_names: Vec<String>,
    pub feature_names: Vec<String>,
}

/// `label: value`.
pub open spec fn labeled(label: Seq<char>, value: Seq<char>) -> Seq<char> {
    label + ": "@ + value
}

/// `label: value (raw 0x...)`, with `raw_word` for "raw" in the user's language.
pub open spec fn labeled_raw(label: Seq<char>, value: Seq<char>, raw_word: Seq<char>, raw: nat) -> Seq<
    char,
> {
    label + ": "@ + value + " ("@ + raw_word + " "@ + prefixed_hex(raw) + ")"@
}

/// The line of an identifier that may have a name: with the name and the
/// raw value when it has one, else with the raw value alone.
pub open spec fn named_raw(label: Seq<char>, name: Option<Seq<char>>, raw_word: Seq<char>, raw: nat) -> Seq<
    char,
> {
    match name {
        Some(n) => labeled_raw(label, n, raw_word, raw),
        None => labeled(label, prefixed_hex(raw)),
    }
}

pub open spec fn versioned(version: Option<Seq<char>>) -> Option<Seq<char>> {
    match version {
        Some(v) => Some(seq!['v'] + v),
        None => None,
    }
}

pub open spec fn name_view(name: Option<&'static str>) -> Option<Seq<char>> {
    match name {
        Some(n) => Some(n@),
        None => None,
    }
}

/// The status of an extension's probe in the user's language.
pub open spec fn spec_extension_status_text(t: Translations, result: SbiCallResult) -> Seq<char> {
    match spec_classify_extension_probe(result) {
        ExtensionProbeStatus::NotSupported => t.not_supported@,
        ExtensionProbeStatus::Supported => t.supported@,
        ExtensionProbeStatus::SupportedWithValue(v) => t.supported@ + " ("@ + t.probe_value@ + " "@
            + prefixed_hex(v as nat) + ")"@,
        ExtensionProbeStatus::Error(e) => t.error@ + ": "@ + spec_sbi_error_name(e)@ + " ("@
            + signed_decimal(e as int) + ")"@,
    }
}

/// The status of a firmware feature in the user's language.
pub open spec fn spec_feature_status_text(t: Translations, status: FeatureStatus) -> Seq<char> {
    match status {
        FeatureStatus::NotSupported => t.not_supported@,
        FeatureStatus::Supported => t.supported@,
        FeatureStatus::Disabled => t.disabled@,
        FeatureStatus::Length(v) => decimal(v as nat),
    }
}

/// The lines of the Base fields and the machine identity.
pub open spec fn spec_header_lines(info: SbiInformation, t: Translations) -> Seq<Seq<char>> {
    let spec_raw = info.spec_version as usize;
    let impl_id = info.impl_id as usize;
    let impl_version = info.impl_version as usize;
    let mvendorid = info.mvendorid as usize;
    let marchid = info.marchid as usize;
    let mimpid = info.mimpid as usize;
    seq![
        labeled_raw(t.sbi_specification@, seq!['v'] + spec_specification_version(spec_raw), t.raw@, spec_raw as nat),
        labeled_raw(t.sbi_implementation@, spec_name(impl_id as int)@, t.id@, impl_id as nat),
        named_raw(t.sbi_implementation_version@, versioned(spec_version(impl_id as int, impl_version)), t.raw@, impl_version as nat),
        named_raw(t.machine_vendor_id@, spec_vendor_name(mvendorid), t.raw@, mvendorid as nat),
        named_raw(t.machine_architecture_id@, name_view(spec_project_name(marchid as int)), t.raw@, marchid as nat),
        labeled(t.machine_implementation_id@, prefixed_hex(mimpid as nat)),
    ]
}

/// The lines of the first `count` extensions, aligned on one column.
pub open spec fn spec_extension_lines(info: SbiInformation, t: Translations, count: int) -> Seq<Seq<char>> {
    let names = string_views(t.extension_names@).take(count);
    let width = spec_status_width(names);
    Seq::new(
        count as nat,
        |i: int| spec_status_line(names[i] + ":"@, spec_extension_status_text(t, info.extensions@[i]), width),
    )
}

/// The lines of the firmware features, aligned on one column.
pub open spec fn spec_feature_lines(info: SbiInformation, t: Translations) -> Seq<Seq<char>> {
    let names = string_views(t.feature_names@);
    let width = spec_status_width(names);
    Seq::new(
        6,
        |i: int| spec_status_line(
            names[i] + ":"@,
            spec_feature_status_text(t, spec_feature_status(spec_feature(i).kind, info.fwft.results@[i])),
            width,
        ),
    )
}

/// The line of the PMU2 crash vulnerability.
pub open spec fn spec_vulnerability_line(info: SbiInformation, t: Translations) -> Seq<char> {
    let affected = spec_pmu2_crash((info.impl_id as usize) as int, (info.impl_version as usize) as int);
    spec_status_line(
        t.pmu2_crash@ + " ("@ + PMU2_CRASH_ID@ + "):"@,
        if affected { t.affected@ } else { t.not_affected@ },
        32,
    )
}

/// The whole text report, line by line.
pub open spec fn spec_report_lines(info: SbiInformation, legacy: bool, t: Translations) -> Seq<Seq<char>> {
    let count = if legacy { EXTENSION_COUNT as int } else { STANDARD_EXTENSION_COUNT as int };
    spec_header_lines(info, t) + seq![t.sbi_extensions@ + ":"@] + spec_extension_lines(info, t, count)
        + seq![t.vulnerabilities@ + ":"@, spec_vulnerability_line(info, t)]
        + seq![t.firmware_features@ + ":"@] + spec_feature_lines(info, t)
}

/// How a firmware feature reads, for every kind and result: a failed `GET`
/// reads as not supported; an on/off feature is supported exactly when its
/// value is nonzero; the pointer-masking length is disabled at zero and is
/// otherwise the length itself.
pub proof fn feature_status_reads(kind: Kind, result: SbiCallResult)
    ensures
        result.error != 0 ==> spec_feature_status(kind, result) == FeatureStatus::NotSupported,
        result.error == 0 && kind is Boolean ==> (spec_feature_status(kind, result) == FeatureStatus::Supported
            <==> result.value != 0),
        result.error == 0 && kind is Boolean && result.value == 0 ==> spec_feature_status(kind, result)
            == FeatureStatus::NotSupported,
        result.error == 0 && kind is Pmlen ==> (spec_feature_status(kind, result) == FeatureStatus::Disabled
            <==> result.value == 0),
        result.error == 0 && kind is Pmlen && result.value != 0 ==> spec_feature_status(kind, result)
            == FeatureStatus::Length(result.value),
{
}

/// How an extension's probe reads: without error, value 0 reads as not
/// supported, value 1 as supported, and any other value as supported with
/// that value in hexadecimal; with an error, the error's name and code.
pub proof fn extension_status_reads(t: Translations, result: SbiCallResult)
    ensures
        result.error == 0 && result.value == 0 ==> spec_extension_status_text(t, result) == t.not_supported@,
        result.error == 0 && result.value == 1 ==> spec_extension_status_text(t, result) == t.supported@,
        result.error == 0 && result.value > 1 ==> spec_extension_status_text(t, result) == t.supported@ + " ("@
            + t.probe_value@ + " "@ + prefixed_hex(result.value as nat) + ")"@,
        result.error != 0 ==> spec_extension_status_text(t, result) == t.error@ + ": "@
            + spec_sbi_error_name(result.error)@ + " ("@ + signed_decimal(result.error as int) + ")"@,
{
}

/// Each extension line of the report shows that extension's own result:
/// for every extension the report lists (all 25 with the legacy calls,
/// else the first 16), line 7 + k is the status line of the k-th name with
/// the status of the k-th probe result, aligned on the extensions' column.
pub proof fn extension_lines_show_own_results(info: SbiInformation, legacy: bool, t: Translations, k: int)
    requires
        t.extension_names@.len() == 25,
        0 <= k < (if legacy { 25int } else { 16int }),
    ensures
        spec_report_lines(info, legacy, t)[7 + k] == spec_status_line(
            t.extension_names@[k]@ + ":"@,
            spec_extension_status_text(t, info.extensions@[k]),
            spec_status_width(string_views(t.extension_names@).take(if legacy { 25int } else { 16int })),
        ),
{
    let count = if legacy { 25int } else { 16int };
    let head = spec_header_lines(info, t) + seq![t.sbi_extensions@ + ":"@];
    let body = spec_extension_lines(info, t, count);
    let tail = seq![t.vulnerabilities@ + ":"@, spec_vulnerability_line(info, t)]
        + seq![t.firmware_features@ + ":"@] + spec_feature_lines(info, t);
    assert(spec_report_lines(info, legacy, t) =~= head + body + tail);
    assert((head + body + tail)[7 + k] == body[k]);
    assert(string_views(t.extension_names@).take(count)[k] == t.extension_names@[k]@);
}

/// Each feature line of the report shows that feature's own status: line
/// count + 10 + f, after the extensions and the vulnerability, is the status
/// line of the f-th feature name with how the f-th sampled result reads for
/// the f-th feature's kind, aligned on the features' column.
pub proof fn feature_lines_show_own_results(info: SbiInformation, legacy: bool, t: Translations, f: int)
    requires
        t.feature_names@.len() == 6,
        0 <= f < 6,
    ensures
        spec_report_lines(info, legacy, t)[(if legacy { 25int } else { 16int }) + 10 + f] == spec_status_line(
            t.feature_names@[f]@ + ":"@,
            spec_feature_status_text(t, spec_feature_status(spec_feature(f).kind, info.fwft.results@[f])),
            spec_status_width(string_views(t.feature_names@)),
        ),
{
    let count = if legacy { 25int } else { 16int };
    let head = spec_header_lines(info, t) + seq![t.sbi_extensions@ + ":"@] + spec_extension_lines(info, t, count)
        + seq![t.vulnerabilities@ + ":"@, spec_vulnerability_line(info, t)] + seq![t.firmware_features@ + ":"@];
    let body = spec_feature_lines(info, t);
    assert(spec_report_lines(info, legacy, t) =~= head + body);
    assert(head.len() == count + 10);
    assert((head + body)[count + 10 + f] == body[f]);
}

/// `--legacy` adds the nine legacy calls to the report and nothing else:
/// the report has nine more lines, and the lines before the extensions
/// and the lines from the vulnerabilities on do not change.
pub proof fn legacy_adds_nine_lines(info: SbiInformation, t: Translations)
    ensures
        spec_report_lines(info, true, t).len() == spec_report_lines(info, false, t).len() + 9,
        spec_report_lines(info, true, t).take(7) == spec_report_lines(info, false, t).take(7),
        spec_report_lines(info, true, t).skip(32) == spec_report_lines(info, false, t).skip(23),
{
    let head = spec_header_lines(info, t) + seq![t.sbi_extensions@ + ":"@];
    let tail = seq![t.vulnerabilities@ + ":"@, spec_vulnerability_line(info, t)]
        + seq![t.firmware_features@ + ":"@] + spec_feature_lines(info, t);
    let legacy = spec_extension_lines(info, t, 25);
    let current = spec_extension_lines(info, t, 16);
    assert(spec_report_lines(info, true, t) =~= head + legacy + tail);
    assert(spec_report_lines(info, false, t) =~= head + current + tail);
    assert((head + legacy + tail).take(7) =~= head);
    assert((head + current + tail).take(7) =~= head);
    assert((head + legacy + tail).skip(32) =~= tail);
    assert((head + current + tail).skip(23) =~= tail);
}

fn labeled_text(label: &str, value: &str) -> (line: String)
    ensures
        line@ == labeled(label@, value@),
{
    let mut line = String::from_str(label);
    line.append(": ");
    line.append(value);
    line
}

fn labeled_raw_text(label: &str, value: &str, raw_word: &str, raw: u64) -> (line: String)
    ensures
        line@ == labeled_raw(label@, value@, raw_word@, raw as nat),
{
    let hex = to_prefixed_hex(raw);
    let mut line = String::from_str(label);
    line.append(": ");
    line.append(value);
    line.append(" (");
    line.append(raw_word);
    line.append(" ");
    line.append(hex.as_str());
    line.append(")");
    line
}

fn named_raw_text(label: &str, name: Option<&str>, raw_word: &str, raw: u64) -> (line: String)
    ensures
        line@ == named_raw(
            label@,
            match name {
                Some(n) => Some(n@),
                None => None,
            },
            raw_word@,
            raw as nat,
        ),
{
    match name {
        Some(n) => labeled_raw_text(label, n, raw_word, raw),
        None => {
            let hex = to_prefixed_hex(raw);
            labeled_text(label, hex.as_str())
        },
    }
}

/// The status of an extension's probe in the user's language.
pub fn extension_status_text(t: &Translations, result: &SbiCallResult) -> (text: String)
    ensures
        text@ == spec_extension_status_text(*t, *result),
{
    match classify_extension_probe(result) {
        ExtensionProbeStatus::NotSupported => t.not_supported.clone(),
        ExtensionProbeStatus::Supported => t.supported.clone(),
        ExtensionProbeStatus::SupportedWithValue(value) => {
            let hex = to_prefixed_hex(value);
            let mut text = t.supported.clone();
            text.append(" (");
            text.append(t.probe_value.as_str());
            text.append(" ");
            text.append(hex.as_str());
            text.append(")");
            text
        },
        ExtensionProbeStatus::Error(error) => {
            let mut text = t.error.clone();
            text.append(": ");
            text.append(sbi_error_name(error));
            text.append(" (");
            push_signed_decimal(&mut text, error);
            text.append(")");
            text
        },
    }
}

/// The status of a firmware feature in the user's language.
pub fn feature_status_text(t: &Translations, status: FeatureStatus) -> (text: String)
    ensures
        text@ == spec_feature_status_text(*t, status),
{
    match status {
        FeatureStatus::NotSupported => t.not_supported.clone(),
        FeatureStatus::Supported => t.supported.clone(),
        FeatureStatus::Disabled => t.disabled.clone(),
        FeatureStatus::Length(value) => {
            let mut text = String::new();
            push_decimal(&mut text, value);
            assert(text@ =~= decimal(value as nat));
            text
        },
    }
}

fn with_colon(name: &String) -> (label: String)
    ensures
        label@ == name@ + ":"@,
{
    let mut label = name.clone();
    label.append(":");
    label
}

fn push_line(lines: &mut Vec<String>, line: String)
    ensures
        string_views(final(lines)@) == string_views(old(lines)@).push(line@),
{
    let ghost before = lines@;
    lines.push(line);
    assert(string_views(lines@) =~= string_views(before).push(line@));
}

/// The lines of the text report of `info`, in the user's language, with
/// the legacy extensions when `legacy` asks for them.
pub fn report_lines(info: &SbiInformation, legacy: bool, t: &Translations) -> (lines: Vec<String>)
    requires
        t.extension_names.len() == EXTENSION_COUNT,
        t.feature_names.len() == 6,
    ensures
        string_views(lines@) == spec_report_lines(*info, legacy, *t),
        forall|k: int|
            0 <= k < (if legacy { EXTENSION_COUNT } else { STANDARD_EXTENSION_COUNT }) ==> #[trigger] lines@[7 + k]@
                == spec_status_line(
                t.extension_names@[k]@ + ":"@,
                spec_extension_status_text(*t, info.extensions@[k]),
                spec_status_width(
                    string_views(t.extension_names@).take(
                        (if legacy { EXTENSION_COUNT } else { STANDARD_EXTENSION_COUNT }) as int,
                    ),
                ),
            ),
{
    let spec_raw = info.spec_version as usize;
    let impl_id = info.impl_id as usize;
    let impl_version = info.impl_version as usize;
    let mut lines: Vec<String> = Vec::new();

    let mut spec_text = String::from_str("v");
    spec_text.append(specification_version(spec_raw).as_str());
    proof {
        reveal_strlit("v");
    }
    assert(spec_text@ =~= seq!['v'] + spec_specification_version(spec_raw));
    push_line(&mut lines, labeled_raw_text(t.sbi_specification.as_str(), spec_text.as_str(), t.raw.as_str(), spec_raw as u64));
    push_line(&mut lines, labeled_raw_text(t.sbi_implementation.as_str(), sbi_impl::name(impl_id), t.id.as_str(), impl_id as u64));
    let version_line = match sbi_impl::version(impl_id, impl_version) {
        Some(v) => {
            let mut text = String::from_str("v");
            text.append(v.as_str());
            assert(text@ =~= seq!['v'] + v@);
            named_raw_text(t.sbi_implementation_version.as_str(), Some(text.as_str()), t.raw.as_str(), impl_version as u64)
        },
        None => named_raw_text(t.sbi_implementation_version.as_str(), None, t.raw.as_str(), impl_version as u64),
    };
    push_line(&mut lines, version_line);
    push_line(&mut lines, named_raw_text(t.machine_vendor_id.as_str(), vendor_name(info.mvendorid as usize), t.raw.as_str(), (info.mvendorid as usize) as u64));
    push_line(&mut lines, named_raw_text(t.machine_architecture_id.as_str(), project_name(info.marchid as usize), t.raw.as_str(), (info.marchid as usize) as u64));
    let implementation_hex = to_prefixed_hex((info.mimpid as usize) as u64);
    push_line(&mut lines, labeled_text(t.machine_implementation_id.as_str(), implementation_hex.as_str()));
    assert(string_views(lines@) =~= spec_header_lines(*info, *t));

    push_line(&mut lines, with_colon(&t.sbi_extensions));
    let count: usize = if legacy { EXTENSION_COUNT } else { STANDARD_EXTENSION_COUNT };
    let mut names: Vec<String> = Vec::new();
    let mut i: usize = 0;
    while i < count
        invariant
            count <= 25,
            t.extension_names.len() == 25,
            i <= count,
            names.len() == i,
            forall|j: int| 0 <= j < i ==> #[trigger] names@[j]@ == t.extension_names@[j]@,
        decreases count - i,
    {
        names.push(t.extension_names[i].clone());
        i = i + 1;
    }
    assert(string_views(names@) =~= string_views(t.extension_names@).take(count as int));
    let width = status_width(&names);
    let ghost before = string_views(lines@);
    let mut k: usize = 0;
    while k < count
        invariant
            count <= 25,
            t.extension_names.len() == 25,
            k <= count,
            names.len() == count,
            string_views(names@) == string_views(t.extension_names@).take(count as int),
            width == spec_status_width(string_views(names@)),
            string_views(lines@) == before + spec_extension_lines(*info, *t, count as int).take(k as int),
        decreases count - k,
    {
        let label = with_colon(&names[k]);
        let status = extension_status_text(t, &info.extensions[k]);
        let line = status_line(label.as_str(), status.as_str(), width);
        push_line(&mut lines, line);
        assert(spec_extension_lines(*info, *t, count as int).take(k + 1) =~= spec_extension_lines(*info, *t, count as int).take(k as int).push(line@));
        k = k + 1;
    }
    assert(spec_extension_lines(*info, *t, count as int).take(count as int) =~= spec_extension_lines(*info, *t, count as int));

    push_line(&mut lines, with_colon(&t.vulnerabilities));
    let mut vulnerability_label = t.pmu2_crash.clone();
    vulnerability_label.append(" (");
    vulnerability_label.append(PMU2_CRASH_ID);
    vulnerability_label.append("):");
    let vulnerability_status = if pmu2_crash(impl_id, impl_version) {
        t.affected.clone()
    } else {
        t.not_affected.clone()
    };
    push_line(&mut lines, status_line(vulnerability_label.as_str(), vulnerability_status.as_str(), 32));

    push_line(&mut lines, with_colon(&t.firmware_features));
    let table = features();
    let feature_width = status_width(&t.feature_names);
    let ghost before_features = string_views(lines@);
    let mut f: usize = 0;
    while f < 6
        invariant
            f <= 6,
            t.feature_names.len() == 6,
            forall|j: int| 0 <= j < 6 ==> #[trigger] table@[j] == spec_feature(j),
            feature_width == spec_status_width(string_views(t.feature_names@)),
            string_views(lines@) == before_features + spec_feature_lines(*info, *t).take(f as int),
        decreases 6 - f,
    {
        let label = with_colon(&t.feature_names[f]);
        let status = feature_status(table[f].kind, &info.fwft.results[f]);
        let text = feature_status_text(t, status);
        let line = status_line(label.as_str(), text.as_str(), feature_width);
        push_line(&mut lines, line);
        assert(spec_feature_lines(*info, *t).take(f + 1) =~= spec_feature_lines(*info, *t).take(f as int).push(line@));
        f = f + 1;
    }
    assert(spec_feature_lines(*info, *t).take(6) =~= spec_feature_lines(*info, *t));
    assert(string_views(lines@) =~= spec_report_lines(*info, legacy, *t));
    assert forall|k: int|
        0 <= k < (if legacy { EXTENSION_COUNT } else { STANDARD_EXTENSION_COUNT }) implies #[trigger] lines@[7 + k]@
            == spec_status_line(
            t.extension_names@[k]@ + ":"@,
            spec_extension_status_text(*t, info.extensions@[k]),
            spec_status_width(
                string_views(t.extension_names@).take(
                    (if legacy { EXTENSION_COUNT } else { STANDARD_EXTENSION_COUNT }) as int,
                ),
            ),
        ) by {
        extension_lines_show_own_results(*info, legacy, *t, k);
        assert(string_views(lines@)[7 + k] == lines@[7 + k]@);
    }
    lines
}

/// The message that a probe failure shows: `not_loaded`, the message for a
/// probe module that is not loaded in the user's language, or the
/// failure's own message.
pub fn localize_probe_error(error: ProbeError, not_loaded: String) -> (message: String)
    ensures
        message@ == match error {
            ProbeError::ModuleNotLoaded => not_loaded@,
            ProbeError::Message(m) => m@,
        },
{
    match error {
        ProbeError::ModuleNotLoaded => not_loaded,
        ProbeError::Message(message) => message,
    }
}

/// Where the message catalogs of an installed program are: under the
/// installation prefix (`<prefix>/share/locale`) when the executable lies in
/// a `bin` or `sbin` directory, else in `locale` beside the executable.
#[derive(Clone, Copy, Debug, PartialEq, Eq, Structural)]
pub enum LocaleDirectory {
    UnderPrefix,
    BesideExecutable,
}

/// Where the catalogs are, from the name of the executable's directory.
pub fn locale_directory(executable_directory: Option<&str>) -> (place: LocaleDirectory)
    ensures
        place == match executable_directory {
            Some(name) => if name@ == "bin"@ || name@ == "sbin"@ {
                LocaleDirectory::UnderPrefix
            } else {
                LocaleDirectory::BesideExecutable
            },
            None => LocaleDirectory::BesideExecutable,
        },
{
    match executable_directory {
        Some(name) => if same_text(name, "bin") || same_text(name, "sbin") {
            LocaleDirectory::UnderPrefix
        } else {
            LocaleDirectory::BesideExecutable
        },
        None => LocaleDirectory::BesideExecutable,
    }
}

} // verus!
