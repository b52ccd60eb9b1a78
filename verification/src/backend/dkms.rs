//! The DKMS backend: the read-only parameters of the `lssbi_probe` module.
//! Reading them is left to the caller; this module turns their texts into
//! the report, or into the message that says what was wrong.
use vstd::prelude::*;
use crate::backend::{FwftInformation, ProbeError, SbiCallResult, SbiInformation};
use crate::fwft::FEATURE_KEYS;
use crate::number::{
    decimal, is_decimal_digit, lemma_decimal_digits, lemma_parse_decimal, lemma_parse_signed_decimal,
    parse_int_range, signed_decimal, spec_error_description, spec_parse_i64, spec_parse_u32,
    spec_parse_u64, ParseIntError,
};
use crate::sbi_ext::EXTENSION_KEYS;
use crate::text::{
    chars_of, fields, is_ascii_whitespace, is_field, is_plain_line, join,
    lemma_fields_of_three, lemma_fields_of_two, lemma_join_front, lemma_lines_of_join,
    lemma_lines_split, lemma_lines_terminated, lemma_single_line, lemma_strip_cr, lines, strip_cr,
    next_field, next_line, range_equals, trim, trim_end, trim_start, trim_range,
};

verus! {

/// Where the probe module exports its parameters.
pub const PARAMETER_DIRECTORY: &'static str = "/sys/module/lssbi_probe/parameters";

/// The path of the parameter `name`.
pub open spec fn parameter_path(name: Seq<char>) -> Seq<char> {
    PARAMETER_DIRECTORY@ + "/"@ + name
}

/// What reading each parameter gave: its text, or the message of the
/// failed read.
pub struct ParameterTexts {
    pub spec_version: Result<String, String>,
    pub impl_id: Result<String, String>,
    pub impl_version: Result<String, String>,
    pub mvendorid: Result<String, String>,
    pub marchid: Result<String, String>,
    pub mimpid: Result<String, String>,
    pub extensions: Result<String, String>,
    pub fwft: Result<String, String>,
}

pub open spec fn read_view(read: Result<String, String>) -> Result<Seq<char>, Seq<char>> {
    match read {
        Ok(text) => Ok(text@),
        Err(message) => Err(message@),
    }
}

pub open spec fn message_view<T>(r: Result<T, String>) -> Result<T, Seq<char>> {
    match r {
        Ok(v) => Ok(v),
        Err(message) => Err(message@),
    }
}

pub open spec fn records_view(r: Result<Vec<SbiCallResult>, String>) -> Result<
    Seq<SbiCallResult>,
    Seq<char>,
> {
    match r {
        Ok(v) => Ok(v@),
        Err(message) => Err(message@),
    }
}

/// The message of a parameter that could not be read.
pub open spec fn unreadable(name: Seq<char>, error: Seq<char>) -> Seq<char> {
    "cannot read "@ + parameter_path(name) + ": "@ + error
}

/// The message of a parameter whose text is not what it should be.
pub open spec fn invalid(name: Seq<char>, error: Seq<char>) -> Seq<char> {
    "invalid value in "@ + parameter_path(name) + ": "@ + error
}

/// What a numeric parameter's text holds: the unsigned decimal between
/// leading and trailing whitespace.
pub open spec fn spec_parse_parameter(text: Seq<char>) -> Result<u64, ParseIntError> {
    spec_parse_u64(trim(text))
}

/// The value of the numeric parameter `name`, from what reading it gave.
pub open spec fn spec_read_parameter(name: Seq<char>, read: Result<Seq<char>, Seq<char>>) -> Result<
    u64,
    Seq<char>,
> {
    match read {
        Err(error) => Err(unreadable(name, error)),
        Ok(text) => match spec_parse_parameter(text) {
            Ok(value) => Ok(value),
            Err(e) => Err(invalid(name, spec_error_description(e))),
        },
    }
}

/// The result that one record `<key> <error> <value>` holds, where `key`
/// must be the key the record has.
pub open spec fn spec_parse_record(line: Seq<char>, key: Seq<char>) -> Result<
    SbiCallResult,
    Seq<char>,
> {
    let f = fields(line);
    if f.len() == 0 {
        Err("missing "@ + key + " key"@)
    } else if f[0] != key {
        Err("expected "@ + key + " record, found "@ + f[0])
    } else if f.len() == 1 {
        Err("missing "@ + key + " error"@)
    } else {
        match spec_parse_i64(f[1]) {
            Err(e) => Err("invalid "@ + key + " error: "@ + spec_error_description(e)),
            Ok(error) => if f.len() == 2 {
                Err("missing "@ + key + " value"@)
            } else {
                match spec_parse_u64(f[2]) {
                    Err(e) => Err("invalid "@ + key + " value: "@ + spec_error_description(e)),
                    Ok(value) => if f.len() > 3 {
                        Err("unexpected field in "@ + key + " record"@)
                    } else {
                        Ok(SbiCallResult { error, value })
                    },
                }
            },
        }
    }
}

/// Whether `line` holds nothing but whitespace.
pub open spec fn is_blank(line: Seq<char>) -> bool {
    trim(line).len() == 0
}

/// Whether any of `lines` holds more than whitespace.
pub open spec fn any_record(lines: Seq<Seq<char>>) -> bool
    decreases lines.len(),
{
    lines.len() > 0 && (!is_blank(lines[0]) || any_record(lines.drop_first()))
}

/// The results that `lines` hold, one record per key in the order of `keys`,
/// followed by nothing but blank lines.
pub open spec fn spec_parse_record_lines(lines: Seq<Seq<char>>, keys: Seq<Seq<char>>) -> Result<
    Seq<SbiCallResult>,
    Seq<char>,
>
    decreases keys.len(),
{
    if keys.len() == 0 {
        if any_record(lines) {
            Err("unexpected trailing record"@)
        } else {
            Ok(seq![])
        }
    } else if lines.len() == 0 {
        Err("missing "@ + keys[0] + " record"@)
    } else {
        match spec_parse_record(lines[0], keys[0]) {
            Err(m) => Err(m),
            Ok(r) => match spec_parse_record_lines(lines.drop_first(), keys.drop_first()) {
                Ok(rs) => Ok(seq![r] + rs),
                Err(m) => Err(m),
            },
        }
    }
}

/// The characters of each key.
pub open spec fn key_views(keys: Seq<&str>) -> Seq<Seq<char>> {
    keys.map_values(|k: &str| k@)
}

/// The results that the records of `text` hold, one per key of `keys`.
pub open spec fn spec_parse_records(text: Seq<char>, keys: Seq<Seq<char>>) -> Result<
    Seq<SbiCallResult>,
    Seq<char>,
> {
    spec_parse_record_lines(lines(text), keys)
}

/// What a live FWFT sample holds: the record `cpu <linux-cpu-id>`, then one
/// record per standard feature.
pub open spec fn spec_parse_fwft(text: Seq<char>) -> Result<(u32, Seq<SbiCallResult>), Seq<char>> {
    let ls = lines(text);
    if ls.len() == 0 {
        Err("missing CPU record"@)
    } else {
        let f = fields(ls[0]);
        if f.len() == 0 || f[0] != "cpu"@ {
            Err("the first record is not a CPU record"@)
        } else if f.len() == 1 {
            Err("missing CPU number"@)
        } else {
            match spec_parse_u32(f[1]) {
                Err(e) => Err("invalid CPU number: "@ + spec_error_description(e)),
                Ok(cpu) => if f.len() > 2 {
                    Err("unexpected field in CPU record"@)
                } else {
                    match spec_parse_records(
                        join(ls.drop_first(), "\n"@),
                        key_views(FEATURE_KEYS@),
                    ) {
                        Err(m) => Err(m),
                        Ok(results) => Ok((cpu, results)),
                    }
                },
            }
        }
    }
}

pub open spec fn combine(prefix: Seq<SbiCallResult>, rest: Result<Seq<SbiCallResult>, Seq<char>>) -> Result<
    Seq<SbiCallResult>,
    Seq<char>,
> {
    match rest {
        Ok(rs) => Ok(prefix + rs),
        Err(m) => Err(m),
    }
}

fn message3(a: &str, b: &str, c: &str) -> (m: String)
    ensures
        m@ == a@ + b@ + c@,
{
    let mut m = String::from_str(a);
    m.append(b);
    m.append(c);
    m
}

fn message4(a: &str, b: &str, c: &str, d: &str) -> (m: String)
    ensures
        m@ == a@ + b@ + c@ + d@,
{
    let mut m = String::from_str(a);
    m.append(b);
    m.append(c);
    m.append(d);
    m
}

/// The path of the parameter `name`.
pub fn parameter_path_text(name: &str) -> (path: String)
    ensures
        path@ == parameter_path(name@),
{
    message3(PARAMETER_DIRECTORY, "/", name)
}

/// Parses the text of a numeric parameter: an unsigned decimal, with
/// whitespace (such as the final line feed) around it.
pub fn parse_parameter(text: &str) -> (r: Result<u64, ParseIntError>)
    ensures
        r == spec_parse_parameter(text@),
{
    let chars = chars_of(text);
    let (a, b) = trim_range(&chars, 0, chars.len());
    assert(chars@.subrange(0, chars.len() as int) =~= text@);
    match parse_int_range(&chars, a, b, false, 0, 0xffff_ffff_ffff_ffff) {
        Ok(v) => Ok(v as u64),
        Err(e) => Err(e),
    }
}

/// The value of the numeric parameter `name`, from what reading it gave.
pub fn read_parameter(name: &str, read: Result<String, String>) -> (r: Result<u64, ProbeError>)
    ensures
        match r {
            Ok(v) => spec_read_parameter(name@, read_view(read)) == Ok::<u64, Seq<char>>(v),
            Err(ProbeError::Message(m)) => spec_read_parameter(name@, read_view(read)) == Err::<
                u64,
                Seq<char>,
            >(m@),
            Err(ProbeError::ModuleNotLoaded) => false,
        },
{
    let path = parameter_path_text(name);
    match read {
        Err(error) => Err(ProbeError::Message(message4("cannot read ", path.as_str(), ": ", error.as_str()))),
        Ok(text) => match parse_parameter(text.as_str()) {
            Ok(value) => Ok(value),
            Err(e) => Err(
                ProbeError::Message(message4("invalid value in ", path.as_str(), ": ", e.description())),
            ),
        },
    }
}

/// Parses one record `<key> <error> <value>` held in `chars[start..end]`.
fn parse_record(text: &str, chars: &Vec<char>, start: usize, end: usize, key: &str) -> (r: Result<
    SbiCallResult,
    String,
>)
    requires
        chars@ == text@,
        start <= end <= chars.len(),
    ensures
        message_view(r) == spec_parse_record(chars@.subrange(start as int, end as int), key@),
{
    let ghost line = chars@.subrange(start as int, end as int);
    let ghost f = fields(line);
    let first = next_field(chars, start, end);
    let (a0, b0) = match first {
        None => {
            return Err(message3("missing ", key, " key"));
        },
        Some(bounds) => bounds,
    };
    assert(f[0] == chars@.subrange(a0 as int, b0 as int));
    let key_chars = chars_of(key);
    if !range_equals(chars, a0, b0, &key_chars) {
        let found = text.substring_char(a0, b0);
        return Err(message4("expected ", key, " record, found ", found));
    }
    let second = next_field(chars, b0, end);
    let (a1, b1) = match second {
        None => {
            assert(f.len() == 1);
            return Err(message3("missing ", key, " error"));
        },
        Some(bounds) => bounds,
    };
    assert(f.len() >= 2 && f[1] == chars@.subrange(a1 as int, b1 as int));
    let error = match parse_int_range(chars, a1, b1, true, -0x8000_0000_0000_0000, 0x7fff_ffff_ffff_ffff) {
        Err(e) => {
            return Err(message4("invalid ", key, " error: ", e.description()));
        },
        Ok(v) => v as i64,
    };
    let third = next_field(chars, b1, end);
    let (a2, b2) = match third {
        None => {
            assert(f.len() == 2);
            return Err(message3("missing ", key, " value"));
        },
        Some(bounds) => bounds,
    };
    assert(f.len() >= 3 && f[2] == chars@.subrange(a2 as int, b2 as int));
    let value = match parse_int_range(chars, a2, b2, false, 0, 0xffff_ffff_ffff_ffff) {
        Err(e) => {
            return Err(message4("invalid ", key, " value: ", e.description()));
        },
        Ok(v) => v as u64,
    };
    let fourth = next_field(chars, b2, end);
    if fourth.is_some() {
        assert(f.len() > 3);
        return Err(message3("unexpected field in ", key, " record"));
    }
    assert(f.len() == 3);
    Ok(SbiCallResult { error, value })
}

proof fn lemma_combine_step(
    prefix: Seq<SbiCallResult>,
    r: SbiCallResult,
    rest: Result<Seq<SbiCallResult>, Seq<char>>,
)
    ensures
        combine(
            prefix,
            match rest {
                Ok(rs) => Ok(seq![r] + rs),
                Err(m) => Err(m),
            },
        ) == combine(prefix.push(r), rest),
{
    match rest {
        Ok(rs) => {
            assert(prefix + (seq![r] + rs) =~= prefix.push(r) + rs);
        },
        Err(_) => {},
    }
}

/// Parses the records of `text`: one `<key> <error> <value>` line per key of
/// `expected_keys`, in that order, and nothing after them but blank lines.
pub fn parse_records(text: &str, expected_keys: &[&str]) -> (r: Result<Vec<SbiCallResult>, String>)
    ensures
        records_view(r) == spec_parse_records(text@, key_views(expected_keys@)),
        r matches Ok(results) ==> results.len() == expected_keys.len(),
{
    let chars = chars_of(text);
    let len = chars.len();
    let ghost keys = key_views(expected_keys@);
    let mut results: Vec<SbiCallResult> = Vec::new();
    let mut pos: usize = 0;
    let mut index: usize = 0;
    assert(chars@.subrange(0, len as int) =~= text@);
    assert(keys.skip(0) =~= keys);
    assert(results@ + Seq::<SbiCallResult>::empty() =~= Seq::<SbiCallResult>::empty());
    proof {
        match spec_parse_record_lines(lines(text@), keys) {
            Ok(rs) => {
                assert(results@ + rs =~= rs);
            },
            Err(_) => {},
        }
    }
    while index < expected_keys.len()
        invariant
            chars@ == text@,
            len == chars.len(),
            pos <= len,
            index <= expected_keys.len(),
            keys == key_views(expected_keys@),
            keys.len() == expected_keys@.len(),
            results.len() == index,
            spec_parse_records(text@, keys) == combine(
                results@,
                spec_parse_record_lines(lines(chars@.subrange(pos as int, len as int)), keys.skip(index as int)),
            ),
        decreases expected_keys.len() - index,
    {
        let key = expected_keys[index];
        assert(keys.skip(index as int)[0] == key@);
        assert(keys.skip(index as int).drop_first() =~= keys.skip(index + 1));
        match next_line(&chars, pos) {
            None => {
                return Err(message3("missing ", key, " record"));
            },
            Some((a, b, p)) => {
                let ghost ls = lines(chars@.subrange(pos as int, len as int));
                assert(ls[0] == chars@.subrange(a as int, b as int));
                assert(ls.drop_first() =~= lines(chars@.subrange(p as int, len as int)));
                match parse_record(text, &chars, a, b, key) {
                    Err(m) => {
                        return Err(m);
                    },
                    Ok(record) => {
                        proof {
                            lemma_combine_step(
                                results@,
                                record,
                                spec_parse_record_lines(
                                    lines(chars@.subrange(p as int, len as int)),
                                    keys.skip(index + 1),
                                ),
                            );
                        }
                        results.push(record);
                        pos = p;
                        index = index + 1;
                    },
                }
            },
        }
    }
    assert(keys.skip(index as int) =~= Seq::<Seq<char>>::empty());
    loop
        invariant
            chars@ == text@,
            len == chars.len(),
            pos <= len,
            results.len() == expected_keys.len(),
            keys == key_views(expected_keys@),
            spec_parse_records(text@, keys) == combine(
                results@,
                spec_parse_record_lines(lines(chars@.subrange(pos as int, len as int)), Seq::<Seq<char>>::empty()),
            ),
        decreases len - pos,
    {
        match next_line(&chars, pos) {
            None => {
                let ghost ls = lines(chars@.subrange(pos as int, len as int));
                assert(ls =~= Seq::<Seq<char>>::empty());
                assert(!any_record(ls));
                assert(results@ + Seq::<SbiCallResult>::empty() =~= results@);
                return Ok(results);
            },
            Some((a, b, p)) => {
                let ghost ls = lines(chars@.subrange(pos as int, len as int));
                assert(ls[0] == chars@.subrange(a as int, b as int));
                assert(ls.drop_first() =~= lines(chars@.subrange(p as int, len as int)));
                let (ta, tb) = trim_range(&chars, a, b);
                if ta < tb {
                    assert(!is_blank(ls[0]));
                    assert(any_record(ls));
                    return Err(String::from_str("unexpected trailing record"));
                }
                assert(is_blank(ls[0]));
                assert(any_record(ls) == any_record(ls.drop_first()));
                pos = p;
            },
        }
    }
}

/// The lines of `chars[pos..]` joined again with line feeds.
fn join_remaining_lines(text: &str, chars: &Vec<char>, pos: usize) -> (joined: String)
    requires
        chars@ == text@,
        pos <= chars.len(),
    ensures
        joined@ == join(lines(chars@.subrange(pos as int, chars.len() as int)), "\n"@),
{
    let len = chars.len();
    let mut joined = String::new();
    let mut at: usize = pos;
    let ghost mut consumed: Seq<Seq<char>> = seq![];
    let mut first = true;
    assert(lines(chars@.subrange(pos as int, len as int)) =~= consumed + lines(
        chars@.subrange(at as int, len as int),
    ));
    loop
        invariant
            chars@ == text@,
            len == chars.len(),
            pos <= at <= len,
            lines(chars@.subrange(pos as int, len as int)) == consumed + lines(
                chars@.subrange(at as int, len as int),
            ),
            joined@ == join(consumed, "\n"@),
            first == (consumed.len() == 0),
        decreases len - at,
    {
        match next_line(chars, at) {
            None => {
                assert(consumed + lines(chars@.subrange(at as int, len as int)) =~= consumed);
                return joined;
            },
            Some((a, b, q)) => {
                let ghost line = chars@.subrange(a as int, b as int);
                if !first {
                    joined.append("\n");
                }
                first = false;
                joined.append(text.substring_char(a, b));
                proof {
                    let next = consumed.push(line);
                    assert(next.drop_last() =~= consumed);
                    if consumed.len() == 0 {
                        assert(joined@ =~= join(next, "\n"@));
                    } else {
                        assert(joined@ =~= join(next, "\n"@));
                    }
                    assert(consumed + lines(chars@.subrange(at as int, len as int)) =~= next + lines(
                        chars@.subrange(q as int, len as int),
                    ));
                    consumed = next;
                }
                at = q;
            },
        }
    }
}

/// Parses one live FWFT sample: the record `cpu <linux-cpu-id>`, then one
/// `<key> <error> <value>` record per standard feature.
pub fn parse_fwft(text: &str) -> (r: Result<FwftInformation, String>)
    ensures
        match r {
            Ok(info) => spec_parse_fwft(text@) == Ok::<(u32, Seq<SbiCallResult>), Seq<char>>(
                (info.cpu, info.results@),
            ),
            Err(m) => spec_parse_fwft(text@) == Err::<(u32, Seq<SbiCallResult>), Seq<char>>(m@),
        },
{
    let chars = chars_of(text);
    let len = chars.len();
    assert(chars@.subrange(0, len as int) =~= text@);
    let ghost ls = lines(text@);
    let (a, b, p) = match next_line(&chars, 0) {
        None => {
            return Err(String::from_str("missing CPU record"));
        },
        Some(bounds) => bounds,
    };
    assert(ls[0] == chars@.subrange(a as int, b as int));
    assert(ls.drop_first() =~= lines(chars@.subrange(p as int, len as int)));
    let (a0, b0) = match next_field(&chars, a, b) {
        None => {
            return Err(String::from_str("the first record is not a CPU record"));
        },
        Some(bounds) => bounds,
    };
    let cpu_word = chars_of("cpu");
    if !range_equals(&chars, a0, b0, &cpu_word) {
        return Err(String::from_str("the first record is not a CPU record"));
    }
    let (a1, b1) = match next_field(&chars, b0, b) {
        None => {
            return Err(String::from_str("missing CPU number"));
        },
        Some(bounds) => bounds,
    };
    let cpu: u32 = match parse_int_range(&chars, a1, b1, false, 0, 0xffff_ffff) {
        Err(e) => {
            let mut m = String::from_str("invalid CPU number: ");
            m.append(e.description());
            return Err(m);
        },
        Ok(v) => v as u32,
    };
    if next_field(&chars, b1, b).is_some() {
        return Err(String::from_str("unexpected field in CPU record"));
    }
    let remaining = join_remaining_lines(text, &chars, p);
    let keys = FEATURE_KEYS;
    let records = match parse_records(remaining.as_str(), keys.as_slice()) {
        Err(m) => {
            return Err(m);
        },
        Ok(records) => records,
    };
    let results: [SbiCallResult; 6] = [records[0], records[1], records[2], records[3], records[4], records[5]];
    assert(results@ =~= records@);
    Ok(FwftInformation { cpu, results })
}

/// The records of the parameter `name`, from what reading it gave.
pub open spec fn spec_read_records(
    name: Seq<char>,
    read: Result<Seq<char>, Seq<char>>,
    keys: Seq<Seq<char>>,
) -> Result<Seq<SbiCallResult>, Seq<char>> {
    match read {
        Err(error) => Err(unreadable(name, error)),
        Ok(text) => match spec_parse_records(text, keys) {
            Ok(results) => Ok(results),
            Err(m) => Err(invalid(name, m)),
        },
    }
}

/// The probe results of all extensions, from what reading the `extensions`
/// parameter gave.
pub open spec fn spec_read_extensions(read: Result<Seq<char>, Seq<char>>) -> Result<
    Seq<SbiCallResult>,
    Seq<char>,
> {
    spec_read_records("extensions"@, read, key_views(EXTENSION_KEYS@))
}

/// The FWFT sample, from what reading the `fwft` parameter gave.
pub open spec fn spec_read_fwft(read: Result<Seq<char>, Seq<char>>) -> Result<
    (u32, Seq<SbiCallResult>),
    Seq<char>,
> {
    match read {
        Err(error) => Err(unreadable("fwft"@, error)),
        Ok(text) => match spec_parse_fwft(text) {
            Ok(sample) => Ok(sample),
            Err(m) => Err(invalid("fwft"@, m)),
        },
    }
}

/// The probe results of all extensions, in the order of the extension
/// table, from what reading the `extensions` parameter gave.
pub fn read_extensions(read: Result<String, String>) -> (r: Result<[SbiCallResult; 25], ProbeError>)
    ensures
        match (read_view(read), r) {
            (Ok(text), Ok(results)) => spec_parse_records(text, key_views(EXTENSION_KEYS@))
                == Ok::<Seq<SbiCallResult>, Seq<char>>(results@),
            (Err(_), Ok(_)) => false,
            _ => true,
        },
        match r {
            Ok(results) => spec_read_extensions(read_view(read)) == Ok::<Seq<SbiCallResult>, Seq<char>>(results@),
            Err(ProbeError::Message(m)) => spec_read_extensions(read_view(read)) == Err::<Seq<SbiCallResult>, Seq<char>>(m@),
            Err(ProbeError::ModuleNotLoaded) => false,
        },
{
    let path = parameter_path_text("extensions");
    match read {
        Err(error) => Err(ProbeError::Message(message4("cannot read ", path.as_str(), ": ", error.as_str()))),
        Ok(text) => {
            let keys = EXTENSION_KEYS;
            match parse_records(text.as_str(), keys.as_slice()) {
                Err(m) => Err(ProbeError::Message(message4("invalid value in ", path.as_str(), ": ", m.as_str()))),
                Ok(records) => {
                    let results: [SbiCallResult; 25] = [records[0], records[1], records[2], records[3], records[4], records[5], records[6], records[7], records[8], records[9], records[10], records[11], records[12], records[13], records[14], records[15], records[16], records[17], records[18], records[19], records[20], records[21], records[22], records[23], records[24]];
                    assert(results@ =~= records@);
                    Ok(results)
                },
            }
        },
    }
}

/// The FWFT sample, from what reading the `fwft` parameter gave.
pub fn read_fwft(read: Result<String, String>) -> (r: Result<FwftInformation, ProbeError>)
    ensures
        match r {
            Ok(info) => spec_read_fwft(read_view(read)) == Ok::<(u32, Seq<SbiCallResult>), Seq<char>>((info.cpu, info.results@)),
            Err(ProbeError::Message(m)) => spec_read_fwft(read_view(read)) == Err::<(u32, Seq<SbiCallResult>), Seq<char>>(m@),
            Err(ProbeError::ModuleNotLoaded) => false,
        },
{
    let path = parameter_path_text("fwft");
    match read {
        Err(error) => Err(ProbeError::Message(message4("cannot read ", path.as_str(), ": ", error.as_str()))),
        Ok(text) => match parse_fwft(text.as_str()) {
            Err(m) => Err(ProbeError::Message(message4("invalid value in ", path.as_str(), ": ", m.as_str()))),
            Ok(info) => Ok(info),
        },
    }
}

/// The message of the first parameter that could not be read or did not
/// hold what it should, in the order the parameters are read; `None` when
/// all are fine.
pub open spec fn probe_failure(t: ParameterTexts) -> Option<Seq<char>> {
    match spec_read_parameter("spec_version"@, read_view(t.spec_version)) {
        Err(m) => Some(m),
        Ok(_) => match spec_read_parameter("impl_id"@, read_view(t.impl_id)) {
            Err(m) => Some(m),
            Ok(_) => match spec_read_parameter("impl_version"@, read_view(t.impl_version)) {
                Err(m) => Some(m),
                Ok(_) => match spec_read_parameter("mvendorid"@, read_view(t.mvendorid)) {
                    Err(m) => Some(m),
                    Ok(_) => match spec_read_parameter("marchid"@, read_view(t.marchid)) {
                        Err(m) => Some(m),
                        Ok(_) => match spec_read_parameter("mimpid"@, read_view(t.mimpid)) {
                            Err(m) => Some(m),
                            Ok(_) => match spec_read_extensions(read_view(t.extensions)) {
                                Err(m) => Some(m),
                                Ok(_) => match spec_read_fwft(read_view(t.fwft)) {
                                    Err(m) => Some(m),
                                    Ok(_) => None,
                                },
                            },
                        },
                    },
                },
            },
        },
    }
}

/// What probing gives for the module parameters' texts: `ModuleNotLoaded`
/// without the module; else the message of the first parameter at fault,
/// or the report whose every field is what its parameter holds.
pub open spec fn probe_outcome(texts: Option<ParameterTexts>, r: Result<SbiInformation, ProbeError>) -> bool {
    match texts {
        None => r matches Err(ProbeError::ModuleNotLoaded),
        Some(t) => match r {
            Err(ProbeError::ModuleNotLoaded) => false,
            Err(ProbeError::Message(m)) => probe_failure(t) == Some(m@),
            Ok(info) => {
                &&& probe_failure(t) is None
                &&& spec_read_parameter("spec_version"@, read_view(t.spec_version)) == Ok::<u64, Seq<char>>(info.spec_version)
                &&& spec_read_parameter("impl_id"@, read_view(t.impl_id)) == Ok::<u64, Seq<char>>(info.impl_id)
                &&& spec_read_parameter("impl_version"@, read_view(t.impl_version)) == Ok::<u64, Seq<char>>(info.impl_version)
                &&& spec_read_parameter("mvendorid"@, read_view(t.mvendorid)) == Ok::<u64, Seq<char>>(info.mvendorid)
                &&& spec_read_parameter("marchid"@, read_view(t.marchid)) == Ok::<u64, Seq<char>>(info.marchid)
                &&& spec_read_parameter("mimpid"@, read_view(t.mimpid)) == Ok::<u64, Seq<char>>(info.mimpid)
                &&& spec_read_extensions(read_view(t.extensions)) == Ok::<Seq<SbiCallResult>, Seq<char>>(info.extensions@)
                &&& spec_read_fwft(read_view(t.fwft)) == Ok::<(u32, Seq<SbiCallResult>), Seq<char>>((info.fwft.cpu, info.fwft.results@))
            },
        },
    }
}

/// Builds the report from the texts of the module parameters (`None` when
/// the module is not loaded).
pub fn probe(texts: Option<ParameterTexts>) -> (r: Result<SbiInformation, ProbeError>)
    ensures
        probe_outcome(texts, r),
{
    let t = match texts {
        None => {
            return Err(ProbeError::ModuleNotLoaded);
        },
        Some(t) => t,
    };
    let ghost g = t;
    let spec_version = match read_parameter("spec_version", t.spec_version) {
        Err(e) => {
            return Err(e);
        },
        Ok(v) => v,
    };
    let impl_id = match read_parameter("impl_id", t.impl_id) {
        Err(e) => {
            return Err(e);
        },
        Ok(v) => v,
    };
    let impl_version = match read_parameter("impl_version", t.impl_version) {
        Err(e) => {
            return Err(e);
        },
        Ok(v) => v,
    };
    let mvendorid = match read_parameter("mvendorid", t.mvendorid) {
        Err(e) => {
            return Err(e);
        },
        Ok(v) => v,
    };
    let marchid = match read_parameter("marchid", t.marchid) {
        Err(e) => {
            return Err(e);
        },
        Ok(v) => v,
    };
    let mimpid = match read_parameter("mimpid", t.mimpid) {
        Err(e) => {
            return Err(e);
        },
        Ok(v) => v,
    };
    let extensions = match read_extensions(t.extensions) {
        Err(e) => {
            return Err(e);
        },
        Ok(v) => v,
    };
    let fwft = match read_fwft(t.fwft) {
        Err(e) => {
            return Err(e);
        },
        Ok(v) => v,
    };
    Ok(SbiInformation { spec_version, impl_id, impl_version, mvendorid, marchid, mimpid, extensions, fwft })
}

/// The record `<key> <error> <value>` that the probe module writes for one
/// call result, with the error in signed and the value in unsigned decimal.
pub open spec fn record_text(key: Seq<char>, result: SbiCallResult) -> Seq<char> {
    key + seq![' '] + signed_decimal(result.error as int) + seq![' '] + decimal(result.value as nat)
}

pub open spec fn record_lines(keys: Seq<Seq<char>>, results: Seq<SbiCallResult>) -> Seq<Seq<char>> {
    Seq::new(keys.len(), |i: int| record_text(keys[i], results[i]))
}

/// The records of `results` under `keys`, one per line.
pub open spec fn records_text(keys: Seq<Seq<char>>, results: Seq<SbiCallResult>) -> Seq<char> {
    join(record_lines(keys, results), seq!['\n'])
}

/// A live FWFT sample as the probe module writes it.
pub open spec fn fwft_text(cpu: u32, results: Seq<SbiCallResult>) -> Seq<char> {
    "cpu"@ + seq![' '] + decimal(cpu as nat) + seq!['\n'] + records_text(key_views(FEATURE_KEYS@), results)
}

proof fn lemma_decimal_is_field(n: nat)
    ensures
        is_field(decimal(n)),
        is_decimal_digit(decimal(n).last()),
{
    lemma_decimal_digits(n);
    assert forall|i: int| 0 <= i < decimal(n).len() implies !is_ascii_whitespace(#[trigger] decimal(n)[i]) by {
        assert(is_decimal_digit(decimal(n)[i]));
    }
    assert(is_decimal_digit(decimal(n)[decimal(n).len() - 1]));
}

proof fn lemma_signed_decimal_is_field(n: int)
    ensures
        is_field(signed_decimal(n)),
        is_decimal_digit(signed_decimal(n).last()),
{
    if n < 0 {
        let m = (-n) as nat;
        lemma_decimal_is_field(m);
        let t = signed_decimal(n);
        assert(t =~= seq!['-'] + decimal(m));
        assert forall|i: int| 0 <= i < t.len() implies !is_ascii_whitespace(#[trigger] t[i]) by {
            if i > 0 {
                assert(t[i] == decimal(m)[i - 1]);
            }
        }
        assert(t.last() == decimal(m).last());
    } else {
        lemma_decimal_is_field(n as nat);
    }
}

proof fn lemma_record_text(key: Seq<char>, result: SbiCallResult)
    requires
        is_field(key),
    ensures
        is_plain_line(record_text(key, result)),
        spec_parse_record(record_text(key, result), key) == Ok::<SbiCallResult, Seq<char>>(result),
{
    let e = signed_decimal(result.error as int);
    let v = decimal(result.value as nat);
    lemma_signed_decimal_is_field(result.error as int);
    lemma_decimal_is_field(result.value as nat);
    let line = record_text(key, result);
    assert forall|i: int| 0 <= i < line.len() implies line[i] != '\n' by {
        if i < key.len() {
            assert(line[i] == key[i]);
            assert(!is_ascii_whitespace(key[i]));
        } else if i == key.len() {
        } else if i < key.len() + 1 + e.len() {
            assert(line[i] == e[i - key.len() - 1]);
            assert(!is_ascii_whitespace(e[i - key.len() - 1]));
        } else if i == key.len() + 1 + e.len() {
        } else {
            assert(line[i] == v[i - key.len() - 2 - e.len()]);
            assert(!is_ascii_whitespace(v[i - key.len() - 2 - e.len()]));
        }
    }
    assert(line.last() == v.last());
    lemma_fields_of_three(key, e, v);
    lemma_parse_signed_decimal(result.error as int, i64::MIN as int, i64::MAX as int);
    lemma_parse_decimal(result.value as nat, false, 0, u64::MAX as int);
}

proof fn lemma_parse_record_lines(keys: Seq<Seq<char>>, results: Seq<SbiCallResult>)
    requires
        keys.len() == results.len(),
        forall|i: int| 0 <= i < keys.len() ==> is_field(#[trigger] keys[i]),
    ensures
        spec_parse_record_lines(record_lines(keys, results), keys) == Ok::<Seq<SbiCallResult>, Seq<char>>(results),
    decreases keys.len(),
{
    let ls = record_lines(keys, results);
    if keys.len() == 0 {
        assert(ls =~= Seq::<Seq<char>>::empty());
        assert(!any_record(ls));
        assert(results =~= Seq::<SbiCallResult>::empty());
    } else {
        assert(is_field(keys[0]));
        lemma_record_text(keys[0], results[0]);
        lemma_parse_record_lines(keys.drop_first(), results.drop_first());
        assert(ls.drop_first() =~= record_lines(keys.drop_first(), results.drop_first()));
        assert(seq![results[0]] + results.drop_first() =~= results);
    }
}

/// Records written by the probe module are read back exactly: for keys that
/// are single fields, the records text of any results parses to those
/// results, each error kept apart from its value.
pub proof fn records_round_trip(keys: Seq<Seq<char>>, results: Seq<SbiCallResult>)
    requires
        keys.len() == results.len(),
        forall|i: int| 0 <= i < keys.len() ==> is_field(#[trigger] keys[i]),
    ensures
        spec_parse_records(records_text(keys, results), keys) == Ok::<Seq<SbiCallResult>, Seq<char>>(results),
{
    let ls = record_lines(keys, results);
    assert forall|i: int| 0 <= i < ls.len() implies is_plain_line(#[trigger] ls[i]) by {
        assert(is_field(keys[i]));
        lemma_record_text(keys[i], results[i]);
    }
    lemma_lines_of_join(ls);
    lemma_parse_record_lines(keys, results);
}

/// Every key of the extension table is a single field, so each record of
/// the `extensions` parameter can name it.
proof fn lemma_extension_keys_are_fields()
    ensures
        key_views(EXTENSION_KEYS@).len() == 25,
        forall|i: int| 0 <= i < 25 ==> is_field(#[trigger] key_views(EXTENSION_KEYS@)[i]),
{
    reveal_strlit("base");
    reveal_strlit("time");
    reveal_strlit("ipi");
    reveal_strlit("rfence");
    reveal_strlit("hsm");
    reveal_strlit("srst");
    reveal_strlit("pmu");
    reveal_strlit("dbcn");
    reveal_strlit("susp");
    reveal_strlit("cppc");
    reveal_strlit("nacl");
    reveal_strlit("sta");
    reveal_strlit("sse");
    reveal_strlit("fwft");
    reveal_strlit("dbtr");
    reveal_strlit("mpxy");
    reveal_strlit("legacy_set_timer");
    reveal_strlit("legacy_console_putchar");
    reveal_strlit("legacy_console_getchar");
    reveal_strlit("legacy_clear_ipi");
    reveal_strlit("legacy_send_ipi");
    reveal_strlit("legacy_remote_fence_i");
    reveal_strlit("legacy_remote_sfence_vma");
    reveal_strlit("legacy_remote_sfence_vma_asid");
    reveal_strlit("legacy_shutdown");
    let keys = key_views(EXTENSION_KEYS@);
    assert(keys[0] =~= seq!['b', 'a', 's', 'e']);
    assert(keys[1] =~= seq!['t', 'i', 'm', 'e']);
    assert(keys[2] =~= seq!['i', 'p', 'i']);
    assert(keys[3] =~= seq!['r', 'f', 'e', 'n', 'c', 'e']);
    assert(keys[4] =~= seq!['h', 's', 'm']);
    assert(keys[5] =~= seq!['s', 'r', 's', 't']);
    assert(keys[6] =~= seq!['p', 'm', 'u']);
    assert(keys[7] =~= seq!['d', 'b', 'c', 'n']);
    assert(keys[8] =~= seq!['s', 'u', 's', 'p']);
    assert(keys[9] =~= seq!['c', 'p', 'p', 'c']);
    assert(keys[10] =~= seq!['n', 'a', 'c', 'l']);
    assert(keys[11] =~= seq!['s', 't', 'a']);
    assert(keys[12] =~= seq!['s', 's', 'e']);
    assert(keys[13] =~= seq!['f', 'w', 'f', 't']);
    assert(keys[14] =~= seq!['d', 'b', 't', 'r']);
    assert(keys[15] =~= seq!['m', 'p', 'x', 'y']);
    assert(keys[16] =~= seq!['l', 'e', 'g', 'a', 'c', 'y', '_', 's', 'e', 't', '_', 't', 'i', 'm', 'e', 'r']);
    assert(keys[17] =~= seq!['l', 'e', 'g', 'a', 'c', 'y', '_', 'c', 'o', 'n', 's', 'o', 'l', 'e', '_', 'p', 'u', 't', 'c', 'h', 'a', 'r']);
    assert(keys[18] =~= seq!['l', 'e', 'g', 'a', 'c', 'y', '_', 'c', 'o', 'n', 's', 'o', 'l', 'e', '_', 'g', 'e', 't', 'c', 'h', 'a', 'r']);
    assert(keys[19] =~= seq!['l', 'e', 'g', 'a', 'c', 'y', '_', 'c', 'l', 'e', 'a', 'r', '_', 'i', 'p', 'i']);
    assert(keys[20] =~= seq!['l', 'e', 'g', 'a', 'c', 'y', '_', 's', 'e', 'n', 'd', '_', 'i', 'p', 'i']);
    assert(keys[21] =~= seq!['l', 'e', 'g', 'a', 'c', 'y', '_', 'r', 'e', 'm', 'o', 't', 'e', '_', 'f', 'e', 'n', 'c', 'e', '_', 'i']);
    assert(keys[22] =~= seq!['l', 'e', 'g', 'a', 'c', 'y', '_', 'r', 'e', 'm', 'o', 't', 'e', '_', 's', 'f', 'e', 'n', 'c', 'e', '_', 'v', 'm', 'a']);
    assert(keys[23] =~= seq!['l', 'e', 'g', 'a', 'c', 'y', '_', 'r', 'e', 'm', 'o', 't', 'e', '_', 's', 'f', 'e', 'n', 'c', 'e', '_', 'v', 'm', 'a', '_', 'a', 's', 'i', 'd']);
    assert(keys[24] =~= seq!['l', 'e', 'g', 'a', 'c', 'y', '_', 's', 'h', 'u', 't', 'd', 'o', 'w', 'n']);
    assert forall|i: int| 0 <= i < 25 implies is_field(#[trigger] keys[i]) by {
        assert(0 <= i < 25);
    }
}

/// The records that the probe module writes for the extensions are read
/// back each under its own key: for any results of the 25 calls, the
/// `extensions` parameter holding their records reads as those results in
/// the order of the extension table, the result of the i-th extension from
/// the record of the i-th key.
pub proof fn extensions_round_trip(results: Seq<SbiCallResult>)
    requires
        results.len() == 25,
    ensures
        spec_read_extensions(Ok::<Seq<char>, Seq<char>>(records_text(key_views(EXTENSION_KEYS@), results)))
            == Ok::<Seq<SbiCallResult>, Seq<char>>(results),
{
    lemma_extension_keys_are_fields();
    records_round_trip(key_views(EXTENSION_KEYS@), results);
}

/// Probing keeps each extension's result where its key puts it: when the
/// `extensions` parameter holds the records of some results and the probe
/// succeeds, the report's i-th extension holds the i-th result.
pub proof fn probe_keeps_extension_results(t: ParameterTexts, info: SbiInformation, results: Seq<SbiCallResult>)
    requires
        results.len() == 25,
        read_view(t.extensions) == Ok::<Seq<char>, Seq<char>>(records_text(key_views(EXTENSION_KEYS@), results)),
        probe_outcome(Some(t), Ok::<SbiInformation, ProbeError>(info)),
    ensures
        forall|i: int| 0 <= i < 25 ==> #[trigger] info.extensions@[i] == results[i],
{
    extensions_round_trip(results);
    assert(info.extensions@ == results);
}

/// Every value of a numeric parameter is read back exactly, however high
/// its bits: the decimal text of the value with its final line feed parses
/// to the value.
pub proof fn parameter_round_trip(value: u64)
    ensures
        spec_parse_parameter(decimal(value as nat) + seq!['\n']) == Ok::<u64, ParseIntError>(value),
{
    let d = decimal(value as nat);
    let text = d + seq!['\n'];
    lemma_decimal_is_field(value as nat);
    lemma_decimal_digits(value as nat);
    assert(d[0] == text[0]);
    assert(is_decimal_digit(d[0]));
    assert(trim_start(text) == text);
    assert(text.drop_last() =~= d);
    assert(trim_end(text) == trim_end(d));
    assert(trim_end(d) == d);
    lemma_parse_decimal(value as nat, false, 0, u64::MAX as int);
}

/// A live FWFT sample written by the probe module is read back exactly:
/// its CPU and the result of every feature's call.
pub proof fn fwft_round_trip(cpu: u32, results: Seq<SbiCallResult>)
    requires
        results.len() == 6,
    ensures
        spec_parse_fwft(fwft_text(cpu, results)) == Ok::<(u32, Seq<SbiCallResult>), Seq<char>>((cpu, results)),
{
    reveal_strlit("cpu");
    reveal_strlit("\n");
    reveal_strlit("misaligned_exc_deleg");
    reveal_strlit("landing_pad");
    reveal_strlit("shadow_stack");
    reveal_strlit("double_trap");
    reveal_strlit("pte_ad_hw_updating");
    reveal_strlit("pointer_masking_pmlen");
    let keys = key_views(FEATURE_KEYS@);
    assert(keys.len() == 6);
    assert(keys[0] =~= seq!['m', 'i', 's', 'a', 'l', 'i', 'g', 'n', 'e', 'd', '_', 'e', 'x', 'c', '_', 'd', 'e', 'l', 'e', 'g']);
    assert(keys[1] =~= seq!['l', 'a', 'n', 'd', 'i', 'n', 'g', '_', 'p', 'a', 'd']);
    assert(keys[2] =~= seq!['s', 'h', 'a', 'd', 'o', 'w', '_', 's', 't', 'a', 'c', 'k']);
    assert(keys[3] =~= seq!['d', 'o', 'u', 'b', 'l', 'e', '_', 't', 'r', 'a', 'p']);
    assert(keys[4] =~= seq!['p', 't', 'e', '_', 'a', 'd', '_', 'h', 'w', '_', 'u', 'p', 'd', 'a', 't', 'i', 'n', 'g']);
    assert(keys[5] =~= seq!['p', 'o', 'i', 'n', 't', 'e', 'r', '_', 'm', 'a', 's', 'k', 'i', 'n', 'g', '_', 'p', 'm', 'l', 'e', 'n']);
    assert forall|i: int| 0 <= i < keys.len() implies is_field(#[trigger] keys[i]) by {
        assert(0 <= i < 6);
    }
    let word = "cpu"@;
    assert(word =~= seq!['c', 'p', 'u']);
    assert(is_field(word));
    let number = decimal(cpu as nat);
    lemma_decimal_is_field(cpu as nat);
    let first = word + seq![' '] + number;
    let rest = record_lines(keys, results);
    let all = seq![first] + rest;
    assert forall|i: int| 0 <= i < rest.len() implies is_plain_line(#[trigger] rest[i]) by {
        assert(is_field(keys[i]));
        lemma_record_text(keys[i], results[i]);
    }
    assert forall|i: int| 0 <= i < first.len() implies first[i] != '\n' by {
        if i < 3 {
        } else if i == 3 {
        } else {
            assert(first[i] == number[i - 4]);
            assert(!is_ascii_whitespace(number[i - 4]));
        }
    }
    assert(first.last() == number.last());
    assert(is_plain_line(first));
    assert forall|i: int| 0 <= i < all.len() implies is_plain_line(#[trigger] all[i]) by {
        if i > 0 {
            assert(all[i] == rest[i - 1]);
        }
    }
    lemma_join_front(all, seq!['\n']);
    assert(all.drop_first() =~= rest);
    assert(fwft_text(cpu, results) =~= join(all, seq!['\n']));
    lemma_lines_of_join(all);
    lemma_fields_of_two(word, number);
    lemma_parse_decimal(cpu as nat, false, 0, u32::MAX as int);
    records_round_trip(keys, results);
    let ls = lines(fwft_text(cpu, results));
    assert(ls == all);
    assert(ls[0] == first);
    assert(ls.drop_first() =~= rest);
    assert("\n"@ =~= seq!['\n']);
    assert(join(ls.drop_first(), "\n"@) == records_text(keys, results));
    assert(fields(ls[0]) == seq![word, number]);
    assert(fields(ls[0])[0] == "cpu"@);
    assert(spec_parse_u32(number) == Ok::<u32, ParseIntError>(cpu));
}

/// Whether two lists of lines hold, line by line, the same fields and the
/// same blank lines.
pub open spec fn equivalent_lines(a: Seq<Seq<char>>, b: Seq<Seq<char>>) -> bool {
    &&& a.len() == b.len()
    &&& forall|i: int|
        0 <= i < a.len() ==> fields(#[trigger] a[i]) == fields(b[i]) && is_blank(a[i]) == is_blank(
            b[i],
        )
}

proof fn lemma_any_record(lines: Seq<Seq<char>>)
    ensures
        any_record(lines) <==> exists|i: int| 0 <= i < lines.len() && !is_blank(#[trigger] lines[i]),
    decreases lines.len(),
{
    if lines.len() > 0 {
        lemma_any_record(lines.drop_first());
        if any_record(lines.drop_first()) {
            let i = choose|i: int| 0 <= i < lines.drop_first().len() && !is_blank(#[trigger] lines.drop_first()[i]);
            assert(lines[i + 1] == lines.drop_first()[i]);
        }
        if exists|i: int| 0 <= i < lines.len() && !is_blank(#[trigger] lines[i]) {
            let i = choose|i: int| 0 <= i < lines.len() && !is_blank(#[trigger] lines[i]);
            if i > 0 {
                assert(lines.drop_first()[i - 1] == lines[i]);
            }
        }
    }
}

proof fn lemma_parse_equivalent(a: Seq<Seq<char>>, b: Seq<Seq<char>>, keys: Seq<Seq<char>>)
    requires
        equivalent_lines(a, b),
    ensures
        spec_parse_record_lines(a, keys) == spec_parse_record_lines(b, keys),
    decreases keys.len(),
{
    if keys.len() == 0 {
        lemma_any_record(a);
        lemma_any_record(b);
        if any_record(a) {
            let i = choose|i: int| 0 <= i < a.len() && !is_blank(#[trigger] a[i]);
            assert(!is_blank(b[i]));
        }
        if any_record(b) {
            let i = choose|i: int| 0 <= i < b.len() && !is_blank(#[trigger] b[i]);
            assert(fields(a[i]) == fields(b[i]));
        }
    } else if a.len() > 0 {
        assert(fields(a[0]) == fields(b[0]));
        assert(spec_parse_record(a[0], keys[0]) == spec_parse_record(b[0], keys[0]));
        assert forall|i: int| 0 <= i < a.drop_first().len() implies fields(#[trigger] a.drop_first()[i])
            == fields(b.drop_first()[i]) && is_blank(a.drop_first()[i]) == is_blank(b.drop_first()[i]) by {
            assert(fields(a[i + 1]) == fields(b[i + 1]));
        }
        lemma_parse_equivalent(a.drop_first(), b.drop_first(), keys.drop_first());
    }
}

proof fn lemma_parse_extended(lines: Seq<Seq<char>>, extra: Seq<Seq<char>>, keys: Seq<Seq<char>>)
    requires
        spec_parse_record_lines(lines, keys) is Ok,
    ensures
        !any_record(extra) ==> spec_parse_record_lines(lines + extra, keys) == spec_parse_record_lines(lines, keys),
        any_record(extra) ==> spec_parse_record_lines(lines + extra, keys) is Err,
    decreases keys.len(),
{
    let all = lines + extra;
    if keys.len() == 0 {
        lemma_any_record(lines);
        lemma_any_record(extra);
        lemma_any_record(all);
        if any_record(extra) {
            let i = choose|i: int| 0 <= i < extra.len() && !is_blank(#[trigger] extra[i]);
            assert(all[lines.len() + i] == extra[i]);
        }
        if any_record(all) {
            let i = choose|i: int| 0 <= i < all.len() && !is_blank(#[trigger] all[i]);
            if i < lines.len() {
                assert(all[i] == lines[i]);
            } else {
                assert(all[i] == extra[i - lines.len()]);
            }
        }
    } else {
        assert(lines.len() > 0);
        assert(all[0] == lines[0]);
        assert(all.drop_first() =~= lines.drop_first() + extra);
        lemma_parse_extended(lines.drop_first(), extra, keys.drop_first());
    }
}

/// Once a records text is read, what may follow it on further lines is
/// settled: lines that hold nothing but whitespace leave the results as they
/// were, and a line that holds more makes the text fail.
pub proof fn records_trailing_lines(
    text: Seq<char>,
    keys: Seq<Seq<char>>,
    blank: Seq<char>,
    extra: Seq<char>,
)
    requires
        spec_parse_records(text, keys) is Ok,
        forall|i: int| 0 <= i < lines(blank).len() ==> is_blank(#[trigger] lines(blank)[i]),
        forall|i: int| 0 <= i < extra.len() ==> extra[i] != '\n',
        !is_blank(extra),
    ensures
        spec_parse_records(text + seq!['\n'] + blank, keys) == spec_parse_records(text, keys),
        spec_parse_records(text + seq!['\n'] + extra, keys) is Err,
{
    let ended = lines(text + seq!['\n']);
    let own = lines(text);
    lemma_lines_terminated(text);
    if text.len() == 0 || text.last() == '\n' {
        let empty_line = Seq::<char>::empty();
        assert(trim(empty_line) =~= empty_line);
        assert(is_blank(empty_line));
        assert(!any_record(seq![empty_line].drop_first()));
        assert(!any_record(seq![empty_line]));
        lemma_parse_extended(own, seq![empty_line], keys);
    } else {
        let last = own.len() - 1;
        lemma_strip_cr(own[last]);
        assert forall|i: int| 0 <= i < ended.len() implies fields(#[trigger] ended[i]) == fields(own[i])
            && is_blank(ended[i]) == is_blank(own[i]) by {
            if i < last {
                assert(ended[i] == own[i]);
            } else {
                assert(ended[i] == strip_cr(own[last]));
            }
        }
        lemma_parse_equivalent(ended, own, keys);
    }
    lemma_lines_split(text, blank);
    lemma_any_record(lines(blank));
    lemma_parse_extended(ended, lines(blank), keys);
    if extra.len() == 0 {
        assert(trim(extra) =~= extra);
    }
    lemma_single_line(extra);
    lemma_lines_split(text, extra);
    assert(seq![extra].drop_first() =~= Seq::<Seq<char>>::empty());
    assert(any_record(seq![extra]));
    lemma_parse_extended(ended, seq![extra], keys);
}

} // verus!
