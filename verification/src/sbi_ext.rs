//! The SBI extensions that are probed: the sixteen current ones, then the
//! nine deprecated legacy calls.
use vstd::prelude::*;

verus! {

/// An extension: the key under which the probe module reports it, and the
/// message that names it to the user.
#[derive(Clone, Copy, Debug)]
pub struct Extension {
    pub key: &'static str,
    pub message: &'static str,
}

impl Extension {
    pub fn new(key: &'static str, message: &'static str) -> (extension: Self)
        ensures
            extension.key == key,
            extension.message == message,
    {
        Self { key, message }
    }
}

/// How many of the extensions are current, not legacy; they come first.
pub const STANDARD_EXTENSION_COUNT: usize = 16;

/// How many extensions there are in all.
pub const EXTENSION_COUNT: usize = 25;

/// The keys under which the probe module reports the extensions, in the
/// order of its records.
pub const EXTENSION_KEYS: [&'static str; 25] = [
    "base",
    "time",
    "ipi",
    "rfence",
    "hsm",
    "srst",
    "pmu",
    "dbcn",
    "susp",
    "cppc",
    "nacl",
    "sta",
    "sse",
    "fwft",
    "dbtr",
    "mpxy",
    "legacy_set_timer",
    "legacy_console_putchar",
    "legacy_console_getchar",
    "legacy_clear_ipi",
    "legacy_send_ipi",
    "legacy_remote_fence_i",
    "legacy_remote_sfence_vma",
    "legacy_remote_sfence_vma_asid",
    "legacy_shutdown",
];

/// The messages that name the extensions, in the same order.
pub const EXTENSION_MESSAGES: [&'static str; 25] = [
    "Base",
    "Timer",
    "Inter-processor Interrupt",
    "Remote Fence",
    "Hart State Management",
    "System Reset",
    "Performance Monitoring Unit",
    "Debug Console",
    "System Suspend",
    "Collab. Processor Perf. Control",
    "Nested Acceleration",
    "Steal-time Accounting",
    "Supervisor Software Events",
    "Firmware Features",
    "Debug Triggers",
    "Message Proxy",
    "Legacy Set Timer",
    "Legacy Console Put Character",
    "Legacy Console Get Character",
    "Legacy Clear Inter-processor Interrupt",
    "Legacy Send Inter-processor Interrupt",
    "Legacy Remote Instruction Fence",
    "Legacy Remote Virtual-memory Fence",
    "Legacy Remote Virtual-memory Fence with ASID",
    "Legacy Shutdown",
];

/// The extension at `index` of the table.
pub open spec fn spec_extension(index: int) -> Extension {
    Extension { key: EXTENSION_KEYS@[index], message: EXTENSION_MESSAGES@[index] }
}

/// The table of all extensions, current ones first.
pub fn extensions() -> (table: [Extension; 25])
    ensures
        forall|i: int| 0 <= i < 25 ==> #[trigger] table@[i] == spec_extension(i),
{
    let keys = EXTENSION_KEYS;
    let messages = EXTENSION_MESSAGES;
    let table = [
        Extension::new(keys[0], messages[0]),
        Extension::new(keys[1], messages[1]),
        Extension::new(keys[2], messages[2]),
        Extension::new(keys[3], messages[3]),
        Extension::new(keys[4], messages[4]),
        Extension::new(keys[5], messages[5]),
        Extension::new(keys[6], messages[6]),
        Extension::new(keys[7], messages[7]),
        Extension::new(keys[8], messages[8]),
        Extension::new(keys[9], messages[9]),
        Extension::new(keys[10], messages[10]),
        Extension::new(keys[11], messages[11]),
        Extension::new(keys[12], messages[12]),
        Extension::new(keys[13], messages[13]),
        Extension::new(keys[14], messages[14]),
        Extension::new(keys[15], messages[15]),
        Extension::new(keys[16], messages[16]),
        Extension::new(keys[17], messages[17]),
        Extension::new(keys[18], messages[18]),
        Extension::new(keys[19], messages[19]),
        Extension::new(keys[20], messages[20]),
        Extension::new(keys[21], messages[21]),
        Extension::new(keys[22], messages[22]),
        Extension::new(keys[23], messages[23]),
        Extension::new(keys[24], messages[24]),
    ];
    assert forall|i: int| 0 <= i < 25 implies #[trigger] table@[i] == spec_extension(i) by {
        assert(table@[i].key == keys@[i]);
    }
    table
}

/// The extensions that are reported: the current ones, and the legacy ones
/// after them when `legacy` asks for them.
pub fn selected(legacy: bool) -> (chosen: Vec<Extension>)
    ensures
        chosen.len() == if legacy { EXTENSION_COUNT } else { STANDARD_EXTENSION_COUNT },
        forall|i: int| 0 <= i < chosen.len() ==> #[trigger] chosen@[i] == spec_extension(i),
{
    let table = extensions();
    let count: usize = if legacy { EXTENSION_COUNT } else { STANDARD_EXTENSION_COUNT };
    let mut chosen: Vec<Extension> = Vec::new();
    let mut i: usize = 0;
    while i < count
        invariant
            count <= 25,
            i <= count,
            chosen.len() == i,
            forall|j: int| 0 <= j < 25 ==> #[trigger] table@[j] == spec_extension(j),
            forall|j: int| 0 <= j < i ==> #[trigger] chosen@[j] == spec_extension(j),
        decreases count - i,
    {
        chosen.push(table[i]);
        i = i + 1;
    }
    chosen
}

/// No two extensions share a key, so each record of the probe module names
/// exactly one extension.
#[verifier::rlimit(100)]
pub proof fn extension_keys_are_unique()
    ensures
        forall|i: int, j: int|
            0 <= i < j < 25 ==> #[trigger] EXTENSION_KEYS@[i]@ != #[trigger] EXTENSION_KEYS@[j]@,
{
        broadcast use vstd::string::group_string_axioms;
        reveal_strlit("base");
        reveal_strlit("time");
        reveal_strlit("ipi");
        reveal_strlit("rfence");
        reveal_strlit("hsm");
        reveal_strlit("srst");
        reveal_strlit("pmu");
        reveal_strlit("dbcn");
        reveal_strlit("susp");
        reveal_strlit("cppc");
        reveal_strlit("nacl");
        reveal_strlit("sta");
        reveal_strlit("sse");
        reveal_strlit("fwft");
        reveal_strlit("dbtr");
        reveal_strlit("mpxy");
        reveal_strlit("legacy_set_timer");
        reveal_strlit("legacy_console_putchar");
        reveal_strlit("legacy_console_getchar");
        reveal_strlit("legacy_clear_ipi");
        reveal_strlit("legacy_send_ipi");
        reveal_strlit("legacy_remote_fence_i");
        reveal_strlit("legacy_remote_sfence_vma");
        reveal_strlit("legacy_remote_sfence_vma_asid");
        reveal_strlit("legacy_shutdown");
    let keys = EXTENSION_KEYS@;
    assert(keys[0]@ =~= seq!['b', 'a', 's', 'e']);
    assert(keys[1]@ =~= seq!['t', 'i', 'm', 'e']);
    assert(keys[2]@ =~= seq!['i', 'p', 'i']);
    assert(keys[3]@ =~= seq!['r', 'f', 'e', 'n', 'c', 'e']);
    assert(keys[4]@ =~= seq!['h', 's', 'm']);
    assert(keys[5]@ =~= seq!['s', 'r', 's', 't']);
    assert(keys[6]@ =~= seq!['p', 'm', 'u']);
    assert(keys[7]@ =~= seq!['d', 'b', 'c', 'n']);
    assert(keys[8]@ =~= seq!['s', 'u', 's', 'p']);
    assert(keys[9]@ =~= seq!['c', 'p', 'p', 'c']);
    assert(keys[10]@ =~= seq!['n', 'a', 'c', 'l']);
    assert(keys[11]@ =~= seq!['s', 't', 'a']);
    assert(keys[12]@ =~= seq!['s', 's', 'e']);
    assert(keys[13]@ =~= seq!['f', 'w', 'f', 't']);
    assert(keys[14]@ =~= seq!['d', 'b', 't', 'r']);
    assert(keys[15]@ =~= seq!['m', 'p', 'x', 'y']);
    assert(keys[16]@ =~= seq!['l', 'e', 'g', 'a', 'c', 'y', '_', 's', 'e', 't', '_', 't', 'i', 'm', 'e', 'r']);
    assert(keys[17]@ =~= seq!['l', 'e', 'g', 'a', 'c', 'y', '_', 'c', 'o', 'n', 's', 'o', 'l', 'e', '_', 'p', 'u', 't', 'c', 'h', 'a', 'r']);
    assert(keys[18]@ =~= seq!['l', 'e', 'g', 'a', 'c', 'y', '_', 'c', 'o', 'n', 's', 'o', 'l', 'e', '_', 'g', 'e', 't', 'c', 'h', 'a', 'r']);
    assert(keys[19]@ =~= seq!['l', 'e', 'g', 'a', 'c', 'y', '_', 'c', 'l', 'e', 'a', 'r', '_', 'i', 'p', 'i']);
    assert(keys[20]@ =~= seq!['l', 'e', 'g', 'a', 'c', 'y', '_', 's', 'e', 'n', 'd', '_', 'i', 'p', 'i']);
    assert(keys[21]@ =~= seq!['l', 'e', 'g', 'a', 'c', 'y', '_', 'r', 'e', 'm', 'o', 't', 'e', '_', 'f', 'e', 'n', 'c', 'e', '_', 'i']);
    assert(keys[22]@ =~= seq!['l', 'e', 'g', 'a', 'c', 'y', '_', 'r', 'e', 'm', 'o', 't', 'e', '_', 's', 'f', 'e', 'n', 'c', 'e', '_', 'v', 'm', 'a']);
    assert(keys[23]@ =~= seq!['l', 'e', 'g', 'a', 'c', 'y', '_', 'r', 'e', 'm', 'o', 't', 'e', '_', 's', 'f', 'e', 'n', 'c', 'e', '_', 'v', 'm', 'a', '_', 'a', 's', 'i', 'd']);
    assert(keys[24]@ =~= seq!['l', 'e', 'g', 'a', 'c', 'y', '_', 's', 'h', 'u', 't', 'd', 'o', 'w', 'n']);
    assert forall|i: int, j: int| 0 <= i < j < 25 implies #[trigger] EXTENSION_KEYS@[i]@ != #[trigger] EXTENSION_KEYS@[j]@ by {
        assert(i == 0 || i == 1 || i == 2 || i == 3 || i == 4 || i == 5 || i == 6 || i == 7 || i == 8 || i == 9 || i == 10 || i == 11 || i == 12 || i == 13 || i == 14 || i == 15 || i == 16 || i == 17 || i == 18 || i == 19 || i == 20 || i == 21 || i == 22 || i == 23 || i == 24);
        assert(j == 0 || j == 1 || j == 2 || j == 3 || j == 4 || j == 5 || j == 6 || j == 7 || j == 8 || j == 9 || j == 10 || j == 11 || j == 12 || j == 13 || j == 14 || j == 15 || j == 16 || j == 17 || j == 18 || j == 19 || j == 20 || j == 21 || j == 22 || j == 23 || j == 24);
    }
}

} // verus!
