//! The standard firmware features (FWFT) that the live sample reports.
use vstd::prelude::*;

verus! {

/// How a feature's value reads: as on/off, or as a pointer-masking length.
#[derive(Clone, Copy, Debug, PartialEq, Eq, Structural)]
pub enum Kind {
    Boolean,
    Pmlen,
}

/// A feature: its key in the sample, the message that names it, and how its
/// value reads.
#[derive(Clone, Copy, Debug)]
pub struct Feature {
    pub key: &'static str,
    pub message: &'static str,
    pub kind: Kind,
}

/// How many features the sample reports.
pub const FEATURE_COUNT: usize = 6;

/// The keys of the features, in the order of the sample's records.
pub const FEATURE_KEYS: [&'static str; 6] = [
    "misaligned_exc_deleg",
    "landing_pad",
    "shadow_stack",
    "double_trap",
    "pte_ad_hw_updating",
    "pointer_masking_pmlen",
];

/// The messages that name the features, in the same order.
pub const FEATURE_MESSAGES: [&'static str; 6] = [
    "Misaligned Exception Delegation",
    "Landing Pad",
    "Shadow Stack",
    "Double Trap",
    "PTE A/D Hardware Updating",
    "Pointer Masking PMLEN",
];

/// How each feature's value reads: all are on/off but the last, which is a
/// pointer-masking length.
pub open spec fn spec_feature_kind(index: int) -> Kind {
    if index == 5 {
        Kind::Pmlen
    } else {
        Kind::Boolean
    }
}

/// The feature at `index` of the table.
pub open spec fn spec_feature(index: int) -> Feature {
    Feature {
        key: FEATURE_KEYS@[index],
        message: FEATURE_MESSAGES@[index],
        kind: spec_feature_kind(index),
    }
}

/// The table of the standard features.
pub fn features() -> (table: [Feature; 6])
    ensures
        forall|i: int| 0 <= i < 6 ==> #[trigger] table@[i] == spec_feature(i),
{
    let keys = FEATURE_KEYS;
    let messages = FEATURE_MESSAGES;
    let table = [
        Feature { key: keys[0], message: messages[0], kind: Kind::Boolean },
        Feature { key: keys[1], message: messages[1], kind: Kind::Boolean },
        Feature { key: keys[2], message: messages[2], kind: Kind::Boolean },
        Feature { key: keys[3], message: messages[3], kind: Kind::Boolean },
        Feature { key: keys[4], message: messages[4], kind: Kind::Boolean },
        Feature { key: keys[5], message: messages[5], kind: Kind::Pmlen },
    ];
    assert forall|i: int| 0 <= i < 6 implies #[trigger] table@[i] == spec_feature(i) by {
        assert(table@[i].key == keys@[i]);
    }
    table
}

} // verus!
