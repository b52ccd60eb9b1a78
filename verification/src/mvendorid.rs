//! Names of machine vendors (`mvendorid`), which hold a JEDEC JEP106
//! manufacturer code: the continuation bank above bit 7, the ID below it.
use vstd::prelude::*;

verus! {

/// The manufacturer that the JEP106 table of the `jep106` crate lists under
/// continuation code `bank` and ID `id`, if it lists one.
pub uninterp spec fn jep106_manufacturer(bank: u8, id: u8) -> Option<Seq<char>>;

/// Looks up `bank` and `id` with `jep106::JEP106Code::new(bank, id).get()`.
/// Claimed: the result is the manufacturer the crate's table lists there,
/// and the table has seventeen banks, so a higher bank lists nothing.
#[verifier::external_body]
fn jep106_lookup(bank: u8, id: u8) -> (name: Option<&'static str>)
    ensures
        match name {
            Some(n) => jep106_manufacturer(bank, id) == Some(n@),
            None => jep106_manufacturer(bank, id) is None,
        },
        bank >= 17 ==> name is None,
{
    jep106::JEP106Code::new(bank, id).get()
}

/// The JEP106 continuation bank that the vendor ID `id` encodes, when it
/// fits a byte.
pub open spec fn vendor_bank(id: usize) -> int {
    (id >> 7usize) as int
}

/// The vendor name that the vendor ID `id` encodes: nothing when its bank
/// does not fit a byte, else the JEP106 manufacturer of its bank and ID.
pub open spec fn spec_vendor_name(id: usize) -> Option<Seq<char>> {
    if vendor_bank(id) > 255 {
        None
    } else {
        jep106_manufacturer(vendor_bank(id) as u8, (id & 0x7fusize) as u8)
    }
}

/// The name of the vendor with ID `id`, if the JEP106 table lists it.
pub fn vendor_name(id: usize) -> (name: Option<&'static str>)
    ensures
        match name {
            Some(n) => spec_vendor_name(id) == Some(n@),
            None => spec_vendor_name(id) is None,
        },
{
    let bank = id >> 7usize;
    if bank > 255 {
        return None;
    }
    jep106_lookup(bank as u8, (id & 0x7fusize) as u8)
}

} // verus!
