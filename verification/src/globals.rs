//! What is known of the service in the whole process: its identifiers, and how
//! many of its objects are in use.
use vstd::prelude::*;

verus! {

/// The class of the text service.
pub const CLSID_KOYUBI_TEXT_SERVICE: u128 = 0xa7b3c4d5_e6f7_4890_ab12_cd34ef567890;

/// The profile for Japanese.
pub const GUID_KOYUBI_PROFILE: u128 = 0xb8c4d5e6_f708_4901_bc23_de45f0678901;

/// The button in the language bar.
pub const GUID_LANGBAR_ITEM_BUTTON: u128 = 0xc9d5e6f7_0819_4a12_cd34_ef5678901234;

/// Japanese.
pub const LANGID_JA: u16 = 0x0411;

/// Counts one more object in use; the count wraps around.
pub fn inc_ref_count(count: &mut u32)
    ensures
        *final(count) == (*old(count) + 1) % 0x1_0000_0000,
{
    if *count == u32::MAX {
        *count = 0;
    } else {
        *count = *count + 1;
    }
}

/// Counts one object less in use; the count wraps around.
pub fn dec_ref_count(count: &mut u32)
    ensures
        *final(count) == (*old(count) - 1) % 0x1_0000_0000,
{
    if *count == 0 {
        *count = u32::MAX;
    } else {
        *count = *count - 1;
    }
}

/// The number of objects in use.
pub fn ref_count(count: &u32) -> (r: u32)
    ensures
        r == *count,
{
    *count
}

/// Whether the service can be unloaded: none of its objects is in use.
pub fn can_unload(count: u32) -> (r: bool)
    ensures
        r == (count == 0),
{
    count == 0
}

/// An object that is taken and given back leaves the number as it was.
pub proof fn law_count_balanced(count: u32)
    ensures
        ((count + 1) % 0x1_0000_0000 - 1) % 0x1_0000_0000 == count,
{
}

} // verus!
