//! The keys of the registry under which the service is registered.
use crate::numerals;
use crate::numerals::hex_text;
use crate::text::{chars_of, concat2, string_of};
use vstd::prelude::*;

verus! {

/// An identifier as text: `{XXXXXXXX-XXXX-XXXX-XXXX-XXXXXXXXXXXX}`.
pub open spec fn guid_text(guid: u128) -> Seq<char> {
    let h = numerals::hex(guid as nat, 32);
    "{"@ + h.subrange(0, 8) + "-"@ + h.subrange(8, 12) + "-"@ + h.subrange(12, 16) + "-"@
        + h.subrange(16, 20) + "-"@ + h.subrange(20, 32) + "}"@
}

proof fn lemma_hex_len(n: nat, width: nat)
    ensures
        numerals::hex(n, width).len() == width,
    decreases width,
{
    if width > 0 {
        lemma_hex_len(n / 16, (width - 1) as nat);
    }
}

/// An identifier as text: `{XXXXXXXX-XXXX-XXXX-XXXX-XXXXXXXXXXXX}`.
pub fn guid_to_string(guid: u128) -> (r: String)
    ensures
        r@ == guid_text(guid),
{
    proof {
        lemma_hex_len(guid as nat, 32);
    }
    let digits = chars_of(hex_text(guid, 32).as_str());
    let mut out = concat2("{", string_of(&digits, 0, 8).as_str());
    out.append("-");
    out.append(string_of(&digits, 8, 12).as_str());
    out.append("-");
    out.append(string_of(&digits, 12, 16).as_str());
    out.append("-");
    out.append(string_of(&digits, 16, 20).as_str());
    out.append("-");
    out.append(string_of(&digits, 20, 32).as_str());
    out.append("}");
    out
}

/// The key of a class.
pub fn class_key(guid: u128) -> (r: String)
    ensures
        r@ == r"CLSID\"@ + guid_text(guid),
{
    concat2(r"CLSID\", guid_to_string(guid).as_str())
}

/// The key of a class's library.
pub fn library_key(guid: u128) -> (r: String)
    ensures
        r@ == r"CLSID\"@ + guid_text(guid) + r"\InprocServer32"@,
{
    concat2(class_key(guid).as_str(), r"\InprocServer32")
}

/// An identifier's text is its 32 hexadecimal digits in groups of eight, four,
/// four, four and twelve, with a hyphen between two groups and braces around all.
pub proof fn law_identifier(guid: u128)
    ensures
        ({
            let s = guid_text(guid);
            &&& s.len() == 38
            &&& s[0] == '{' && s[37] == '}'
            &&& s[9] == '-' && s[14] == '-' && s[19] == '-' && s[24] == '-'
            &&& s.subrange(1, 9) + s.subrange(10, 14) + s.subrange(15, 19) + s.subrange(20, 24)
                + s.subrange(25, 37) == numerals::hex(guid as nat, 32)
        }),
{
    reveal_strlit("{");
    reveal_strlit("-");
    reveal_strlit("}");
    lemma_hex_len(guid as nat, 32);
    let s = guid_text(guid);
    let h = numerals::hex(guid as nat, 32);
    assert(s.subrange(1, 9) =~= h.subrange(0, 8));
    assert(s.subrange(10, 14) =~= h.subrange(8, 12));
    assert(s.subrange(15, 19) =~= h.subrange(12, 16));
    assert(s.subrange(20, 24) =~= h.subrange(16, 20));
    assert(s.subrange(25, 37) =~= h.subrange(20, 32));
    assert(s.subrange(1, 9) + s.subrange(10, 14) + s.subrange(15, 19) + s.subrange(20, 24)
        + s.subrange(25, 37) =~= h);
}

} // verus!
