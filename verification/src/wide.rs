//! Text as the 16-bit units that the Windows interfaces take.
use vstd::prelude::*;

verus! {

/// The UTF-16 units of a character: one, or a surrogate pair.
pub open spec fn char_units(c: char) -> Seq<u16> {
    if (c as u32) < 0x10000 {
        seq![c as u32 as u16]
    } else {
        seq![
            (0xD800 + (c as u32 - 0x10000) / 0x400) as u16,
            (0xDC00 + (c as u32 - 0x10000) % 0x400) as u16,
        ]
    }
}

/// The UTF-16 units of text.
pub open spec fn utf16(s: Seq<char>) -> Seq<u16>
    decreases s.len(),
{
    if s.len() == 0 {
        Seq::empty()
    } else {
        utf16(s.drop_last()) + char_units(s.last())
    }
}

/// The UTF-16 units of text.
pub fn to_wide(s: &str) -> (r: Vec<u16>)
    ensures
        r@ == utf16(s@),
{
    let mut out: Vec<u16> = Vec::new();
    for c in it: s.chars()
        invariant
            it.seq() == s@,
            out@ == utf16(s@.take(it.index() as int)),
    {
        let ghost n = it.index() as int;
        let ghost before = out@;
        let cp: u32 = c as u32;
        assert(s@.take(n + 1).drop_last() =~= s@.take(n));
        assert(s@.take(n + 1).last() == c);
        if cp < 0x10000 {
            out.push(cp as u16);
            assert(out@ =~= before + char_units(c));
        } else {
            let rest: u32 = cp - 0x10000;
            out.push((0xD800 + rest / 0x400) as u16);
            out.push((0xDC00 + rest % 0x400) as u16);
            assert(out@ =~= before + char_units(c));
        }
    }
    assert(s@.take(s@.len() as int) =~= s@);
    out
}

/// The UTF-16 units of text, with a zero behind them.
pub fn to_wide_null(s: &str) -> (r: Vec<u16>)
    ensures
        r@ == utf16(s@).push(0),
{
    let mut out = to_wide(s);
    out.push(0);
    out
}

proof fn lemma_units(c: char)
    requires
        c != '\0',
    ensures
        forall|i: int| 0 <= i < char_units(c).len() ==> char_units(c)[i] != 0,
{
}

/// Text without a zero character has no zero unit: the zero behind it ends it.
pub proof fn law_no_inner_zero(s: Seq<char>)
    requires
        !s.contains('\0'),
    ensures
        !utf16(s).contains(0u16),
    decreases s.len(),
{
    if s.len() > 0 {
        let t = s.drop_last();
        assert forall|i: int| 0 <= i < t.len() implies t[i] != '\0' by {
            assert(t[i] == s[i]);
        }
        law_no_inner_zero(t);
        assert(s[s.len() - 1] == s.last());
        let a = utf16(t);
        let b = char_units(s.last());
        lemma_units(s.last());
        assert forall|i: int| 0 <= i < (a + b).len() implies (a + b)[i] != 0 by {
            if i < a.len() {
                assert((a + b)[i] == a[i]);
                assert(a.contains(a[i]));
            } else {
                assert((a + b)[i] == b[i - a.len()]);
            }
        }
    }
}

/// The units of two texts are those of the first and then those of the second. A
/// character below 0x10000 is one unit; any other is two, of which the first says
/// its upper and the second its lower ten bits above 0x10000.
pub proof fn law_units(a: Seq<char>, b: Seq<char>, c: char)
    ensures
        utf16(a + b) == utf16(a) + utf16(b),
        (c as int) < 0x10000 ==> utf16(seq![c]).len() == 1 && utf16(seq![c])[0] == c as int,
        c as int >= 0x10000 ==> {
            let u = utf16(seq![c]);
            &&& u.len() == 2
            &&& 0xD800 <= u[0] < 0xDC00
            &&& 0xDC00 <= u[1] < 0xE000
            &&& (u[0] - 0xD800) * 0x400 + (u[1] - 0xDC00) == c as int - 0x10000
        },
    decreases b.len(),
{
    if b.len() == 0 {
        assert(a + b =~= a);
        assert(utf16(a) + utf16(b) =~= utf16(a));
    } else {
        law_units(a, b.drop_last(), c);
        assert((a + b).drop_last() =~= a + b.drop_last());
        assert((a + b).last() == b.last());
        assert(utf16(a) + utf16(b.drop_last()) + char_units(b.last()) =~= utf16(a) + (utf16(
            b.drop_last(),
        ) + char_units(b.last())));
    }
    assert(seq![c].drop_last() =~= Seq::empty());
    assert(utf16(Seq::empty()) + char_units(c) =~= char_units(c));
    assert(utf16(seq![c]) =~= char_units(c));
}

} // verus!
