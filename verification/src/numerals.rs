//! Numbers as text.
use crate::text::chars_of;
use vstd::prelude::*;

verus! {

/// The decimal digit of a number below ten.
pub open spec fn digit(d: nat) -> char {
    ('0' as u32 + d) as char
}

/// The number in decimal, without leading zeros.
pub open spec fn decimal(n: nat) -> Seq<char>
    decreases n,
{
    if n < 10 {
        seq![digit(n)]
    } else {
        decimal(n / 10).push(digit(n % 10))
    }
}

/// The decimal digits `0` to `9`.
pub open spec fn is_digit(c: char) -> bool {
    '0' <= c <= '9'
}

/// The number that decimal digits stand for.
pub open spec fn value(s: Seq<char>) -> nat
    decreases s.len(),
{
    if s.len() == 0 {
        0
    } else {
        value(s.drop_last()) * 10 + (s.last() as u32 - '0' as u32) as nat
    }
}

/// The digits of a number that may have a plus sign in front.
pub open spec fn unsigned_digits(s: Seq<char>) -> Seq<char> {
    if s.len() > 0 && s[0] == '+' {
        s.skip(1)
    } else {
        s
    }
}

/// Whether text is a number: at least one digit, nothing but digits, with an
/// optional plus sign in front.
pub open spec fn is_number(s: Seq<char>) -> bool {
    let t = unsigned_digits(s);
    t.len() > 0 && forall|i: int| 0 <= i < t.len() ==> is_digit(#[trigger] t[i])
}

/// The number that text stands for, if it is one and at most `max`.
pub open spec fn number_up_to(s: Seq<char>, max: nat) -> Option<nat> {
    if is_number(s) && value(unsigned_digits(s)) <= max {
        Some(value(unsigned_digits(s)))
    } else {
        None
    }
}

/// The upper-case hexadecimal digit of a number below sixteen.
pub open spec fn hex_digit(d: nat) -> char {
    if d < 10 {
        digit(d)
    } else {
        ('A' as u32 + d - 10) as char
    }
}

/// The last `width` hexadecimal digits of a number.
pub open spec fn hex(n: nat, width: nat) -> Seq<char>
    decreases width,
{
    if width == 0 {
        Seq::empty()
    } else {
        hex(n / 16, (width - 1) as nat).push(hex_digit(n % 16))
    }
}

/// The number in decimal.
pub fn decimal_text(n: u64) -> (r: String)
    ensures
        r@ == decimal(n as nat),
    decreases n,
{
    let d: u8 = (n % 10) as u8;
    let c = (0x30u8 + d) as char;
    let mut out = if n < 10 {
        String::new()
    } else {
        decimal_text(n / 10)
    };
    out.push(c);
    assert(n < 10 ==> out@ =~= seq![digit(n as nat)]);
    out
}

/// The last `width` hexadecimal digits of a number, in upper case.
pub fn hex_text(n: u128, width: u32) -> (r: String)
    ensures
        r@ == hex(n as nat, width as nat),
    decreases width,
{
    if width == 0 {
        String::new()
    } else {
        let mut out = hex_text(n / 16, width - 1);
        let d: u8 = (n % 16) as u8;
        let c = if d < 10 {
            (0x30u8 + d) as char
        } else {
            (0x41u8 + (d - 10)) as char
        };
        out.push(c);
        out
    }
}

/// The number that text stands for, if it is one and fits in 64 bits.
pub fn parse_u64(s: &str) -> (r: Option<u64>)
    ensures
        match r {
            Some(n) => number_up_to(s@, u64::MAX as nat) == Some(n as nat),
            None => number_up_to(s@, u64::MAX as nat) is None,
        },
{
    let chars = chars_of(s);
    let start: usize = if chars.len() > 0 && chars[0] == '+' {
        1
    } else {
        0
    };
    let ghost t = unsigned_digits(s@);
    assert(start == 0 ==> t =~= s@);
    if start == chars.len() {
        return None;
    }
    let mut n: u64 = 0;
    let mut fits = true;
    let mut i: usize = start;
    assert(t.take(0) =~= Seq::empty());
    while i < chars.len()
        invariant
            start <= i <= chars@.len(),
            start <= 1,
            chars@ == s@,
            t == unsigned_digits(s@),
            t.len() == chars@.len() - start,
            forall|k: int| 0 <= k < t.len() ==> #[trigger] t[k] == chars@[k + start],
            forall|k: int| 0 <= k < i - start ==> is_digit(#[trigger] t[k]),
            fits ==> value(t.take(i - start)) == n,
            !fits ==> value(t.take(i - start)) > u64::MAX,
        decreases chars@.len() - i,
    {
        let c = chars[i];
        assert(t[i - start] == c);
        if c < '0' || c > '9' {
            assert(!is_digit(t[i - start]));
            return None;
        }
        let d: u64 = (c as u32 - '0' as u32) as u64;
        assert(t.take(i - start + 1).drop_last() =~= t.take(i - start));
        if fits {
            match n.checked_mul(10) {
                Some(tens) => match tens.checked_add(d) {
                    Some(next) => {
                        n = next;
                    },
                    None => {
                        fits = false;
                    },
                },
                None => {
                    fits = false;
                },
            }
        }
        i += 1;
    }
    assert(t.take(i - start) =~= t);
    if fits {
        Some(n)
    } else {
        None
    }
}

/// A number read from its decimal text is the number.
pub proof fn law_decimal_read(n: nat)
    ensures
        is_number(decimal(n)),
        value(unsigned_digits(decimal(n))) == n,
{
    lemma_decimal_read(n);
    assert(is_digit(decimal(n)[0]));
}

proof fn lemma_decimal_read(n: nat)
    ensures
        decimal(n).len() > 0,
        forall|i: int| 0 <= i < decimal(n).len() ==> is_digit(#[trigger] decimal(n)[i]),
        value(decimal(n)) == n,
    decreases n,
{
    if n >= 10 {
        lemma_decimal_read(n / 10);
        assert(decimal(n).drop_last() =~= decimal(n / 10));
        assert forall|i: int| 0 <= i < decimal(n).len() implies is_digit(
            #[trigger] decimal(n)[i],
        ) by {
            if i < decimal(n).len() - 1 {
                assert(decimal(n)[i] == decimal(n / 10)[i]);
            }
        }
    } else {
        assert(decimal(n).drop_last() =~= Seq::empty());
        assert(value(decimal(n).drop_last()) == 0);
    }
}

/// A number's last decimal digit is its remainder by ten, what stands before it
/// is the number's tenth, and a number below ten is one digit.
pub proof fn law_decimal_digits(n: nat)
    ensures
        decimal(n).last() as int == 0x30 + n % 10,
        n >= 10 ==> decimal(n).drop_last() == decimal(n / 10),
        n < 10 ==> decimal(n).len() == 1,
{
    if n >= 10 {
        assert(decimal(n).drop_last() =~= decimal(n / 10));
    }
}

/// Text is a number exactly if it is decimal digits, at least one, that may have
/// a plus sign before them; its value is that of the digits, each ten times the
/// one behind it, and one that is too large is none.
pub proof fn law_number(s: Seq<char>, max: nat)
    requires
        s.len() > 0,
        s[0] != '+',
    ensures
        number_up_to(seq!['+'] + s, max) == number_up_to(s, max),
        number_up_to(Seq::empty(), max) is None,
        number_up_to(seq!['+'], max) is None,
        number_up_to(s, max) is Some ==> forall|i: int|
            0 <= i < s.len() ==> 0x30 <= #[trigger] s[i] as int <= 0x39,
        (forall|i: int| 0 <= i < s.len() ==> 0x30 <= #[trigger] s[i] as int <= 0x39) ==> number_up_to(
            s,
            max,
        ) == if value(s) <= max {
            Some(value(s))
        } else {
            None
        },
        0x30 <= s.last() as int <= 0x39 ==> value(s) == value(s.drop_last()) * 10 + (s.last() as int
            - 0x30),
        value(Seq::empty()) == 0,
{
    assert((seq!['+'] + s).skip(1) =~= s);
    assert(seq!['+'].skip(1) =~= Seq::empty());
    if number_up_to(s, max) is Some {
        assert forall|i: int| 0 <= i < s.len() implies 0x30 <= #[trigger] s[i] as int <= 0x39 by {
            assert(is_digit(s[i]));
        }
    }
}

/// The last hexadecimal digit is the remainder by sixteen, as a digit or a
/// capital letter, and what stands before it is the sixteenth of the number.
pub proof fn law_hex_digits(n: nat, width: nat)
    ensures
        hex(n, width).len() == width,
        width > 0 ==> {
            &&& hex(n, width).drop_last() == hex(n / 16, (width - 1) as nat)
            &&& hex(n, width).last() as int == if n % 16 < 10 {
                0x30 + n % 16
            } else {
                0x37 + n % 16
            }
        },
    decreases width,
{
    if width > 0 {
        law_hex_digits(n / 16, (width - 1) as nat);
        assert(hex(n, width).drop_last() =~= hex(n / 16, (width - 1) as nat));
    }
}

} // verus!
