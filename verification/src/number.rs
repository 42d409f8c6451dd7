//! Decimal integers as text.

use vstd::prelude::*;

use crate::text::chars_of;

verus! {

/// The digit `d`, for `d` below 10.
pub open spec fn digit(d: int) -> char {
    (0x30 + d) as char
}

/// The decimal digits of `n`, without leading zeros.
pub open spec fn digits(n: nat) -> Seq<char>
    decreases n,
{
    if n < 10 {
        seq![digit(n as int)]
    } else {
        digits(n / 10).push(digit((n % 10) as int))
    }
}

/// `n` in decimal.
pub open spec fn decimal(n: int) -> Seq<char> {
    if n < 0 {
        seq!['-'] + digits((-n) as nat)
    } else {
        digits(n as nat)
    }
}

pub open spec fn is_digit(c: char) -> bool {
    0x30 <= c as u32 <= 0x39
}

/// The number that a row of decimal digits stands for.
pub open spec fn value(s: Seq<char>) -> int
    decreases s.len(),
{
    if s.len() == 0 {
        0
    } else {
        value(s.drop_last()) * 10 + (s.last() as u32 - 0x30)
    }
}

pub open spec fn all_digits(s: Seq<char>) -> bool {
    forall|i: int| 0 <= i < s.len() ==> is_digit(#[trigger] s[i])
}

/// `s` without its sign, if it has one.
pub open spec fn unsigned(s: Seq<char>) -> Seq<char> {
    if s.len() > 0 && (s[0] == '+' || s[0] == '-') {
        s.drop_first()
    } else {
        s
    }
}

/// The 32-bit integer that `s` spells: an optional sign, then digits alone.
pub open spec fn parsed(s: Seq<char>) -> Option<i32> {
    let n = if s.len() > 0 && s[0] == '-' {
        -value(unsigned(s))
    } else {
        value(unsigned(s))
    };
    if unsigned(s).len() > 0 && all_digits(unsigned(s)) && i32::MIN <= n <= i32::MAX {
        Some(n as i32)
    } else {
        None
    }
}

fn push_digits(out: &mut String, n: u32)
    ensures
        final(out)@ == old(out)@ + digits(n as nat),
    decreases n,
{
    if n >= 10 {
        push_digits(out, n / 10);
    }
    let d: u8 = (n % 10) as u8;
    out.push((0x30 + d) as char);
}

/// Append `n` in decimal.
pub fn push_decimal(out: &mut String, n: i32)
    ensures
        final(out)@ == old(out)@ + decimal(n as int),
{
    if n < 0 {
        out.push('-');
        push_digits(out, (-(n as i64)) as u32);
    } else {
        push_digits(out, n as u32);
    }
}

/// Read a 32-bit integer: an optional sign, then digits alone.
pub fn parse_decimal(s: &str) -> (n: Option<i32>)
    ensures
        n == parsed(s@),
{
    // No 32-bit integer is this large; larger magnitudes are cut down to it.
    let huge: i64 = 0x1_0000_0000;
    let chars: Vec<char> = chars_of(s);
    let signed: bool = chars.len() > 0 && (chars[0] == '+' || chars[0] == '-');
    let from: usize = if signed {
        1
    } else {
        0
    };
    let ghost body = unsigned(s@);
    assert(body =~= s@.skip(from as int));
    if from == chars.len() {
        return None;
    }
    let mut n: i64 = 0;
    let mut i: usize = from;
    while i < chars.len()
        invariant
            chars@ == s@,
            from <= i <= chars@.len(),
            body == s@.skip(from as int),
            body == unsigned(s@),
            forall|k: int| 0 <= k < i - from ==> is_digit(#[trigger] body[k]),
            0 <= value(body.take(i - from)),
            huge == 0x1_0000_0000,
            n == (if value(body.take(i - from)) < huge {
                value(body.take(i - from))
            } else {
                huge as int
            }),
        decreases chars@.len() - i,
    {
        let code: u32 = chars[i] as u32;
        if code < 0x30 || code > 0x39 {
            assert(!is_digit(body[i - from]));
            return None;
        }
        assert(body.take(i + 1 - from).drop_last() =~= body.take(i - from));
        assert(body.take(i + 1 - from).last() == chars@[i as int]);
        n = n * 10 + (code - 0x30) as i64;
        if n > huge {
            n = huge;
        }
        i = i + 1;
    }
    assert(body.take(i - from) =~= body);
    if signed && chars[0] == '-' {
        n = -n;
    }
    if n < i32::MIN as i64 || n > i32::MAX as i64 {
        None
    } else {
        Some(n as i32)
    }
}

/// A row of digits holds nothing but digits, and stands for the number it was
/// made from.
proof fn lemma_digits(n: nat)
    ensures
        digits(n).len() > 0,
        all_digits(digits(n)),
        value(digits(n)) == n,
    decreases n,
{
    reveal_with_fuel(value, 2);
    if n >= 10 {
        lemma_digits(n / 10);
        assert(digits(n).drop_last() =~= digits(n / 10));
    } else {
        assert(digits(n).drop_last() =~= seq![]);
    }
}

/// A number that was written is read back.
pub proof fn law_decimal_reads_back(n: i32)
    ensures
        parsed(decimal(n as int)) == Some(n),
{
    if n < 0 {
        lemma_digits((-n) as nat);
        assert(decimal(n as int).drop_first() =~= digits((-n) as nat));
    } else {
        lemma_digits(n as nat);
        assert(is_digit(digits(n as nat)[0]));
    }
}

/// Each further digit makes the number ten times as large and adds its value.
pub proof fn law_digits_add_up(s: Seq<char>, c: char)
    ensures
        value(seq![]) == 0,
        value(s.push(c)) == 10 * value(s) + (c as u32 - '0' as u32),
{
    assert(s.push(c).drop_last() =~= s);
}

/// Text is a number if and only if it is made of at least one digit, behind one
/// sign at most, and its value fits in 32 bits.
pub proof fn law_what_is_a_number(sign: Seq<char>, body: Seq<char>)
    requires
        sign == Seq::<char>::empty() || sign == seq!['+'] || sign == seq!['-'],
        sign.len() == 0 && body.len() > 0 ==> body[0] != '+' && body[0] != '-',
    ensures
        ({
            let n = if sign == seq!['-'] {
                0 - value(body)
            } else {
                value(body)
            };
            let digits_only = forall|i: int|
                0 <= i < body.len() ==> 48 <= (#[trigger] body[i]) as u32 <= 57;
            &&& body.len() > 0 && digits_only && -0x8000_0000 <= n <= 0x7fff_ffff ==> parsed(
                sign + body,
            ) == Some(n as i32)
            &&& !(body.len() > 0 && digits_only && -0x8000_0000 <= n <= 0x7fff_ffff) ==> parsed(
                sign + body,
            ) is None
        }),
{
    let s = sign + body;
    if sign.len() == 0 {
        assert(s =~= body);
        assert(unsigned(s) =~= body);
    } else {
        assert(sign.len() == 1);
        assert(s[0] == sign[0]);
        assert(s.drop_first() =~= body);
        assert(seq!['+'][0] == '+' && seq!['-'][0] == '-');
    }
    let digits_only = forall|i: int|
        0 <= i < body.len() ==> 48 <= (#[trigger] body[i]) as u32 <= 57;
    if digits_only {
        assert forall|i: int| 0 <= i < body.len() implies is_digit(#[trigger] body[i]) by {
            assert(48 <= body[i] as u32 <= 57);
        }
    } else if all_digits(body) {
        assert forall|i: int| 0 <= i < body.len() implies 48 <= (#[trigger] body[i]) as u32 <= 57 by {
            assert(is_digit(body[i]));
        }
    }
}

proof fn lemma_first_digit(n: nat)
    requires
        n > 0,
    ensures
        digits(n)[0] != '0',
        digits(n).len() > 0,
    decreases n,
{
    if n >= 10 {
        lemma_first_digit(n / 10);
        assert(digits(n)[0] == digits(n / 10)[0]);
    }
}

/// Numbers are written the short way: digits alone, behind a minus sign if the
/// number is negative, without leading zeros.
pub proof fn law_numbers_are_written_short(n: i32)
    ensures
        ({
            let s = decimal(n as int);
            let first: int = if n < 0 {
                1
            } else {
                0
            };
            &&& s.len() > first
            &&& n < 0 <==> s[0] == '-'
            &&& forall|i: int| first <= i < s.len() ==> 48 <= (#[trigger] s[i]) as u32 <= 57
            &&& n != 0 ==> s[first] != '0'
            &&& n == 0 ==> s == seq!['0']
            &&& value(s.skip(first)) == if n < 0 {
                0 - n
            } else {
                n as int
            }
        }),
{
    let m: nat = (if n < 0 {
        0 - n
    } else {
        n as int
    }) as nat;
    let s = decimal(n as int);
    let first: int = if n < 0 {
        1
    } else {
        0
    };
    lemma_digits(m);
    assert(s.skip(first) =~= digits(m));
    if n != 0 {
        lemma_first_digit(m);
        assert(s[first] == digits(m)[0]);
    }
    assert forall|i: int| first <= i < s.len() implies 48 <= (#[trigger] s[i]) as u32 <= 57 by {
        assert(s[i] == digits(m)[i - first]);
        assert(is_digit(digits(m)[i - first]));
    }
    assert(is_digit(digits(m)[0]));
}

} // verus!
