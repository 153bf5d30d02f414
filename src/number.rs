//! Decimal integers: reading the counts of the status protocol and writing
//! counts into labels.

use vstd::prelude::*;

verus! {

pub open spec fn is_digit(c: char) -> bool {
    '0' <= c && c <= '9'
}

pub open spec fn all_digits(s: Seq<char>) -> bool {
    forall|i: int| 0 <= i < s.len() ==> is_digit(#[trigger] s[i])
}

/// The value of a run of decimal digits.
pub open spec fn digits_value(s: Seq<char>) -> nat
    decreases s.len(),
{
    if s.len() == 0 {
        0
    } else {
        digits_value(s.drop_last()) * 10 + ((s.last() as u32) - ('0' as u32)) as nat
    }
}

/// What reading `t` as a `u32` gives: decimal digits with an optional single
/// leading `+`, at least one digit, and a value that fits; `None` otherwise.
pub open spec fn parse_u32(t: Seq<char>) -> Option<u32> {
    let d = if t.len() > 1 && t[0] == '+' {
        t.skip(1)
    } else {
        t
    };
    if d.len() > 0 && all_digits(d) && digits_value(d) <= u32::MAX {
        Some(digits_value(d) as u32)
    } else {
        None
    }
}

/// A count read from `t`, with 0 for text that is not a valid `u32`.
pub open spec fn count_or_zero(t: Seq<char>) -> u32 {
    match parse_u32(t) {
        Some(v) => v,
        None => 0,
    }
}

proof fn lemma_digits_value_grows(s: Seq<char>, k: int)
    requires
        0 <= k <= s.len(),
        all_digits(s),
    ensures
        digits_value(s.take(k)) <= digits_value(s),
    decreases s.len(),
{
    if k < s.len() {
        assert(s.drop_last().take(k) =~= s.take(k));
        lemma_digits_value_grows(s.drop_last(), k);
    } else {
        assert(s.take(k) =~= s);
    }
}

/// Reads `t` as a `u32` count, giving 0 where it is not one.
pub fn parse_count(t: &Vec<char>) -> (r: u32)
    ensures
        r == count_or_zero(t@),
{
    let n = t.len();
    let start: usize = if n > 1 && t[0] == '+' {
        1
    } else {
        0
    };
    let ghost d = if t@.len() > 1 && t@[0] == '+' {
        t@.skip(1)
    } else {
        t@
    };
    assert(d =~= t@.skip(start as int));
    if start == n {
        return 0;
    }
    let mut acc: u64 = 0;
    let mut i: usize = start;
    while i < n
        invariant
            start <= i <= n == t@.len(),
            d =~= t@.skip(start as int),
            d == (if t@.len() > 1 && t@[0] == '+' {
                t@.skip(1)
            } else {
                t@
            }),
            all_digits(d.take(i - start)),
            acc == digits_value(d.take(i - start)),
            acc <= u32::MAX,
        decreases n - i,
    {
        let c = t[i];
        let ghost k = i - start;
        assert(d.take(k + 1).drop_last() =~= d.take(k));
        assert(d[k] == t@[i as int]);
        if !('0' <= c && c <= '9') {
            assert(!is_digit(d[k]));
            assert(!all_digits(d));
            return 0;
        }
        let next = acc * 10 + ((c as u32) - ('0' as u32)) as u64;
        if next > u32::MAX as u64 {
            proof {
                if all_digits(d) {
                    lemma_digits_value_grows(d, k + 1);
                }
            }
            return 0;
        }
        acc = next;
        i = i + 1;
        assert(all_digits(d.take(i - start))) by {
            assert forall|j: int| 0 <= j < k + 1 implies is_digit(#[trigger] d.take(k + 1)[j]) by {
                if j < k {
                    assert(d.take(k + 1)[j] == d.take(k)[j]);
                }
            }
        }
    }
    assert(d.take(n - start) =~= d);
    acc as u32
}


/// The character of a decimal digit value.
pub open spec fn digit_char(d: nat) -> char {
    if d == 0 {
        '0'
    } else if d == 1 {
        '1'
    } else if d == 2 {
        '2'
    } else if d == 3 {
        '3'
    } else if d == 4 {
        '4'
    } else if d == 5 {
        '5'
    } else if d == 6 {
        '6'
    } else if d == 7 {
        '7'
    } else if d == 8 {
        '8'
    } else {
        '9'
    }
}

/// The decimal form of `n`, without sign or leading zeros.
pub open spec fn decimal(n: nat) -> Seq<char>
    decreases n,
{
    if n < 10 {
        seq![digit_char(n)]
    } else {
        decimal(n / 10).push(digit_char(n % 10))
    }
}

fn digit_of(d: u64) -> (r: char)
    requires
        d < 10,
    ensures
        r == digit_char(d as nat),
{
    match d {
        0 => '0',
        1 => '1',
        2 => '2',
        3 => '3',
        4 => '4',
        5 => '5',
        6 => '6',
        7 => '7',
        8 => '8',
        _ => '9',
    }
}

/// The decimal form of `n`.
pub fn decimal_string(n: u64) -> (r: String)
    ensures
        r@ == decimal(n as nat),
{
    let mut m: u64 = n;
    let mut acc: Vec<char> = Vec::new();
    assert(decimal(n as nat) =~= decimal(m as nat) + acc@);
    while m >= 10
        invariant
            decimal(n as nat) == decimal(m as nat) + acc@,
        decreases m,
    {
        let d = digit_of(m % 10);
        let ghost old_acc = acc@;
        acc.insert(0, d);
        assert(acc@ =~= seq![d] + old_acc);
        assert(decimal(m as nat) == decimal((m / 10) as nat).push(d));
        assert(decimal(m as nat) + old_acc =~= decimal((m / 10) as nat) + acc@);
        m = m / 10;
    }
    let ghost old_acc = acc@;
    acc.insert(0, digit_of(m));
    assert(acc@ =~= decimal(m as nat) + old_acc);
    crate::text::string_of(acc.as_slice())
}

} // verus!
