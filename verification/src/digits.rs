//! Decimal representation of the numbers that appear on the wire.

use vstd::prelude::*;
use crate::text::is_ascii_digit_char;

verus! {

/// The canonical decimal digit string of a number.
pub open spec fn digits_of(n: nat) -> Seq<char>
    decreases n,
{
    if n < 10 {
        seq![digit_char(n as int)]
    } else {
        digits_of(n / 10).push(digit_char((n % 10) as int))
    }
}

pub open spec fn digit_char(v: int) -> char {
    ((48 + v) as u8) as char
}

pub open spec fn digit_val(c: char) -> int {
    (c as u32) - 48
}

pub open spec fn all_digits(s: Seq<char>) -> bool {
    forall|i: int| 0 <= i < s.len() ==> is_ascii_digit_char(#[trigger] s[i])
}

/// The number a decimal digit string denotes.
pub open spec fn digits_val(s: Seq<char>) -> nat
    decreases s.len(),
{
    if s.len() == 0 {
        0
    } else {
        (digits_val(s.drop_last()) * 10 + digit_val(s.last())) as nat
    }
}

/// Reading back the canonical digit string yields the number.
pub proof fn lemma_digits_round_trip(n: nat)
    ensures
        digits_val(digits_of(n)) == n,
        all_digits(digits_of(n)),
        digits_of(n).len() > 0,
    decreases n,
{
    if n < 10 {
        assert(digits_of(n) =~= seq![digit_char(n as int)]);
        assert(digits_of(n).drop_last() =~= Seq::<char>::empty());
        assert((((48 + n) as u8) as char) as u32 == 48 + n);
        assert(digit_val(digit_char(n as int)) == n);
        assert(digits_val(Seq::<char>::empty()) == 0);
        assert(digits_val(digits_of(n)) == n);
    } else {
        lemma_digits_round_trip(n / 10);
        assert(digits_of(n).drop_last() =~= digits_of(n / 10));
        assert(digits_of(n).last() == digit_char((n % 10) as int));
        assert((((48 + (n % 10)) as u8) as char) as u32 == 48 + (n % 10));
        assert(digit_val(digit_char((n % 10) as int)) == n % 10);
        vstd::arithmetic::div_mod::lemma_fundamental_div_mod(n as int, 10);
        assert(digits_val(digits_of(n)) == n);
    }
}

/// Values never shrink while digits are appended.
pub proof fn lemma_digits_val_monotone(s: Seq<char>, j: int, k: int)
    requires
        0 <= j <= k <= s.len(),
        all_digits(s),
    ensures
        digits_val(s.take(j)) <= digits_val(s.take(k)),
    decreases k - j,
{
    if j < k {
        lemma_digits_val_monotone(s, j, k - 1);
        assert(s.take(k).drop_last() =~= s.take(k - 1));
        assert(is_ascii_digit_char(s[k - 1]));
        assert(digit_val(s.take(k).last()) >= 0);
        assert(digits_val(s.take(k)) >= digits_val(s.take(k - 1)) * 10);
        vstd::arithmetic::mul::lemma_mul_inequality(1, 10, digits_val(s.take(k - 1)) as int);
    }
}

/// Parses the decimal digits of `s` between `from` and `to`.  Succeeds
/// exactly on non-empty all-digit ranges whose value fits in `usize`.
pub fn parse_digits(s: &Vec<char>, from: usize, to: usize) -> (r: Option<usize>)
    requires
        from <= to <= s@.len(),
    ensures
        match r {
            Some(n) => {
                &&& to > from
                &&& all_digits(s@.subrange(from as int, to as int))
                &&& n == digits_val(s@.subrange(from as int, to as int))
            },
            None => {
                ||| to == from
                ||| !all_digits(s@.subrange(from as int, to as int))
                ||| digits_val(s@.subrange(from as int, to as int)) > usize::MAX
            },
        },
{
    if from == to {
        return None;
    }
    let ghost whole = s@.subrange(from as int, to as int);
    let mut acc: usize = 0;
    let mut i: usize = from;
    while i < to
        invariant
            from <= i <= to <= s@.len(),
            whole == s@.subrange(from as int, to as int),
            all_digits(whole.take(i - from)),
            acc == digits_val(whole.take(i - from)),
        decreases to - i,
    {
        let c = s[i];
        if !('0' <= c && c <= '9') {
            proof {
                assert(whole[i - from] == c);
            }
            return None;
        }
        let d: u32 = (c as u32) - 48;
        proof {
            assert(whole.take(i - from + 1).drop_last() =~= whole.take(i - from));
            assert(whole.take(i - from + 1).last() == c);
        }
        if acc > (usize::MAX - (d as usize)) / 10 {
            proof {
                let pfx = i - from + 1;
                assert(digits_val(whole.take(pfx)) == acc * 10 + d);
                assert(digits_val(whole.take(pfx)) > usize::MAX) by {
                    vstd::arithmetic::div_mod::lemma_fundamental_div_mod(
                        usize::MAX - d as int,
                        10,
                    );
                }
                if all_digits(whole) {
                    lemma_digits_val_monotone(whole, pfx, whole.len() as int);
                    assert(whole.take(whole.len() as int) =~= whole);
                }
            }
            return None;
        }
        acc = acc * 10 + (d as usize);
        i += 1;
    }
    proof {
        assert(whole.take(to - from) =~= whole);
    }
    Some(acc)
}

fn digit_char_exec(v: usize) -> (c: char)
    requires
        v < 10,
    ensures
        c == digit_char(v as int),
        is_ascii_digit_char(c),
{
    let b: u8 = 48 + (v as u8);
    b as char
}

/// The canonical digit string of `n`, as characters.
pub fn usize_to_digits(n: usize) -> (r: Vec<char>)
    ensures
        r@ == digits_of(n as nat),
    decreases n,
{
    if n < 10 {
        let mut v: Vec<char> = Vec::new();
        v.push(digit_char_exec(n));
        proof {
            assert(v@ =~= digits_of(n as nat));
        }
        v
    } else {
        let mut v = usize_to_digits(n / 10);
        v.push(digit_char_exec(n % 10));
        proof {
            assert(v@ =~= digits_of(n as nat));
        }
        v
    }
}

/// The canonical digit string of `n`, as a string.
pub fn usize_to_string(n: usize) -> (r: String)
    ensures
        r@ == digits_of(n as nat),
{
    let v = usize_to_digits(n);
    crate::text::chars_to_string(&v)
}

} // verus!
