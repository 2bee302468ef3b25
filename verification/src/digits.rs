//! Decimal digit sequences: their numeric value and the canonical rendering
//! of a number back to digits.

use vstd::prelude::*;
use crate::text::is_digit_char;

verus! {

/// Numeric value of one digit character.
pub open spec fn digit_val(c: char) -> nat {
    (c as u32 - '0' as u32) as nat
}

/// Numeric value of a sequence of digit characters, most significant first.
pub open spec fn digits_val(d: Seq<char>) -> nat
    decreases d.len(),
{
    if d.len() == 0 {
        0
    } else {
        digits_val(d.drop_last()) * 10 + digit_val(d.last())
    }
}

/// The value of a digit sequence never shrinks as digits are appended.
proof fn lemma_digits_val_prefix_le(d: Seq<char>, i: int)
    requires
        0 <= i <= d.len(),
    ensures
        digits_val(d.subrange(0, i)) <= digits_val(d),
    decreases d.len() - i,
{
    if i < d.len() {
        let e = d.subrange(0, i + 1);
        assert(e.drop_last() =~= d.subrange(0, i));
        assert(digits_val(d.subrange(0, i)) <= digits_val(e));
        lemma_digits_val_prefix_le(d, i + 1);
        assert(d.subrange(0, d.len() as int) =~= d);
    } else {
        assert(d.subrange(0, d.len() as int) =~= d);
    }
}

/// Reads the digits of `s` in positions `start..end` as a decimal number,
/// or reports that the value does not fit in a `u32`.
pub fn u32_from_digits(s: &str, start: usize, end: usize) -> (r: Option<u32>)
    requires
        start <= end <= s@.len(),
        s@.len() <= usize::MAX,
        forall|j: int| start <= j < end ==> is_digit_char(s@[j]),
    ensures
        match r {
            Some(v) => digits_val(s@.subrange(start as int, end as int)) <= u32::MAX
                && v == digits_val(s@.subrange(start as int, end as int)),
            None => digits_val(s@.subrange(start as int, end as int)) > u32::MAX,
        },
{
    let ghost whole = s@.subrange(start as int, end as int);
    let mut acc: u32 = 0;
    let mut i = start;
    while i < end
        invariant
            start <= i <= end <= s@.len(),
            s@.len() <= usize::MAX,
            forall|j: int| start <= j < end ==> is_digit_char(s@[j]),
            whole == s@.subrange(start as int, end as int),
            acc == digits_val(whole.subrange(0, i - start)),
        decreases end - i,
    {
        let c = s.get_char(i);
        assert(is_digit_char(c));
        let d = c as u32 - 48;
        let ghost done = whole.subrange(0, i - start);
        let ghost next = whole.subrange(0, i + 1 - start);
        proof {
            assert(next.drop_last() =~= done);
            assert(next.last() == s@[i as int]);
        }
        if acc > (u32::MAX - d) / 10 {
            proof {
                assert(digits_val(next) == digits_val(done) * 10 + digit_val(c));
                assert(digits_val(next) > u32::MAX) by {
                    assert(acc >= (u32::MAX - d) / 10 + 1);
                    assert(((u32::MAX - d) / 10 + 1) * 10 + d > u32::MAX) by (nonlinear_arith);
                    assert(acc * 10 + d >= ((u32::MAX - d) / 10 + 1) * 10 + d)
                        by (nonlinear_arith)
                        requires acc >= (u32::MAX - d) / 10 + 1, d <= 9u32;
                };
                lemma_digits_val_prefix_le(whole, i + 1 - start);
            }
            return None;
        }
        proof {
            assert(acc <= (u32::MAX - d) / 10);
            assert(acc * 10 + d <= u32::MAX) by (nonlinear_arith)
                requires acc <= (u32::MAX - d) / 10, d <= 9u32;
        }
        acc = acc * 10 + d;
        i = i + 1;
    }
    proof {
        assert(whole.subrange(0, (end - start) as int) =~= whole);
    }
    Some(acc)
}

/// The digit character for a value below ten.
pub open spec fn digit_char(n: nat) -> char {
    if n == 0 { '0' }
    else if n == 1 { '1' }
    else if n == 2 { '2' }
    else if n == 3 { '3' }
    else if n == 4 { '4' }
    else if n == 5 { '5' }
    else if n == 6 { '6' }
    else if n == 7 { '7' }
    else if n == 8 { '8' }
    else { '9' }
}

/// Canonical decimal rendering of a number: no sign, no leading zeros
/// (a single `0` for zero).
pub open spec fn dec_str(n: nat) -> Seq<char>
    decreases n,
{
    if n < 10 {
        seq![digit_char(n)]
    } else {
        dec_str(n / 10).push(digit_char(n % 10))
    }
}

/// The canonical rendering is non-empty and made of digit characters.
pub proof fn lemma_dec_str_digits(n: nat)
    ensures
        dec_str(n).len() > 0,
        forall|j: int| 0 <= j < dec_str(n).len() ==> is_digit_char(#[trigger] dec_str(n)[j]),
    decreases n,
{
    if n < 10 {
        assert(is_digit_char(digit_char(n)));
        assert(dec_str(n)[0] == digit_char(n));
    } else {
        lemma_dec_str_digits(n / 10);
        assert(is_digit_char(digit_char(n % 10)));
        assert forall|j: int| 0 <= j < dec_str(n).len() implies is_digit_char(
            #[trigger] dec_str(n)[j],
        ) by {
            if j < dec_str(n / 10).len() {
                assert(dec_str(n)[j] == dec_str(n / 10)[j]);
            } else {
                assert(dec_str(n)[j] == digit_char(n % 10));
            }
        }
    }
}

/// The canonical rendering of a number reads back as that number.
pub proof fn lemma_digits_val_dec_str(n: nat)
    ensures
        digits_val(dec_str(n)) == n,
    decreases n,
{
    assert(digits_val(Seq::<char>::empty()) == 0);
    if n < 10 {
        assert(dec_str(n).drop_last() =~= Seq::<char>::empty());
        assert(dec_str(n).last() == digit_char(n));
        assert(digit_val(digit_char(n)) == n);
        assert(digits_val(dec_str(n)) == digits_val(dec_str(n).drop_last()) * 10 + digit_val(
            dec_str(n).last(),
        ));
    } else {
        lemma_digits_val_dec_str(n / 10);
        assert(dec_str(n).drop_last() =~= dec_str(n / 10));
        assert(dec_str(n).last() == digit_char(n % 10));
        assert(digit_val(digit_char(n % 10)) == n % 10);
        assert(digits_val(dec_str(n)) == digits_val(dec_str(n).drop_last()) * 10 + digit_val(
            dec_str(n).last(),
        ));
        assert((n / 10) * 10 + n % 10 == n) by (nonlinear_arith);
    }
}

fn digit_str(d: u32) -> (r: &'static str)
    requires
        d < 10,
    ensures
        r@ == seq![digit_char(d as nat)],
{
    proof {
        reveal_strlit("0");
        reveal_strlit("1");
        reveal_strlit("2");
        reveal_strlit("3");
        reveal_strlit("4");
        reveal_strlit("5");
        reveal_strlit("6");
        reveal_strlit("7");
        reveal_strlit("8");
        reveal_strlit("9");
    }
    let r = if d == 0 { "0" }
        else if d == 1 { "1" }
        else if d == 2 { "2" }
        else if d == 3 { "3" }
        else if d == 4 { "4" }
        else if d == 5 { "5" }
        else if d == 6 { "6" }
        else if d == 7 { "7" }
        else if d == 8 { "8" }
        else { "9" };
    proof {
        assert(r@ =~= seq![digit_char(d as nat)]);
    }
    r
}

/// Renders `n` in decimal.
pub fn u32_digits(n: u32) -> (r: String)
    ensures
        r@ == dec_str(n as nat),
    decreases n,
{
    if n < 10 {
        let mut r = String::new();
        r.append(digit_str(n));
        assert(r@ =~= dec_str(n as nat));
        r
    } else {
        let mut r = u32_digits(n / 10);
        r.append(digit_str(n % 10));
        assert(r@ =~= dec_str(n as nat));
        r
    }
}

} // verus!
