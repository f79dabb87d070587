//! Amounts of money as text.

use vstd::prelude::*;
use crate::text::{
    all_digits, digit, digit_char, digits_count_tens, digits_read_back, digits_value, is_digit,
    magnitude, nat_text, push_u64,
};

verus! {

/// An amount of cents in major units, with two decimals.
pub open spec fn money_text(cents: int) -> Seq<char> {
    let n = (if cents < 0 { -cents } else { cents }) as nat;
    (if cents < 0 { seq!['-'] } else { Seq::empty() }) + nat_text(n / 100) + seq![
        '.',
        digit(n % 100 / 10),
        digit(n % 10),
    ]
}

/// An amount of cents in major units, with two decimals.
pub fn cents_text(cents: i64) -> (r: String)
    ensures
        r@ == money_text(cents as int),
{
    let n: u64 = magnitude(cents);
    let mut out = String::new();
    if cents < 0 {
        out.push('-');
    }
    push_u64(&mut out, n / 100);
    out.push('.');
    out.push(digit_char((n % 100 / 10) as u8));
    out.push(digit_char((n % 10) as u8));
    assert(out@ =~= money_text(cents as int));
    out
}

/// An amount is written in whole units and two decimals that together are its cents, with
/// a minus sign in front where it is negative.
pub proof fn money_reads_back(cents: int)
    ensures
        cents < 0 ==> money_text(cents) == seq!['-'] + money_text(-cents),
        cents >= 0 ==> {
            let t = money_text(cents);
            &&& t.len() >= 4
            &&& t[t.len() - 3] == '.'
            &&& all_digits(t.take(t.len() - 3) + t.skip(t.len() - 2))
            &&& digits_value(t.take(t.len() - 3) + t.skip(t.len() - 2)) == cents
            &&& t[0] == '0' ==> cents < 100
        },
{
    if cents < 0 {
        assert(money_text(cents) =~= seq!['-'] + money_text(-cents));
    } else {
        let n = cents as nat;
        let whole = nat_text(n / 100);
        let tail = seq!['.', digit(n % 100 / 10), digit(n % 10)];
        let t = money_text(cents);
        assert(t =~= whole + tail);
        digits_read_back(n / 100);
        assert(t.take(t.len() - 3) =~= whole);
        assert(t.skip(t.len() - 2) =~= seq![digit(n % 100 / 10), digit(n % 10)]);
        let all = whole + seq![digit(n % 100 / 10), digit(n % 10)];
        assert(all =~= whole.push(digit(n % 100 / 10)).push(digit(n % 10)));
        assert(is_digit(digit(n % 100 / 10)) && is_digit(digit(n % 10)));
        digits_count_tens(whole, digit(n % 100 / 10));
        digits_count_tens(whole.push(digit(n % 100 / 10)), digit(n % 10));
        assert(digits_value(all) == 10 * (10 * (n / 100) + n % 100 / 10) + n % 10);
        assert(10 * (10 * (n / 100) + n % 100 / 10) + n % 10 == n);
        assert forall|i: int| 0 <= i < all.len() implies is_digit(#[trigger] all[i]) by {
            if i < whole.len() {
                assert(all[i] == whole[i]);
            }
        }
        assert(t[0] == whole[0]);
    }
}

} // verus!
