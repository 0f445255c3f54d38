//! Values shown in the detail panel of the selected process.

use crate::text::{decimal_chars, decimal_of, digit_char, push_char};
use vstd::prelude::*;

verus! {

/// Hours, minutes and seconds of a duration given in whole seconds.
pub open spec fn hms_of(secs: nat) -> (nat, nat, nat) {
    (secs / 3600, (secs % 3600) / 60, secs % 60)
}

/// Splits a run time in seconds into hours, minutes below 60 and seconds
/// below 60.
pub fn s_to_hms(secs: u64) -> (r: (u64, u64, u64))
    ensures
        (r.0 as nat, r.1 as nat, r.2 as nat) == hms_of(secs as nat),
        r.1 < 60,
        r.2 < 60,
        r.0 * 3600 + r.1 * 60 + r.2 == secs,
{
    let h: u64 = secs / 3600;
    let m: u64 = (secs % 3600) / 60;
    let s: u64 = secs % 60;
    (h, m, s)
}

/// A number below one hundred written with two digits.
pub open spec fn two_digits(n: nat) -> Seq<char>
    recommends
        n < 100,
{
    seq![digit_char(n / 10), digit_char(n % 10)]
}

/// A run time as it is shown: the hours in decimal notation, then the
/// minutes and the seconds with two digits each, with colons between.
pub open spec fn clock_of(secs: nat) -> Seq<char> {
    let (h, m, s) = hms_of(secs);
    decimal_of(h) + seq![':'] + two_digits(m) + seq![':'] + two_digits(s)
}

/// Adds the characters to the end of the text.
fn push_all(text: &mut String, chars: &Vec<char>)
    ensures
        final(text)@ == old(text)@ + chars@,
{
    let mut k: usize = 0;
    assert(chars@.take(0) =~= Seq::<char>::empty());
    assert(text@ + chars@.take(0) =~= text@);
    while k < chars.len()
        invariant
            k <= chars@.len(),
            text@ == old(text)@ + chars@.take(k as int),
        decreases chars@.len() - k,
    {
        push_char(text, chars[k]);
        assert(chars@.take(k + 1) =~= chars@.take(k as int).push(chars@[k as int]));
        assert(text@ =~= old(text)@ + chars@.take(k + 1));
        k = k + 1;
    }
    assert(chars@.take(k as int) =~= chars@);
}

/// The run time of a process as text, such as `1:01:01` for 3661 seconds.
pub fn clock_text(secs: u64) -> (r: String)
    ensures
        r@ == clock_of(secs as nat),
{
    let (h, m, s) = s_to_hms(secs);
    let mut text = String::new();
    push_all(&mut text, &decimal_chars(h));
    push_char(&mut text, ':');
    push_all(&mut text, &decimal_chars(m / 10));
    push_all(&mut text, &decimal_chars(m % 10));
    push_char(&mut text, ':');
    push_all(&mut text, &decimal_chars(s / 10));
    push_all(&mut text, &decimal_chars(s % 10));
    assert(text@ =~= clock_of(secs as nat));
    text
}

/// The text shown for a value that the system could not supply.
pub open spec fn unknown_label() -> Seq<char> {
    seq!['U', 'n', 'k', 'n', 'o', 'w', 'n']
}

/// The text of an optional value, or the fixed label "Unknown" where it is
/// absent.
pub fn or_unknown(value: Option<String>) -> (r: String)
    ensures
        r@ == match value {
            Some(s) => s@,
            None => unknown_label(),
        },
{
    match value {
        Some(s) => s,
        None => {
            proof {
                reveal_strlit("Unknown");
            }
            let label = "Unknown".to_owned();
            assert(label@ =~= unknown_label());
            label
        },
    }
}

} // verus!
