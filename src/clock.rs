use vstd::prelude::*;
use vstd::string::*;
use chrono::Timelike;

verus! {

/// Decimal digits, by value.
pub const DECIMAL_DIGITS: &'static str = "0123456789";

/// Relies on chrono::Local::now and chrono::Timelike: the local time of day,
/// with the hour from 0 to 23 and the minute and second from 0 to 59.
#[verifier::external_body]
fn local_time_of_day() -> (r: (u32, u32, u32))
    ensures
        r.0 < 24,
        r.1 < 60,
        r.2 < 60,
{
    let now = chrono::Local::now();
    (now.hour(), now.minute(), now.second())
}

/// Two decimal digits of a value below one hundred.
pub open spec fn two_digits(n: int) -> Seq<char> {
    seq![DECIMAL_DIGITS@[n / 10], DECIMAL_DIGITS@[n % 10]]
}

/// `HH:MM:SS`.
pub open spec fn clock_text(hour: int, minute: int, second: int) -> Seq<char> {
    two_digits(hour) + seq![':'] + two_digits(minute) + seq![':'] + two_digits(second)
}

fn push_two_digits(s: &mut String, n: u32)
    requires
        n < 100,
    ensures
        final(s)@ == old(s)@ + two_digits(n as int),
{
    proof {
        reveal_strlit("0123456789");
    }
    let hi = (n / 10) as usize;
    let lo = (n % 10) as usize;
    s.append(DECIMAL_DIGITS.substring_char(hi, hi + 1));
    s.append(DECIMAL_DIGITS.substring_char(lo, lo + 1));
    assert(DECIMAL_DIGITS@.subrange(hi as int, hi + 1) =~= seq![DECIMAL_DIGITS@[hi as int]]);
    assert(DECIMAL_DIGITS@.subrange(lo as int, lo + 1) =~= seq![DECIMAL_DIGITS@[lo as int]]);
    assert(final(s)@ =~= old(s)@ + two_digits(n as int));
}

/// A time of day as `HH:MM:SS`.
pub fn format_clock(hour: u32, minute: u32, second: u32) -> (r: String)
    requires
        hour < 100,
        minute < 100,
        second < 100,
    ensures
        r@ == clock_text(hour as int, minute as int, second as int),
{
    proof {
        reveal_strlit(":");
    }
    let mut r = String::new();
    push_two_digits(&mut r, hour);
    r.append(":");
    push_two_digits(&mut r, minute);
    r.append(":");
    push_two_digits(&mut r, second);
    assert(r@ =~= clock_text(hour as int, minute as int, second as int));
    r
}

/// The local time of day as `HH:MM:SS`, for log lines.
pub fn get_time() -> (r: String)
    ensures
        exists|h: int, m: int, s: int|
            0 <= h < 24 && 0 <= m < 60 && 0 <= s < 60 && r@ == clock_text(h, m, s),
{
    let (h, m, s) = local_time_of_day();
    format_clock(h, m, s)
}

} // verus!
