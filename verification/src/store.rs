use vstd::prelude::*;

verus! {

/// The decimal digit character for the value `d`.
pub open spec fn digit_char(d: int) -> char {
    if d == 0 {
        '0'
    } else if d == 1 {
        '1'
    } else if d == 2 {
        '2'
    } else if d == 3 {
        '3'
    } else if d == 4 {
        '4'
    } else if d == 5 {
        '5'
    } else if d == 6 {
        '6'
    } else if d == 7 {
        '7'
    } else if d == 8 {
        '8'
    } else {
        '9'
    }
}

/// The decimal digits of `n`, most significant first.
pub open spec fn dec_digits(n: nat) -> Seq<char>
    decreases n,
{
    if n < 10 {
        seq![digit_char(n as int)]
    } else {
        dec_digits(n / 10) + seq![digit_char((n % 10) as int)]
    }
}

/// The decimal rendering of `n`, with a leading `-` for negative values.
pub open spec fn dec_int(n: int) -> Seq<char> {
    if n < 0 {
        seq!['-'] + dec_digits((-n) as nat)
    } else {
        dec_digits(n as nat)
    }
}

/// The record text stored at the repository key for a timer ending at
/// `end_time`.
pub open spec fn timer_record_rep(end_time: int) -> Seq<char> {
    "{\"endTime\":"@ + dec_int(end_time) + "}"@
}

/// The decimal digit character for the value `d`.
fn digit_char_of(d: u64) -> (c: char)
    requires
        d < 10,
    ensures
        c == digit_char(d as int),
{
    match d {
        0 => '0',
        1 => '1',
        2 => '2',
        3 => '3',
        4 => '4',
        5 => '5',
        6 => '6',
        7 => '7',
        8 => '8',
        _ => '9',
    }
}

/// Appends the decimal digits of `n` to `s`.
fn push_dec_digits(s: &mut String, n: u64)
    ensures
        final (s)@ == old(s)@ + dec_digits(n as nat),
    decreases n,
{
    if n < 10 {
        s.push(digit_char_of(n));
        proof {
            assert(s@ =~= old(s)@ + dec_digits(n as nat));
        }
    } else {
        push_dec_digits(s, n / 10);
        s.push(digit_char_of(n % 10));
        proof {
            assert(s@ =~= old(s)@ + dec_digits(n as nat));
        }
    }
}

/// The decimal rendering of `n`.
pub fn to_decimal(n: i64) -> (r: String)
    ensures
        r@ == dec_int(n as int),
{
    let mut s = String::new();
    if n < 0 {
        s.push('-');
        let magnitude: u64 = if n == i64::MIN {
            9223372036854775808u64
        } else {
            (-n) as u64
        };
        proof {
            assert(magnitude as int == -(n as int));
        }
        push_dec_digits(&mut s, magnitude);
        proof {
            assert(s@ =~= dec_int(n as int));
        }
    } else {
        push_dec_digits(&mut s, n as u64);
        proof {
            assert(s@ =~= dec_int(n as int));
        }
    }
    s
}

/// The JSON record text `{"endTime":N}` stored at the repository key.
pub fn timer_record_json(end_time: i64) -> (r: String)
    ensures
        r@ == timer_record_rep(end_time as int),
{
    let mut s = String::from_str("{\"endTime\":");
    let num = to_decimal(end_time);
    s.append(num.as_str());
    s.append("}");
    s
}

/// The end time of a timer started at `start` that waits `wait_minutes`
/// minutes, when that moment is representable.
pub open spec fn future_end_time_spec(start: int, wait_minutes: int) -> Option<i64> {
    let end = start + wait_minutes * 60;
    if i64::MIN <= end <= i64::MAX {
        Some(end as i64)
    } else {
        None
    }
}

/// The end time of a timer started at `start` that waits `wait_minutes`
/// minutes, or nothing when that moment overflows the representable range.
pub fn future_end_time(start: i64, wait_minutes: u64) -> (r: Option<i64>)
    ensures
        r == future_end_time_spec(start as int, wait_minutes as int),
{
    let end = (start as i128) + (wait_minutes as i128) * 60;
    if end >= i64::MIN as i128 && end <= i64::MAX as i128 {
        Some(end as i64)
    } else {
        None
    }
}

/// Relies on chrono's Utc::now: the current wall-clock time in whole seconds
/// since the Unix epoch. Nothing can be promised of the clock's value.
#[verifier::external_body]
pub(crate) fn now_epoch_seconds() -> i64 {
    chrono::Utc::now().timestamp()
}

/// The moment a timer starts: the given time when there is one, the clock now
/// otherwise.
pub fn resolve_start_time(given_time: Option<i64>) -> (r: i64)
    ensures
        given_time is Some ==> r == given_time->0,
{
    match given_time {
        Some(t) => t,
        None => now_epoch_seconds(),
    }
}

/// The end time a freshly started timer stores: `wait_minutes` minutes past
/// the given start, or past the clock now when no start is given. Nothing is
/// handed back when that moment overflows the representable range.
pub fn store_future_time(given_time: Option<i64>, wait_minutes: u64) -> (r: Option<i64>)
    ensures
        given_time is Some ==> r == future_end_time_spec(
            given_time->0 as int,
            wait_minutes as int,
        ),
{
    let start = resolve_start_time(given_time);
    future_end_time(start, wait_minutes)
}

/// The end time stored to stop a timer: one second before the given moment,
/// which every waiter then sees as already past.
pub fn stop_record_end_time(now: i64) -> (r: i64)
    requires
        now > i64::MIN,
    ensures
        r == now - 1,
{
    now - 1
}

} // verus!
