//! Text helpers for presenting devices: decimal formatting of numbers,
//! the human-readable "time ago" label, the status label of a device,
//! and the joined address list.

use vstd::prelude::*;
use vstd::string::StringExecFns;

verus! {

/// The character for one decimal digit.
pub open spec fn dec_digit(d: int) -> char {
    if d == 0 {
        '0'
    } else if d == 1 {
        '1'
    } else if d == 2 {
        '2'
    } else if d == 3 {
        '3'
    } else if d == 4 {
        '4'
    } else if d == 5 {
        '5'
    } else if d == 6 {
        '6'
    } else if d == 7 {
        '7'
    } else if d == 8 {
        '8'
    } else {
        '9'
    }
}

/// The decimal digits of a non-negative integer, most significant
/// first, without leading zeros (a single `'0'` for zero).
pub open spec fn dec_udigits(n: int) -> Seq<char>
    recommends
        n >= 0,
    decreases n,
{
    if n < 10 {
        seq![dec_digit(n)]
    } else {
        dec_udigits(n / 10).push(dec_digit(n % 10))
    }
}

/// The decimal form of an integer: a minus sign before the digits of
/// the magnitude when negative.
pub open spec fn dec_int(v: int) -> Seq<char> {
    if v < 0 {
        seq!['-'] + dec_udigits(-v)
    } else {
        dec_udigits(v)
    }
}

/// The characters of a sequence of decimal digits collected least
/// significant first, read back most significant first.
pub open spec fn rev_digit_chars(ds: Seq<u64>) -> Seq<char> {
    Seq::new(ds.len(), |i: int| dec_digit(ds[ds.len() - 1 - i] as int))
}

/// The one-character string for a decimal digit.
fn digit_str(d: u64) -> (r: &'static str)
    requires
        d < 10,
    ensures
        r@ == seq![dec_digit(d as int)],
{
    proof {
        reveal_strlit("0");
        reveal_strlit("1");
        reveal_strlit("2");
        reveal_strlit("3");
        reveal_strlit("4");
        reveal_strlit("5");
        reveal_strlit("6");
        reveal_strlit("7");
        reveal_strlit("8");
        reveal_strlit("9");
    }
    match d {
        0 => "0",
        1 => "1",
        2 => "2",
        3 => "3",
        4 => "4",
        5 => "5",
        6 => "6",
        7 => "7",
        8 => "8",
        _ => "9",
    }
}

/// The decimal form of an unsigned number.
#[verifier::loop_isolation(false)]
pub fn u64_to_dec(n: u64) -> (r: String)
    ensures
        r@ == dec_udigits(n as int),
{
    if n == 0 {
        let r = digit_str(0).to_owned();
        return r;
    }
    let mut digits: Vec<u64> = Vec::new();
    let mut m: u64 = n;
    while m > 0
        invariant
            forall|k: int| 0 <= k < digits@.len() ==> digits@[k] < 10,
            m > 0 ==> dec_udigits(n as int) == dec_udigits(m as int) + rev_digit_chars(digits@),
            m == 0 ==> digits@.len() > 0 && dec_udigits(n as int) == rev_digit_chars(digits@),
        decreases m,
    {
        let ghost m0 = m as int;
        let ghost pre = digits@;
        let d = m % 10;
        digits.push(d);
        m = m / 10;
        proof {
            assert(rev_digit_chars(digits@) =~= seq![dec_digit(d as int)] + rev_digit_chars(pre));
            if m0 < 10 {
                assert(dec_udigits(m0) == seq![dec_digit(m0)]);
                assert(dec_udigits(n as int) =~= rev_digit_chars(digits@));
            } else {
                assert(dec_udigits(m0) == dec_udigits(m0 / 10).push(dec_digit(m0 % 10)));
                assert(dec_udigits(m0) + rev_digit_chars(pre) =~= dec_udigits(m as int)
                    + rev_digit_chars(digits@));
            }
        }
    }
    let mut r = String::new();
    let len = digits.len();
    let mut i: usize = len;
    proof {
        assert(r@ =~= rev_digit_chars(digits@).take(0));
    }
    while i > 0
        invariant
            i <= len,
            r@ == rev_digit_chars(digits@).take(len - i),
        decreases i,
    {
        i = i - 1;
        let ghost k = len - i - 1;
        r.append(digit_str(digits[i]));
        proof {
            assert(rev_digit_chars(digits@)[k] == dec_digit(digits@[i as int] as int));
            assert(r@ =~= rev_digit_chars(digits@).take(k + 1));
        }
    }
    proof {
        assert(rev_digit_chars(digits@).take(len as int) =~= rev_digit_chars(digits@));
    }
    r
}

/// The decimal form of a signed number.
pub fn i64_to_dec(v: i64) -> (r: String)
    ensures
        r@ == dec_int(v as int),
{
    if v >= 0 {
        u64_to_dec(v as u64)
    } else {
        let mag: u64 = (-(v as i128)) as u64;
        proof {
            reveal_strlit("-");
            assert(mag as int == -(v as int));
        }
        let r = "-".to_owned().concat(u64_to_dec(mag).as_str());
        proof {
            assert(r@ =~= seq!['-'] + dec_udigits(-(v as int)));
        }
        r
    }
}

/// The "time ago" label for an elapsed number of seconds: seconds
/// under a minute, whole minutes under an hour, whole hours under a
/// day, whole days from there on.
pub open spec fn time_label(elapsed: int) -> Seq<char> {
    if elapsed < 60 {
        dec_int(elapsed) + "s ago"@
    } else if elapsed < 3600 {
        dec_int(elapsed / 60) + "m ago"@
    } else if elapsed < 86400 {
        dec_int(elapsed / 3600) + "h ago"@
    } else {
        dec_int(elapsed / 86400) + "d ago"@
    }
}

/// Formats a last-seen timestamp as a human-readable label, given the
/// current Unix time.
pub fn format_time(timestamp: i64, now: i64) -> (r: String)
    requires
        i64::MIN <= now - timestamp <= i64::MAX,
    ensures
        r@ == time_label(now - timestamp),
{
    let elapsed = now - timestamp;
    if elapsed < 60 {
        i64_to_dec(elapsed).concat("s ago")
    } else if elapsed < 3600 {
        i64_to_dec(elapsed / 60).concat("m ago")
    } else if elapsed < 86400 {
        i64_to_dec(elapsed / 3600).concat("h ago")
    } else {
        i64_to_dec(elapsed / 86400).concat("d ago")
    }
}

/// The status label shown for a device: reachability wins over plain
/// availability, and an expired device shows as offline.
pub fn device_status_label(available: bool, reachable: bool) -> (r: &'static str)
    ensures
        reachable ==> r@ == "Reachable"@,
        !reachable && available ==> r@ == "Found"@,
        !reachable && !available ==> r@ == "Offline"@,
{
    if reachable {
        "Reachable"
    } else if available {
        "Found"
    } else {
        "Offline"
    }
}

/// The items joined with a comma and a space between each pair, in
/// order.
pub open spec fn joined_with_commas(items: Seq<Seq<char>>) -> Seq<char>
    decreases items.len(),
{
    if items.len() == 0 {
        Seq::empty()
    } else if items.len() == 1 {
        items[0]
    } else {
        joined_with_commas(items.drop_last()) + ", "@ + items.last()
    }
}

/// The address list as shown in the device table: the addresses joined
/// with commas, or a placeholder when none was reported.
#[verifier::loop_isolation(false)]
pub fn join_addresses(addrs: &Vec<String>) -> (r: String)
    ensures
        addrs@.len() == 0 ==> r@ == "N/A"@,
        addrs@.len() > 0 ==> r@ == joined_with_commas(addrs.deep_view()),
{
    let n = addrs.len();
    if n == 0 {
        return "N/A".to_owned();
    }
    let mut r = addrs[0].clone();
    let mut i: usize = 1;
    proof {
        assert(addrs.deep_view().take(1) =~= seq![addrs.deep_view()[0]]);
        assert(r@ == joined_with_commas(addrs.deep_view().take(1)));
    }
    while i < n
        invariant
            1 <= i <= n,
            r@ == joined_with_commas(addrs.deep_view().take(i as int)),
        decreases n - i,
    {
        r.append(", ");
        r.append(addrs[i].as_str());
        proof {
            let taken = addrs.deep_view().take(i + 1);
            assert(taken.drop_last() =~= addrs.deep_view().take(i as int));
            assert(taken.last() == addrs.deep_view()[i as int]);
            assert(r@ == joined_with_commas(taken));
        }
        i = i + 1;
    }
    proof {
        assert(addrs.deep_view().take(n as int) =~= addrs.deep_view());
    }
    r
}

} // verus!
