//! The lines of the log of processor time.
use vstd::prelude::*;

use crate::number::{append_decimal, append_two_digits};

verus! {

/// The seconds between two lines of the log.
pub const LOG_INTERVAL_SECS: u64 = 120;

/// Hours, minutes and seconds of the day, in UTC, at a number of seconds after
/// 1970-01-01.
pub open spec fn clock(wall: nat) -> (nat, nat, nat) {
    let of_day = wall % 86_400;
    (of_day / 3_600, of_day / 60 % 60, of_day % 60)
}

/// A line of the log. The processor times and the share of the processors are
/// written out.
pub open spec fn log_text(
    wall: nat,
    total: Seq<char>,
    interval: Seq<char>,
    share: Seq<char>,
    cores: nat,
) -> Seq<char> {
    let (h, m, s) = clock(wall);
    "["@ + crate::number::decimal(wall) + "] ["@ + crate::number::two_digits(h) + ":"@
        + crate::number::two_digits(m) + ":"@ + crate::number::two_digits(s) + " UTC]  cpu_total="@
        + total + "s  cpu_interval_2min="@ + interval + "s  cpu_pct="@ + share + "%  cores="@
        + crate::number::decimal(cores) + "\n"@
}

/// Writes a line of the log.
pub fn log_line(wall: u64, total: &str, interval: &str, share: &str, cores: u64) -> (r: String)
    ensures
        r@ == log_text(wall as nat, total@, interval@, share@, cores as nat),
{
    let h: u64 = (wall / 3_600) % 24;
    let m: u64 = (wall / 60) % 60;
    let s: u64 = wall % 60;
    let mut line = String::new();
    line.append("[");
    append_decimal(&mut line, wall);
    line.append("] [");
    append_two_digits(&mut line, h);
    line.append(":");
    append_two_digits(&mut line, m);
    line.append(":");
    append_two_digits(&mut line, s);
    line.append(" UTC]  cpu_total=");
    line.append(total);
    line.append("s  cpu_interval_2min=");
    line.append(interval);
    line.append("s  cpu_pct=");
    line.append(share);
    line.append("%  cores=");
    append_decimal(&mut line, cores);
    line.append("\n");
    proof {
        assert(clock(wall as nat) == (h as nat, m as nat, s as nat)) by {
            let w = wall as int;
            assert((w % 86_400) / 3_600 == (w / 3_600) % 24);
            assert((w % 86_400) / 60 % 60 == (w / 60) % 60);
            assert((w % 86_400) % 60 == w % 60);
        }
        assert(line@ =~= log_text(wall as nat, total@, interval@, share@, cores as nat));
    }
    line
}

/// A line of the log tells the time of the day, in UTC, with two digits each for hour,
/// minute and second, and then what it is given, in this order.
pub proof fn law_log_lines(
    days: nat,
    h: nat,
    m: nat,
    s: nat,
    total: Seq<char>,
    interval: Seq<char>,
    share: Seq<char>,
    cores: nat,
)
    requires
        h < 24,
        m < 60,
        s < 60,
    ensures
        ({
            let wall = 86_400 * days + 3_600 * h + 60 * m + s;
            log_text(wall, total, interval, share, cores) == "["@ + crate::number::decimal(wall)
                + "] ["@ + crate::number::two_digits(h) + ":"@ + crate::number::two_digits(m) + ":"@
                + crate::number::two_digits(s) + " UTC]  cpu_total="@ + total
                + "s  cpu_interval_2min="@ + interval + "s  cpu_pct="@ + share + "%  cores="@
                + crate::number::decimal(cores) + "\n"@
        }),
{
    lemma_clock(days, h, m, s);
}

proof fn lemma_clock(days: nat, h: nat, m: nat, s: nat)
    requires
        h < 24,
        m < 60,
        s < 60,
    ensures
        clock(86_400 * days + 3_600 * h + 60 * m + s) == (h, m, s),
{
    let of_day = 3_600 * h + 60 * m + s;
    let wall = 86_400 * days + of_day;
    assert(of_day < 86_400);
    assert(wall % 86_400 == of_day);
    assert(of_day / 3_600 == h);
    assert(of_day / 60 == 60 * h + m);
    assert((60 * h + m) % 60 == m);
    assert(of_day % 60 == s);
}

} // verus!
