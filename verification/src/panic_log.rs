//! The lines of the log that the background programs keep.
//!
//! They run without a console, so what they print is seen by nobody. What
//! matters goes to a log file in place of it: panics, and events such as the
//! loss of a connection. Each line bears the time at which it was written.

use crate::calendar::{civil_from_days, Date};
use crate::decimal::{push_decimal, push_padded};
use vstd::prelude::*;
use vstd::utf8::*;

verus! {

/// The directory of the log files, under the user's local data directory.
pub const LOG_DIRECTORY: &'static str = "TermHost";

/// The time `secs` seconds after the beginning of 1 January 1970, UTC, as
/// `YYYY-MM-DDThh:mm:ssZ`.
pub open spec fn time_text(secs: int) -> Seq<char> {
    let date = crate::calendar::date_of(secs / 86_400);
    let rem = secs % 86_400;
    crate::decimal::padded(date.year as int, 4) + "-"@ + crate::decimal::padded(
        date.month as int,
        2,
    ) + "-"@ + crate::decimal::padded(date.day as int, 2) + "T"@ + crate::decimal::padded(
        rem / 3600,
        2,
    ) + ":"@ + crate::decimal::padded(rem % 3600 / 60, 2) + ":"@ + crate::decimal::padded(
        rem % 60,
        2,
    ) + "Z"@
}

/// The text of what a clock shows; `None` is a clock set before 1970.
pub open spec fn timestamp_text(clock: Option<u64>) -> Seq<char> {
    match clock {
        Some(secs) => time_text((secs as i64) as int),
        None => "????-??-??T??:??:??Z"@,
    }
}

/// The text of a reading of the clock.
pub fn timestamp_at(clock: Option<u64>) -> (text: String)
    ensures
        text@ == timestamp_text(clock),
{
    let secs: i64 = match clock {
        Some(s) => s as i64,
        None => return "????-??-??T??:??:??Z".to_owned(),
    };
    let days: i64 = secs.checked_div_euclid(86_400).unwrap();
    let rem: i64 = secs.checked_rem_euclid(86_400).unwrap();
    let date: Date = civil_from_days(days);
    proof {
        let other = crate::calendar::date_of(secs as int / 86_400);
        crate::calendar::dates_are_told_apart(date, other);
    }
    let mut text: String = String::new();
    push_padded(&mut text, date.year, 4);
    text.append("-");
    push_padded(&mut text, date.month, 2);
    text.append("-");
    push_padded(&mut text, date.day, 2);
    text.append("T");
    push_padded(&mut text, rem / 3600, 2);
    text.append(":");
    push_padded(&mut text, (rem % 3600) / 60, 2);
    text.append(":");
    push_padded(&mut text, rem % 60, 2);
    text.append("Z");
    assert(text@ =~= time_text(secs as int));
    text
}

/// Reads the system clock with `std::time::SystemTime::elapsed`, called on
/// `UNIX_EPOCH`: the whole seconds since then, or `None` if the clock is set to
/// an earlier time. Nothing is claimed of the number.
#[verifier::external_body]
fn seconds_since_epoch() -> (clock: Option<u64>) {
    match std::time::SystemTime::UNIX_EPOCH.elapsed() {
        Ok(elapsed) => Some(elapsed.as_secs()),
        Err(_) => None,
    }
}

/// `clock` is what a reading of the system clock gave, in [`timestamp`] or in
/// [`log_line`]. Which numbers these are nothing says: one comes only of a reading.
pub closed spec fn read_from_the_clock(clock: Option<u64>) -> bool {
    call_ensures(seconds_since_epoch, (), clock)
}

/// The time now: the text of what the system clock shows.
pub fn timestamp() -> (text: String)
    ensures
        exists|clock: Option<u64>|
            read_from_the_clock(clock) && text@ == #[trigger] timestamp_text(clock),
{
    let clock: Option<u64> = seconds_since_epoch();
    assert(read_from_the_clock(clock));
    timestamp_at(clock)
}

/// A line of the log: the time, what happened, and the end of the line.
pub open spec fn entry_text(time: Seq<char>, line: Seq<char>) -> Seq<char> {
    "["@ + time + "] "@ + line + "\n"@
}

/// The line of the log that tells `line` at a time.
pub fn log_entry(time: &str, line: &str) -> (entry: String)
    ensures
        entry@ == entry_text(time@, line@),
{
    let mut entry: String = "[".to_owned();
    entry.append(time);
    entry.append("] ");
    entry.append(line);
    entry.append("\n");
    entry
}

/// The line of the log that tells `line` now.
pub fn log_line(line: &str) -> (entry: String)
    ensures
        exists|clock: Option<u64>|
            read_from_the_clock(clock) && entry@ == entry_text(
                #[trigger] timestamp_text(clock),
                line@,
            ),
{
    let time: String = timestamp();
    log_entry(time.as_str(), line)
}

/// The file that a program of that name logs to, in [`LOG_DIRECTORY`].
pub fn log_file_name(name: &str) -> (file: String)
    ensures
        file@ == name@ + ".log"@,
{
    let mut file: String = name.to_owned();
    file.append(".log");
    file
}

/// What is told of a panic: in which thread, where and with which message, each
/// with something to stand in its place where it is not known.
pub open spec fn panic_text(
    thread: Option<Seq<char>>,
    location: Option<(Seq<char>, u32)>,
    payload: Option<Seq<char>>,
) -> Seq<char> {
    "PANIC in thread '"@ + (match thread {
        Some(name) => name,
        None => "<unnamed>"@,
    }) + "' at "@ + (match location {
        Some((file, line)) => file + ":"@ + crate::decimal::decimal(line as nat),
        None => "<unknown location>"@,
    }) + ": "@ + match payload {
        Some(message) => message,
        None => "<non-string panic payload>"@,
    }
}

/// The line that tells of a panic.
pub fn panic_line(
    thread: Option<&str>,
    location: Option<(&str, u32)>,
    payload: Option<&str>,
) -> (line: String)
    ensures
        line@ == panic_text(
            match thread {
                Some(name) => Some(name@),
                None => None,
            },
            match location {
                Some((file, number)) => Some((file@, number)),
                None => None,
            },
            match payload {
                Some(message) => Some(message@),
                None => None,
            },
        ),
{
    let mut text: String = "PANIC in thread '".to_owned();
    match thread {
        Some(name) => text.append(name),
        None => text.append("<unnamed>"),
    }
    text.append("' at ");
    match location {
        Some((file, number)) => {
            let ghost before = text@;
            text.append(file);
            text.append(":");
            push_decimal(&mut text, number as u64);
            assert(text@ =~= before + (file@ + ":"@ + crate::decimal::decimal(number as nat)));
        },
        None => text.append("<unknown location>"),
    }
    text.append(": ");
    match payload {
        Some(message) => text.append(message),
        None => text.append("<non-string panic payload>"),
    }
    text
}

proof fn lemma_small_decimals(n: int)
    requires
        0 <= n <= 9999,
    ensures
        crate::decimal::decimal(n as nat).len() <= 4,
        n <= 99 ==> crate::decimal::decimal(n as nat).len() <= 2,
{
    reveal_with_fuel(crate::decimal::decimal, 5);
}

/// The parts of a time in a four-digit year: the numbers that are written, and
/// how wide each of them comes out.
proof fn lemma_time_parts(secs: int)
    requires
        0 <= secs <= 253_402_300_799,
    ensures
        ({
            let date = crate::calendar::date_of(secs / 86_400);
            let rem = secs % 86_400;
            &&& date.exists_in_calendar()
            &&& date.day_number() == secs / 86_400
            &&& 0 <= date.year <= 9999
            &&& crate::decimal::padded(date.year as int, 4).len() == 4
            &&& crate::decimal::padded(date.month as int, 2).len() == 2
            &&& crate::decimal::padded(date.day as int, 2).len() == 2
            &&& crate::decimal::padded(rem / 3600, 2).len() == 2
            &&& crate::decimal::padded(rem % 3600 / 60, 2).len() == 2
            &&& crate::decimal::padded(rem % 60, 2).len() == 2
        }),
{
    let days = secs / 86_400;
    let rem = secs % 86_400;
    crate::calendar::every_day_has_a_date(days);
    let date = crate::calendar::date_of(days);
    crate::calendar::four_digit_years(date);
    lemma_small_decimals(date.year as int);
    lemma_small_decimals(date.month as int);
    lemma_small_decimals(date.day as int);
    lemma_small_decimals(rem / 3600);
    lemma_small_decimals(rem % 3600 / 60);
    lemma_small_decimals(rem % 60);
}

/// Up to the end of the year 9999 a timestamp has twenty characters, the last
/// of them a `Z`, and its separators stand where they are looked for. So has
/// the one of a clock that cannot be read.
pub proof fn timestamps_are_well_formed(clock: Option<u64>)
    requires
        clock matches Some(secs) ==> secs <= 253_402_300_799,
    ensures
        ({
            let text = timestamp_text(clock);
            &&& text.len() == 20
            &&& text[4] == '-' && text[7] == '-' && text[10] == 'T'
            &&& text[13] == ':' && text[16] == ':' && text[19] == 'Z'
        }),
{
    reveal_strlit("-");
    reveal_strlit("T");
    reveal_strlit(":");
    reveal_strlit("Z");
    reveal_strlit("????-??-??T??:??:??Z");
    if let Some(secs) = clock {
        lemma_time_parts(secs as int);
    }
}

/// Where the numbers stand in a time in a four-digit year.
proof fn lemma_time_fields(secs: int)
    requires
        0 <= secs <= 253_402_300_799,
    ensures
        ({
            let text = time_text(secs);
            let date = crate::calendar::date_of(secs / 86_400);
            let rem = secs % 86_400;
            &&& text.len() == 20
            &&& text.subrange(0, 4) == crate::decimal::padded(date.year as int, 4)
            &&& text.subrange(5, 7) == crate::decimal::padded(date.month as int, 2)
            &&& text.subrange(8, 10) == crate::decimal::padded(date.day as int, 2)
            &&& text.subrange(11, 13) == crate::decimal::padded(rem / 3600, 2)
            &&& text.subrange(14, 16) == crate::decimal::padded(rem % 3600 / 60, 2)
            &&& text.subrange(17, 19) == crate::decimal::padded(rem % 60, 2)
        }),
{
    reveal_strlit("-");
    reveal_strlit("T");
    reveal_strlit(":");
    reveal_strlit("Z");
    lemma_time_parts(secs);
    let text = time_text(secs);
    let date = crate::calendar::date_of(secs / 86_400);
    let rem = secs % 86_400;
    assert(text.subrange(0, 4) =~= crate::decimal::padded(date.year as int, 4));
    assert(text.subrange(5, 7) =~= crate::decimal::padded(date.month as int, 2));
    assert(text.subrange(8, 10) =~= crate::decimal::padded(date.day as int, 2));
    assert(text.subrange(11, 13) =~= crate::decimal::padded(rem / 3600, 2));
    assert(text.subrange(14, 16) =~= crate::decimal::padded(rem % 3600 / 60, 2));
    assert(text.subrange(17, 19) =~= crate::decimal::padded(rem % 60, 2));
}

/// Up to the end of the year 9999 no two seconds have the same timestamp.
pub proof fn timestamps_are_told_apart(a: u64, b: u64)
    requires
        a <= 253_402_300_799,
        b <= 253_402_300_799,
        timestamp_text(Some(a)) == timestamp_text(Some(b)),
    ensures
        a == b,
{
    lemma_time_parts(a as int);
    lemma_time_parts(b as int);
    lemma_time_fields(a as int);
    lemma_time_fields(b as int);
    let p = crate::calendar::date_of(a as int / 86_400);
    let q = crate::calendar::date_of(b as int / 86_400);
    let r = a as int % 86_400;
    let t = b as int % 86_400;
    crate::decimal::padded_numbers_are_told_apart(p.year as int, q.year as int, 4);
    crate::decimal::padded_numbers_are_told_apart(p.month as int, q.month as int, 2);
    crate::decimal::padded_numbers_are_told_apart(p.day as int, q.day as int, 2);
    crate::decimal::padded_numbers_are_told_apart(r / 3600, t / 3600, 2);
    crate::decimal::padded_numbers_are_told_apart(r % 3600 / 60, t % 3600 / 60, 2);
    crate::decimal::padded_numbers_are_told_apart(r % 60, t % 60, 2);
    assert(p == q);
    assert(r == t);
}

/// A timestamp is ASCII.
pub proof fn timestamps_are_ascii(clock: Option<u64>)
    ensures
        is_ascii_chars(timestamp_text(clock)),
{
    reveal_strlit("-");
    reveal_strlit("T");
    reveal_strlit(":");
    reveal_strlit("Z");
    reveal_strlit("????-??-??T??:??:??Z");
    if let Some(s) = clock {
        let secs = (s as i64) as int;
        let date = crate::calendar::date_of(secs / 86_400);
        let rem = secs % 86_400;
        crate::decimal::padded_decimals_are_ascii(date.year as int, 4);
        crate::decimal::padded_decimals_are_ascii(date.month as int, 2);
        crate::decimal::padded_decimals_are_ascii(date.day as int, 2);
        crate::decimal::padded_decimals_are_ascii(rem / 3600, 2);
        crate::decimal::padded_decimals_are_ascii(rem % 3600 / 60, 2);
        crate::decimal::padded_decimals_are_ascii(rem % 60, 2);
    }
}

/// How two texts compare so far: the first is before the second, or they are the same.
#[verifier::opaque]
spec fn so_far(p: Seq<char>, q: Seq<char>, before: bool) -> bool {
    if before {
        crate::text_order::goes_before(p, q)
    } else {
        p == q
    }
}

/// Two texts go on with a number each, of the same width, and a separator. Where
/// they are the same so far, the numbers decide.
proof fn lemma_next_number(
    p: Seq<char>,
    q: Seq<char>,
    before: bool,
    a: int,
    b: int,
    width: int,
    mark: Seq<char>,
)
    requires
        0 <= a,
        0 <= b,
        1 <= width,
        crate::decimal::padded(a, width).len() == width,
        crate::decimal::padded(b, width).len() == width,
        so_far(p, q, before),
        before || a <= b,
    ensures
        so_far(
            p + crate::decimal::padded(a, width) + mark,
            q + crate::decimal::padded(b, width) + mark,
            before || a < b,
        ),
{
    reveal(so_far);
    let x = crate::decimal::padded(a, width);
    let y = crate::decimal::padded(b, width);
    if a < b {
        crate::decimal::padded_numbers_are_in_order(a, b, width);
    }
    crate::text_order::lemma_before_in_parts(p, q, x, y);
    crate::text_order::lemma_before_in_parts(p + x, q + y, mark, mark);
}

/// Of two times of a day, the hours decide which is earlier, then the minutes,
/// then the seconds.
proof fn lemma_times_of_day(r: int, t: int)
    requires
        0 <= r < t < 86_400,
    ensures
        r / 3600 <= t / 3600,
        r / 3600 == t / 3600 ==> r % 3600 / 60 <= t % 3600 / 60,
        r / 3600 == t / 3600 && r % 3600 / 60 == t % 3600 / 60 ==> r % 60 < t % 60,
{
}

proof fn lemma_later_times_come_later(a: int, b: int)
    requires
        0 <= a < b <= 253_402_300_799,
    ensures
        crate::text_order::goes_before(time_text(a), time_text(b)),
{
    lemma_time_parts(a);
    lemma_time_parts(b);
    let d = crate::calendar::date_of(a / 86_400);
    let e = crate::calendar::date_of(b / 86_400);
    let r = a % 86_400;
    let t = b % 86_400;
    crate::calendar::dates_are_in_order(d, e);
    if a / 86_400 == b / 86_400 {
        crate::calendar::dates_are_told_apart(d, e);
        lemma_times_of_day(r, t);
    }
    let none = Seq::<char>::empty();
    assert(so_far(none, none, false)) by {
        reveal(so_far);
    }
    lemma_next_number(none, none, false, d.year as int, e.year as int, 4, "-"@);
    let p1 = none + crate::decimal::padded(d.year as int, 4) + "-"@;
    let q1 = none + crate::decimal::padded(e.year as int, 4) + "-"@;
    let less1 = d.year < e.year;
    lemma_next_number(p1, q1, less1, d.month as int, e.month as int, 2, "-"@);
    let p2 = p1 + crate::decimal::padded(d.month as int, 2) + "-"@;
    let q2 = q1 + crate::decimal::padded(e.month as int, 2) + "-"@;
    let less2 = less1 || d.month < e.month;
    lemma_next_number(p2, q2, less2, d.day as int, e.day as int, 2, "T"@);
    let p3 = p2 + crate::decimal::padded(d.day as int, 2) + "T"@;
    let q3 = q2 + crate::decimal::padded(e.day as int, 2) + "T"@;
    let less3 = less2 || d.day < e.day;
    lemma_next_number(p3, q3, less3, r / 3600, t / 3600, 2, ":"@);
    let p4 = p3 + crate::decimal::padded(r / 3600, 2) + ":"@;
    let q4 = q3 + crate::decimal::padded(t / 3600, 2) + ":"@;
    let less4 = less3 || r / 3600 < t / 3600;
    lemma_next_number(p4, q4, less4, r % 3600 / 60, t % 3600 / 60, 2, ":"@);
    let p5 = p4 + crate::decimal::padded(r % 3600 / 60, 2) + ":"@;
    let q5 = q4 + crate::decimal::padded(t % 3600 / 60, 2) + ":"@;
    let less5 = less4 || r % 3600 / 60 < t % 3600 / 60;
    lemma_next_number(p5, q5, less5, r % 60, t % 60, 2, "Z"@);
    lemma_time_text_from_nothing(a);
    lemma_time_text_from_nothing(b);
    reveal(so_far);
}

/// The text of a time, put together from nothing.
proof fn lemma_time_text_from_nothing(secs: int)
    ensures
        ({
            let date = crate::calendar::date_of(secs / 86_400);
            let rem = secs % 86_400;
            time_text(secs) == Seq::<char>::empty() + crate::decimal::padded(date.year as int, 4)
                + "-"@ + crate::decimal::padded(date.month as int, 2) + "-"@
                + crate::decimal::padded(date.day as int, 2) + "T"@ + crate::decimal::padded(
                rem / 3600,
                2,
            ) + ":"@ + crate::decimal::padded(rem % 3600 / 60, 2) + ":"@
                + crate::decimal::padded(rem % 60, 2) + "Z"@
        }),
{
    let year = crate::decimal::padded(crate::calendar::date_of(secs / 86_400).year as int, 4);
    assert(Seq::<char>::empty() + year =~= year);
}

/// Up to the end of the year 9999 timestamps are in the order of time: the lines of
/// a log that are sorted as text are sorted by when they were written.
pub proof fn timestamps_are_in_order(a: u64, b: u64)
    requires
        a <= 253_402_300_799,
        b <= 253_402_300_799,
    ensures
        crate::text_order::text_le(timestamp_text(Some(a)), timestamp_text(Some(b))) <==> a <= b,
{
    let x = timestamp_text(Some(a));
    let y = timestamp_text(Some(b));
    timestamps_are_ascii(Some(a));
    timestamps_are_ascii(Some(b));
    crate::text_order::texts_are_ordered(x, y, x);
    if a < b {
        lemma_later_times_come_later(a as int, b as int);
        crate::text_order::lower_texts_come_first(x, y);
    } else if b < a {
        lemma_later_times_come_later(b as int, a as int);
        crate::text_order::lower_texts_come_first(y, x);
    }
}

/// Whatever was read from the clock came of the call that reads it.
proof fn readings_come_of_the_clock(clock: Option<u64>)
    ensures
        read_from_the_clock(clock) <==> call_ensures(seconds_since_epoch, (), clock),
{
}

/// A time is written as the date and the time of day that it is: for every date of the
/// calendar and every time of day, the clock that shows the second on which these fall is
/// written with them. A clock that shows more than 63 bits hold is taken for one before
/// 1970, as it is in 64 bits with a sign.
pub proof fn a_time_is_written_as_its_date(secs: u64, date: Date, hour: int, minute: int, second: int)
    requires
        date.exists_in_calendar(),
        0 <= hour < 24,
        0 <= minute < 60,
        0 <= second < 60,
        (secs as i64) as int == 86_400 * date.day_number() + 3600 * hour + 60 * minute + second,
    ensures
        timestamp_text(Some(secs)) == crate::decimal::padded(date.year as int, 4) + "-"@
            + crate::decimal::padded(date.month as int, 2) + "-"@ + crate::decimal::padded(
            date.day as int,
            2,
        ) + "T"@ + crate::decimal::padded(hour, 2) + ":"@ + crate::decimal::padded(minute, 2) + ":"@
            + crate::decimal::padded(second, 2) + "Z"@,
        timestamp_text(None) == "????-??-??T??:??:??Z"@,
{
    let all = (secs as i64) as int;
    let rem = 3600 * hour + 60 * minute + second;
    assert(all / 86_400 == date.day_number());
    assert(all % 86_400 == rem);
    assert(rem / 3600 == hour);
    assert(rem % 3600 / 60 == minute);
    assert(rem % 60 == second);
    let other = crate::calendar::date_of(date.day_number());
    assert(other.exists_in_calendar() && other.day_number() == date.day_number());
    crate::calendar::dates_are_told_apart(other, date);
}

/// A line of the log is the time in brackets, a space, what happened, in full, and the end
/// of the line. So the time stands in front of every line, and no two lines run together.
pub proof fn entries_hold_time_and_line(time: Seq<char>, line: Seq<char>)
    ensures
        ({
            let entry = entry_text(time, line);
            let n = time.len() as int;
            &&& entry.len() == n + line.len() + 4
            &&& entry[0] == '['
            &&& entry.subrange(1, n + 1) == time
            &&& entry[n + 1] == ']' && entry[n + 2] == ' '
            &&& entry.subrange(n + 3, n + 3 + line.len()) == line
            &&& entry.last() == '\n'
        }),
{
    reveal_strlit("[");
    reveal_strlit("] ");
    reveal_strlit("\n");
    let entry = entry_text(time, line);
    let n = time.len() as int;
    assert(entry.subrange(1, n + 1) =~= time);
    assert(entry.subrange(n + 3, n + 3 + line.len()) =~= line);
}

/// The line of a panic says all that is known of it, in full: thread, file, line and
/// message. What is not known is said like something that is known and has that name.
pub proof fn panics_are_told_in_full(
    thread: Seq<char>,
    file: Seq<char>,
    line: u32,
    message: Seq<char>,
    t: Option<Seq<char>>,
    l: Option<(Seq<char>, u32)>,
    p: Option<Seq<char>>,
)
    ensures
        panic_text(Some(thread), Some((file, line)), Some(message)) == "PANIC in thread '"@ + thread
            + "' at "@ + (file + ":"@ + crate::decimal::decimal(line as nat)) + ": "@ + message,
        panic_text(Some(thread), None, Some(message)) == "PANIC in thread '"@ + thread + "' at "@
            + "<unknown location>"@ + ": "@ + message,
        panic_text(None, l, p) == panic_text(Some("<unnamed>"@), l, p),
        panic_text(t, l, None) == panic_text(t, l, Some("<non-string panic payload>"@)),
{
}

} // verus!
