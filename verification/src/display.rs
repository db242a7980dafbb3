//! What the status page shows: short error chips, the overall banner, card
//! headers, bucket timestamps and the filler of a status bar.

use vstd::prelude::*;
use vstd::string::*;

use crate::status::ServiceStatus;
use crate::text::{
    decimal, push_decimal, push_signed_decimal, signed_decimal,
    chars_of, occurs_at, is_u16_chars, is_u16_text, last_occurrence, last_occurrence_chars, same_chars,
    starts_with, starts_with_chars, string_of, sub_chars, trim, trim_chars, trim_end_char,
    trim_end_char_chars,
};

verus! {

// ------------------------------------------------------------------------
// Error chips
// ------------------------------------------------------------------------

/// The chip for a status-code mismatch, given the message text after
/// `"Expected status "`: `"HTTP <code>"` when the text after its last
/// `"got "`, trimmed and without trailing dots, is a valid `u16`.
pub open spec fn http_chip(rest: Seq<char>) -> Seq<char> {
    match last_occurrence(rest, "got "@) {
        Some(i) => {
            let code = trim_end_char(trim(rest.skip(i + "got "@.len())), '.');
            if is_u16_text(code) {
                "HTTP "@ + code
            } else {
                "HTTP error"@
            }
        },
        None => "HTTP error"@,
    }
}

/// The short label shown for a check's error message.
pub open spec fn error_chip(raw: Seq<char>) -> Seq<char> {
    let msg = trim(raw);
    if msg.len() == 0 {
        "Error"@
    } else if starts_with(msg, "Expected status "@) {
        http_chip(msg.skip("Expected status "@.len() as int))
    } else if starts_with(msg, "Body did not contain "@) || starts_with(
        msg,
        "Body did not match regex "@,
    ) {
        "Body mismatch"@
    } else if starts_with(msg, "Invalid regex:"@) {
        "Config error"@
    } else if starts_with(msg, "Timeout after "@) || starts_with(msg, "Connection timed out"@) {
        "Timeout"@
    } else if starts_with(msg, "Connection refused"@) {
        "Refused"@
    } else if starts_with(msg, "Connection reset"@) {
        "Conn reset"@
    } else if starts_with(msg, "Connection aborted"@) {
        "Aborted"@
    } else if starts_with(msg, "DNS resolution failed"@) {
        "DNS error"@
    } else if starts_with(msg, "Network unreachable"@) || starts_with(msg, "Host unreachable"@) {
        "Unreachable"@
    } else if starts_with(msg, "TLS error"@) {
        "TLS error"@
    } else if starts_with(msg, "Connection failed"@) {
        "Connection failed"@
    } else if starts_with(msg, "Request failed:"@) {
        "Request failed"@
    } else if msg == "No check results yet"@ {
        "Pending"@
    } else {
        "Error"@
    }
}

fn http_chip_of(rest: &Vec<char>) -> (r: String)
    ensures
        r@ == http_chip(rest@),
{
    let got = chars_of("got ");
    let glen = got.len();
    match last_occurrence_chars(rest, &got) {
        Some(i) => {
            assert(occurs_at(rest@, got@, i as int));
            assert(i + glen <= rest.len());
            let after = sub_chars(rest, i + glen, rest.len());
            assert(after@ =~= rest@.skip(i + "got "@.len()));
            let trimmed = trim_chars(&after);
            let code = trim_end_char_chars(&trimmed, '.');
            if is_u16_chars(&code) {
                let mut r = String::from_str("HTTP ");
                r.append(string_of(&code).as_str());
                r
            } else {
                String::from_str("HTTP error")
            }
        },
        None => String::from_str("HTTP error"),
    }
}

fn has_prefix(msg: &Vec<char>, p: &str) -> (r: bool)
    ensures
        r == starts_with(msg@, p@),
{
    starts_with_chars(msg, &chars_of(p))
}

/// The short label for an error message, as the service card shows it:
/// `"HTTP <code>"` for a status mismatch, `"Timeout"`, `"Refused"` and so on
/// by the message's leading words, `"Pending"` before the first check, and
/// `"Error"` for anything else.
pub fn short_error_label(raw: &str) -> (r: String)
    ensures
        r@ == error_chip(raw@),
{
    let msg = trim_chars(&chars_of(raw));
    if msg.len() == 0 {
        return String::from_str("Error");
    }
    if has_prefix(&msg, "Expected status ") {
        let skip = chars_of("Expected status ").len();
        let rest = sub_chars(&msg, skip, msg.len());
        assert(rest@ =~= msg@.skip("Expected status "@.len() as int));
        return http_chip_of(&rest);
    }
    if has_prefix(&msg, "Body did not contain ") || has_prefix(&msg, "Body did not match regex ") {
        return String::from_str("Body mismatch");
    }
    if has_prefix(&msg, "Invalid regex:") {
        return String::from_str("Config error");
    }
    if has_prefix(&msg, "Timeout after ") || has_prefix(&msg, "Connection timed out") {
        return String::from_str("Timeout");
    }
    if has_prefix(&msg, "Connection refused") {
        return String::from_str("Refused");
    }
    if has_prefix(&msg, "Connection reset") {
        return String::from_str("Conn reset");
    }
    if has_prefix(&msg, "Connection aborted") {
        return String::from_str("Aborted");
    }
    if has_prefix(&msg, "DNS resolution failed") {
        return String::from_str("DNS error");
    }
    if has_prefix(&msg, "Network unreachable") || has_prefix(&msg, "Host unreachable") {
        return String::from_str("Unreachable");
    }
    if has_prefix(&msg, "TLS error") {
        return String::from_str("TLS error");
    }
    if has_prefix(&msg, "Connection failed") {
        return String::from_str("Connection failed");
    }
    if has_prefix(&msg, "Request failed:") {
        return String::from_str("Request failed");
    }
    if same_chars(&msg, &chars_of("No check results yet")) {
        return String::from_str("Pending");
    }
    String::from_str("Error")
}

// ------------------------------------------------------------------------
// Overall banner
// ------------------------------------------------------------------------

/// What the overall banner shows.
#[derive(Debug)]
pub struct Banner {
    pub label: &'static str,
    pub class: &'static str,
    pub icon: &'static str,
}

/// The banner's text for an overall verdict name.
pub open spec fn banner_label(status: Seq<char>) -> Seq<char> {
    if status == "all_operational"@ {
        "All Systems Operational"@
    } else if status == "partial_outage"@ {
        "Partial System Outage"@
    } else if status == "major_outage"@ {
        "Major System Outage"@
    } else {
        "Unknown Status"@
    }
}

/// The banner's style class for an overall verdict name.
pub open spec fn banner_class(status: Seq<char>) -> Seq<char> {
    if status == "all_operational"@ {
        "banner banner-operational"@
    } else if status == "partial_outage"@ {
        "banner banner-partial"@
    } else if status == "major_outage"@ {
        "banner banner-major"@
    } else {
        "banner"@
    }
}

/// A check mark for all operational, a cross otherwise.
pub open spec fn banner_icon(status: Seq<char>) -> Seq<char> {
    if status == "all_operational"@ {
        "\u{2713}"@
    } else {
        "\u{2717}"@
    }
}

/// The overall banner for a verdict name as the status endpoint sends it.
pub fn overall_banner(status: &str) -> (r: Banner)
    ensures
        r.label@ == banner_label(status@),
        r.class@ == banner_class(status@),
        r.icon@ == banner_icon(status@),
{
    let st = chars_of(status);
    if same_chars(&st, &chars_of("all_operational")) {
        Banner {
            label: "All Systems Operational",
            class: "banner banner-operational",
            icon: "\u{2713}",
        }
    } else if same_chars(&st, &chars_of("partial_outage")) {
        Banner { label: "Partial System Outage", class: "banner banner-partial", icon: "\u{2717}" }
    } else if same_chars(&st, &chars_of("major_outage")) {
        Banner { label: "Major System Outage", class: "banner banner-major", icon: "\u{2717}" }
    } else {
        Banner { label: "Unknown Status", class: "banner", icon: "\u{2717}" }
    }
}

// ------------------------------------------------------------------------
// Service card
// ------------------------------------------------------------------------

/// What the head of a service card shows.
#[derive(Debug)]
pub struct CardHeader {
    pub status_class: &'static str,
    pub status_symbol: &'static str,
    pub response_time: String,
    /// The error chip's label and the full message behind it.
    pub error: Option<(String, String)>,
}

/// The head of the card for a service's latest status: an up or down
/// indicator, the response time in milliseconds, and, when the error message
/// is not blank, its chip label with the trimmed message.
pub fn card_header(service: &ServiceStatus) -> (r: CardHeader)
    ensures
        r.status_class@ == if service.is_up {
            "status-indicator up"@
        } else {
            "status-indicator down"@
        },
        r.status_symbol@ == if service.is_up {
            "\u{2713}"@
        } else {
            "\u{2717}"@
        },
        r.response_time@ == signed_decimal(service.response_time_ms as int) + "ms"@,
        match service.error_message {
            Some(raw) => if trim(raw@).len() == 0 {
                r.error is None
            } else {
                r.error matches Some((label, full)) && label@ == error_chip(trim(raw@)) && full@
                    == trim(raw@)
            },
            None => r.error is None,
        },
{
    let (status_class, status_symbol) = if service.is_up {
        ("status-indicator up", "\u{2713}")
    } else {
        ("status-indicator down", "\u{2717}")
    };
    let mut response_time = String::new();
    push_signed_decimal(&mut response_time, service.response_time_ms);
    response_time.append("ms");
    let error = match &service.error_message {
        Some(raw) => {
            let msg = trim_chars(&chars_of(raw.as_str()));
            if msg.len() == 0 {
                None
            } else {
                let full = string_of(&msg);
                let label = short_error_label(full.as_str());
                Some((label, full))
            }
        },
        None => None,
    };
    CardHeader { status_class, status_symbol, response_time, error }
}

/// The first position among the histories' service ids that holds `id`.
pub open spec fn first_index_below(ids: Seq<String>, id: Seq<char>, n: int) -> Option<int>
    decreases n,
{
    if n <= 0 {
        None
    } else {
        match first_index_below(ids, id, n - 1) {
            Some(k) => Some(k),
            None => if ids[n - 1]@ == id {
                Some(n - 1)
            } else {
                None
            },
        }
    }
}

/// Which of the fetched histories belongs to the service with id `id`: the
/// first whose service id is `id`, if any.
pub fn history_index(history_ids: &Vec<String>, id: &String) -> (r: Option<usize>)
    ensures
        match r {
            Some(k) => first_index_below(history_ids@, id@, history_ids@.len() as int) == Some(
                k as int,
            ),
            None => first_index_below(history_ids@, id@, history_ids@.len() as int) is None,
        },
{
    let mut k: usize = 0;
    while k < history_ids.len()
        invariant
            k <= history_ids@.len(),
            first_index_below(history_ids@, id@, k as int) is None,
        decreases history_ids.len() - k,
    {
        if history_ids[k] == *id {
            proof {
                lemma_first_index_stays(history_ids@, id@, k as int + 1, history_ids@.len() as int);
            }
            return Some(k);
        }
        k += 1;
    }
    None
}

/// Once found below `m`, the first position stays the same below any `n >= m`.
pub proof fn lemma_first_index_stays(ids: Seq<String>, id: Seq<char>, m: int, n: int)
    requires
        0 <= m <= n,
    ensures
        first_index_below(ids, id, m) is Some ==> first_index_below(ids, id, n)
            == first_index_below(ids, id, m),
    decreases n - m,
{
    if m < n {
        lemma_first_index_stays(ids, id, m, n - 1);
    }
}

// ------------------------------------------------------------------------
// Status bar
// ------------------------------------------------------------------------

/// The number of grey "no data" marks that fill a bar of `expected` slots
/// holding `present` buckets.
pub fn gray_slot_count(expected: usize, present: usize) -> (r: usize)
    ensures
        r == if present >= expected {
            0
        } else {
            expected - present
        },
        present + r >= expected,
        r > 0 ==> present + r == expected,
{
    expected.saturating_sub(present)
}

/// Month, day, hour and minute of an instant in the relaxed RFC 3339 form
/// (what parsing it as a UTC `chrono::DateTime` gives), if it is one.
pub uninterp spec fn utc_fields(s: Seq<char>) -> Option<(u32, u32, u32, u32)>;

/// Month and day of a date written in the format `fmt` (what
/// `chrono::NaiveDate::parse_from_str` gives), if it is one.
pub uninterp spec fn date_fields(s: Seq<char>, fmt: Seq<char>) -> Option<(u32, u32)>;

/// `chrono::DateTime<Utc>` parsing (`FromStr`): the month (1 to 12), day (1 to
/// 31), hour (0 to 23) and minute (0 to 59) of the instant, in UTC. Which
/// texts parse is only named here.
#[verifier::external_body]
fn parse_utc_fields(ts: &str) -> (r: Option<(u32, u32, u32, u32)>)
    ensures
        r == utc_fields(ts@),
        r matches Some((mo, d, h, mi)) ==> 1 <= mo <= 12 && 1 <= d <= 31 && h < 24 && mi < 60,
{
    match ts.parse::<chrono::DateTime<chrono::Utc>>() {
        Ok(dt) => Some(
            (
                chrono::Datelike::month(&dt),
                chrono::Datelike::day(&dt),
                chrono::Timelike::hour(&dt),
                chrono::Timelike::minute(&dt),
            ),
        ),
        Err(_) => None,
    }
}

/// `chrono::NaiveDate::parse_from_str`: the month (1 to 12) and day (1 to 31)
/// of the date that `ts` writes in the format `fmt`. Which texts parse is only
/// named here.
#[verifier::external_body]
fn parse_date_fields(ts: &str, fmt: &str) -> (r: Option<(u32, u32)>)
    ensures
        r == date_fields(ts@, fmt@),
        r matches Some((mo, d)) ==> 1 <= mo <= 12 && 1 <= d <= 31,
{
    match chrono::NaiveDate::parse_from_str(ts, fmt) {
        Ok(date) => Some((chrono::Datelike::month(&date), chrono::Datelike::day(&date))),
        Err(_) => None,
    }
}

/// The English three-letter abbreviation of month `m` (1 to 12).
pub open spec fn month_abbrev(m: u32) -> Seq<char> {
    if m == 1 {
        "Jan"@
    } else if m == 2 {
        "Feb"@
    } else if m == 3 {
        "Mar"@
    } else if m == 4 {
        "Apr"@
    } else if m == 5 {
        "May"@
    } else if m == 6 {
        "Jun"@
    } else if m == 7 {
        "Jul"@
    } else if m == 8 {
        "Aug"@
    } else if m == 9 {
        "Sep"@
    } else if m == 10 {
        "Oct"@
    } else if m == 11 {
        "Nov"@
    } else {
        "Dec"@
    }
}

/// `n` in decimal, padded with a zero to two digits.
pub open spec fn two_digits(n: u32) -> Seq<char> {
    if n < 10 {
        seq!['0'] + decimal(n as nat)
    } else {
        decimal(n as nat)
    }
}

/// `"<Mon> <dd>"` for a month and day.
pub open spec fn month_day(mo: u32, d: u32) -> Seq<char> {
    month_abbrev(mo) + " "@ + two_digits(d)
}

/// How a bucket's timestamp is shown: a day bucket as `"<Mon> <dd> UTC"`, an
/// hour bucket as `"<Mon> <dd>, <HH>:<MM> – <HH+1>:<MM> UTC"`; day buckets
/// also accept a plain `YYYY-MM-DD` date; anything unreadable is shown as is.
pub open spec fn timestamp_text(ts: Seq<char>, is_daily: bool) -> Seq<char> {
    match utc_fields(ts) {
        Some((mo, d, h, mi)) => if is_daily {
            month_day(mo, d) + " UTC"@
        } else {
            month_day(mo, d) + ", "@ + two_digits(h) + ":"@ + two_digits(mi) + " \u{2013} "@
                + two_digits(((h + 1) % 24) as u32) + ":"@ + two_digits(mi) + " UTC"@
        },
        None => if is_daily {
            match date_fields(ts, "%Y-%m-%d"@) {
                Some((mo, d)) => month_day(mo, d) + " UTC"@,
                None => ts,
            }
        } else {
            ts
        },
    }
}

fn month_abbrev_str(m: u32) -> (r: &'static str)
    ensures
        r@ == month_abbrev(m),
{
    if m == 1 {
        "Jan"
    } else if m == 2 {
        "Feb"
    } else if m == 3 {
        "Mar"
    } else if m == 4 {
        "Apr"
    } else if m == 5 {
        "May"
    } else if m == 6 {
        "Jun"
    } else if m == 7 {
        "Jul"
    } else if m == 8 {
        "Aug"
    } else if m == 9 {
        "Sep"
    } else if m == 10 {
        "Oct"
    } else if m == 11 {
        "Nov"
    } else {
        "Dec"
    }
}

fn push_two_digits(out: &mut String, n: u32)
    ensures
        final(out)@ == old(out)@ + two_digits(n),
{
    if n < 10 {
        proof {
            reveal_strlit("0");
        }
        out.append("0");
    }
    push_decimal(out, n as u128);
    assert(final(out)@ =~= old(out)@ + two_digits(n));
}

fn push_month_day(out: &mut String, mo: u32, d: u32)
    ensures
        final(out)@ == old(out)@ + month_day(mo, d),
{
    out.append(month_abbrev_str(mo));
    out.append(" ");
    push_two_digits(out, d);
    assert(final(out)@ =~= old(out)@ + month_day(mo, d));
}

/// How a history bucket's timestamp is shown in a status bar's tooltip.
pub fn format_timestamp(ts: &str, is_daily: bool) -> (r: String)
    ensures
        r@ == timestamp_text(ts@, is_daily),
{
    match parse_utc_fields(ts) {
        Some((mo, d, h, mi)) => {
            let mut r = String::new();
            push_month_day(&mut r, mo, d);
            if is_daily {
                r.append(" UTC");
            } else {
                r.append(", ");
                push_two_digits(&mut r, h);
                r.append(":");
                push_two_digits(&mut r, mi);
                r.append(" \u{2013} ");
                push_two_digits(&mut r, (h + 1) % 24);
                r.append(":");
                push_two_digits(&mut r, mi);
                r.append(" UTC");
            }
            assert(r@ =~= timestamp_text(ts@, is_daily));
            r
        },
        None => {
            if is_daily {
                match parse_date_fields(ts, "%Y-%m-%d") {
                    Some((mo, d)) => {
                        let mut r = String::new();
                        push_month_day(&mut r, mo, d);
                        r.append(" UTC");
                        assert(r@ =~= timestamp_text(ts@, is_daily));
                        r
                    },
                    None => String::from_str(ts),
                }
            } else {
                String::from_str(ts)
            }
        },
    }
}

} // verus!
