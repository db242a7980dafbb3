//! The texts of down and recovery notices.

use vstd::prelude::*;
use vstd::string::*;

use crate::config::ServiceConfig;
use crate::text::{decimal, push_decimal};

verus! {

/// A coarse duration: hours and minutes from an hour on, minutes and seconds
/// from a minute on, else seconds (`"1h 3m"`, `"4m 12s"`, `"45s"`).
pub open spec fn humanize_text(total_secs: nat) -> Seq<char> {
    let h = total_secs / 3600;
    let m = (total_secs % 3600) / 60;
    let s = total_secs % 60;
    if h > 0 {
        decimal(h) + "h "@ + decimal(m) + "m"@
    } else if m > 0 {
        decimal(m) + "m "@ + decimal(s) + "s"@
    } else {
        decimal(s) + "s"@
    }
}

/// The notice that a service is down: its name, URL, the error (or
/// `"Check failed"` when there is none) and the time, one per line.
pub open spec fn down_text(
    name: Seq<char>,
    url: Seq<char>,
    error: Option<Seq<char>>,
    timestamp: Seq<char>,
) -> Seq<char> {
    "\u{1F534} "@ + name + " is DOWN\n"@ + url + "\n"@ + match error {
        Some(e) => e,
        None => "Check failed"@,
    } + "\n"@ + timestamp
}

/// The notice that a service has recovered: its name, how long it was down
/// when known, and the time.
pub open spec fn recovery_text(
    name: Seq<char>,
    down_for_secs: Option<u64>,
    timestamp: Seq<char>,
) -> Seq<char> {
    "\u{2705} "@ + name + " recovered\n"@ + match down_for_secs {
        Some(d) => "was down for "@ + humanize_text(d as nat) + "\n"@,
        None => Seq::empty(),
    } + timestamp
}

/// A coarse, human-readable form of a duration given in seconds.
pub fn humanize(total_secs: u64) -> (r: String)
    ensures
        r@ == humanize_text(total_secs as nat),
{
    let h = total_secs / 3600;
    let m = (total_secs % 3600) / 60;
    let s = total_secs % 60;
    let mut r = String::new();
    if h > 0 {
        push_decimal(&mut r, h as u128);
        r.append("h ");
        push_decimal(&mut r, m as u128);
        r.append("m");
    } else if m > 0 {
        push_decimal(&mut r, m as u128);
        r.append("m ");
        push_decimal(&mut r, s as u128);
        r.append("s");
    } else {
        push_decimal(&mut r, s as u128);
        r.append("s");
    }
    assert(r@ =~= humanize_text(total_secs as nat));
    r
}

/// The down notice for `service`, with its error message if known.
pub fn format_down(service: &ServiceConfig, error: Option<&str>, timestamp: &str) -> (r: String)
    ensures
        r@ == down_text(
            service.name@,
            service.url@,
            match error {
                Some(e) => Some(e@),
                None => None,
            },
            timestamp@,
        ),
{
    let mut r = String::from_str("\u{1F534} ");
    r.append(service.name.as_str());
    r.append(" is DOWN\n");
    r.append(service.url.as_str());
    r.append("\n");
    match error {
        Some(e) => r.append(e),
        None => r.append("Check failed"),
    }
    r.append("\n");
    r.append(timestamp);
    r
}

/// The recovery notice for `service`, saying how long it was down when known.
pub fn format_recovery(
    service: &ServiceConfig,
    down_for_secs: Option<u64>,
    timestamp: &str,
) -> (r: String)
    ensures
        r@ == recovery_text(service.name@, down_for_secs, timestamp@),
{
    let mut r = String::from_str("\u{2705} ");
    r.append(service.name.as_str());
    r.append(" recovered\n");
    if let Some(d) = down_for_secs {
        r.append("was down for ");
        r.append(humanize(d).as_str());
        r.append("\n");
    }
    r.append(timestamp);
    assert(r@ =~= recovery_text(service.name@, down_for_secs, timestamp@));
    r
}

} // verus!
