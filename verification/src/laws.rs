//! Properties that tie the pieces together: the status page's error chip
//! keys off the leading words of the messages that checks record, so every
//! recorded message is shown with the chip of its kind.

use vstd::prelude::*;

use crate::check::{
    connect_label, connect_message, first_kind, invalid_regex_message, mentions_dns, mentions_tls,
    missing_text_message, regex_mismatch_message, request_failed_message, status_mismatch_text,
    timeout_message, IoErrorKind,
};
use crate::config::{
    is_absolute_url, lemma_valid_config_distinct_ids, lemma_validation_from_ok, validation,
    ServiceConfig,
};
use crate::display::{
    banner_label, error_chip, first_index_below, month_day, timestamp_text,
    two_digits, utc_fields,
};
use crate::notify::humanize_text;
use crate::status::{
    group_for, latest_index, latest_index_below, lemma_buckets_of, overall_status_name, CheckResult,
    OverallStatus,
};
use crate::text::{
    all_digits, decimal, is_digit, is_u16_text, last_occurrence, lemma_decimal_digits,
    lemma_decimal_value, lemma_last_occurrence_is, lemma_trim_idempotent, lemma_not_starts_with,
    lemma_starts_with_concat, lemma_starts_with_self, lemma_trim_concat, lemma_trim_plain,
    occurs_at, starts_with, trim, trim_end, trim_end_char, unicode_whitespace, unsigned_digits,
};

verus! {

/// The chip shown for a connect failure whose message leads with the
/// canonical label of socket error kind `k`.
pub open spec fn kind_chip(k: IoErrorKind) -> Seq<char> {
    match k {
        IoErrorKind::ConnectionRefused => "Refused"@,
        IoErrorKind::TimedOut => "Timeout"@,
        IoErrorKind::NetworkUnreachable => "Unreachable"@,
        IoErrorKind::HostUnreachable => "Unreachable"@,
        IoErrorKind::ConnectionReset => "Conn reset"@,
        IoErrorKind::ConnectionAborted => "Aborted"@,
        IoErrorKind::Other => "Connection failed"@,
    }
}

/// A timed-out check is shown with the chip `Timeout`.
pub proof fn law_timeout_chip(timeout_secs: u64)
    ensures
        error_chip(timeout_message(timeout_secs)) == "Timeout"@,
{
    reveal_strlit("Timeout after ");
    reveal_strlit("ms");
    reveal_strlit("Expected status ");
    reveal_strlit("Body did not contain ");
    reveal_strlit("Body did not match regex ");
    reveal_strlit("Invalid regex:");
    let p = "Timeout after "@;
    let y = decimal(timeout_secs as nat * 1000) + "ms"@;
    assert(timeout_message(timeout_secs) == p + y);
    lemma_decimal_digits(timeout_secs as nat * 1000);
    let msg = p + y;
    assert(msg[0] == 'T');
    assert(msg.last() == 's');
    lemma_trim_plain(msg);
    lemma_not_starts_with(msg, "Expected status "@, 0);
    lemma_not_starts_with(msg, "Body did not contain "@, 0);
    lemma_not_starts_with(msg, "Body did not match regex "@, 0);
    lemma_not_starts_with(msg, "Invalid regex:"@, 0);
    lemma_starts_with_self(p);
    lemma_starts_with_concat(p, y, "Timeout after "@);
}

/// A response with an unexpected status is shown with the chip
/// `HTTP <status>`.
pub proof fn law_status_mismatch_chip(expected: u16, got: u16)
    ensures
        error_chip(status_mismatch_text(expected, got)) == "HTTP "@ + decimal(got as nat),
{
    reveal_strlit("Expected status ");
    reveal_strlit(", got ");
    reveal_strlit("got ");
    let e = decimal(expected as nat);
    let g = decimal(got as nat);
    lemma_decimal_digits(expected as nat);
    lemma_decimal_digits(got as nat);
    lemma_decimal_value(got as nat);
    let msg = "Expected status "@ + e + ", got "@ + g;
    assert(msg == status_mismatch_text(expected, got));
    assert(msg[0] == 'E');
    assert(msg.last() == g.last());
    assert(is_digit(g[g.len() - 1]));
    lemma_trim_plain(msg);
    assert(trim(msg) == msg);
    let p = "Expected status "@;
    assert(msg == p + (e + ", got "@ + g));
    lemma_starts_with_self(p);
    lemma_starts_with_concat(p, e + ", got "@ + g, p);
    let rest = msg.skip(p.len() as int);
    assert(rest =~= e + ", got "@ + g);
    let i0: int = e.len() + 2int;
    assert(rest.subrange(i0, i0 + 4) =~= "got "@);
    assert(occurs_at(rest, "got "@, i0));
    assert forall|j: int| i0 < j < rest.len() + 1 implies !occurs_at(rest, "got "@, j) by {
        if j + 4 <= rest.len() {
            if j < i0 + 4 {
                assert(rest[j] != 'g');
            } else {
                assert(rest[j] == g[j - i0 - 4]);
                assert(is_digit(g[j - i0 - 4]));
            }
            if occurs_at(rest, "got "@, j) {
                assert(rest.subrange(j, j + 4)[0] == rest[j]);
                assert(("got "@)[0] == 'g');
            }
        }
    }
    lemma_last_occurrence_is(rest, "got "@, i0, rest.len() + 1int);
    assert(last_occurrence(rest, "got "@) == Some(i0));
    let after = rest.skip(i0 + "got "@.len());
    assert(after =~= g);
    assert(g[0] == g[0]);
    assert(is_digit(g[0]));
    lemma_trim_plain(g);
    assert(trim_end_char(g, '.') == g);
    assert(unsigned_digits(g) == g);
    assert(is_u16_text(g));
}

/// A body without the expected text is shown with the chip `Body mismatch`.
pub proof fn law_missing_text_chip(needle: Seq<char>)
    ensures
        error_chip(missing_text_message(needle)) == "Body mismatch"@,
{
    reveal_strlit("Body did not contain '");
    reveal_strlit("Body did not contain ");
    reveal_strlit("'");
    reveal_strlit("Expected status ");
    let p = "Body did not contain '"@;
    let y = needle + "'"@;
    let msg = p + y;
    assert(msg == missing_text_message(needle));
    assert(msg[0] == 'B');
    assert(msg.last() == '\'');
    lemma_trim_plain(msg);
    lemma_not_starts_with(msg, "Expected status "@, 0);
    assert(p.subrange(0, "Body did not contain "@.len() as int) =~= "Body did not contain "@);
    lemma_starts_with_concat(p, y, "Body did not contain "@);
}

/// A body that does not match the expected pattern is shown with the chip
/// `Body mismatch`.
pub proof fn law_regex_mismatch_chip(pattern: Seq<char>)
    ensures
        error_chip(regex_mismatch_message(pattern)) == "Body mismatch"@,
{
    reveal_strlit("Body did not match regex '");
    reveal_strlit("Body did not match regex ");
    reveal_strlit("Body did not contain ");
    reveal_strlit("'");
    reveal_strlit("Expected status ");
    let p = "Body did not match regex '"@;
    let y = pattern + "'"@;
    let msg = p + y;
    assert(msg == regex_mismatch_message(pattern));
    assert(msg[0] == 'B');
    assert(msg.last() == '\'');
    lemma_trim_plain(msg);
    lemma_not_starts_with(msg, "Expected status "@, 0);
    lemma_not_starts_with(msg, "Body did not contain "@, 13);
    assert(p.subrange(0, "Body did not match regex "@.len() as int)
        =~= "Body did not match regex "@);
    lemma_starts_with_concat(p, y, "Body did not match regex "@);
}

/// A pattern that does not compile is shown with the chip `Config error`.
pub proof fn law_invalid_regex_chip(error: Seq<char>)
    ensures
        error_chip(invalid_regex_message(error)) == "Config error"@,
{
    reveal_strlit("Invalid regex: ");
    reveal_strlit("Invalid regex:");
    reveal_strlit("Expected status ");
    reveal_strlit("Body did not contain ");
    reveal_strlit("Body did not match regex ");
    let p = "Invalid regex:"@;
    let x = seq![' '] + error;
    assert(invalid_regex_message(error) == p + x);
    lemma_trim_concat(p, x);
    let t = p + trim_end(x);
    assert(t[0] == 'I');
    lemma_not_starts_with(t, "Expected status "@, 0);
    lemma_not_starts_with(t, "Body did not contain "@, 0);
    lemma_not_starts_with(t, "Body did not match regex "@, 0);
    lemma_starts_with_self(p);
    lemma_starts_with_concat(p, trim_end(x), p);
}

/// Facts about the leading words of the chip rules that the proofs below
/// compare messages against.
proof fn lemma_rule_words()
    ensures
        ("Expected status "@).len() == 16 && ("Expected status "@)[0] == 'E',
        ("Body did not contain "@).len() == 21 && ("Body did not contain "@)[0] == 'B',
        ("Body did not match regex "@).len() == 25 && ("Body did not match regex "@)[0] == 'B',
        ("Invalid regex:"@).len() == 14 && ("Invalid regex:"@)[0] == 'I',
        ("Timeout after "@).len() == 14 && ("Timeout after "@)[0] == 'T' && ("Timeout after "@)[1]
            == 'i',
        ("Connection timed out"@).len() == 20 && ("Connection timed out"@)[0] == 'C' && (
        "Connection timed out"@)[11] == 't',
        ("Connection refused"@).len() == 18 && ("Connection refused"@)[0] == 'C' && (
        "Connection refused"@)[11] == 'r' && ("Connection refused"@)[13] == 'f',
        ("Connection reset"@).len() == 16 && ("Connection reset"@)[0] == 'C' && (
        "Connection reset"@)[11] == 'r' && ("Connection reset"@)[13] == 's',
        ("Connection aborted"@).len() == 18 && ("Connection aborted"@)[0] == 'C' && (
        "Connection aborted"@)[11] == 'a',
        ("DNS resolution failed"@).len() == 21 && ("DNS resolution failed"@)[0] == 'D',
        ("Network unreachable"@).len() == 19 && ("Network unreachable"@)[0] == 'N' && (
        "Network unreachable"@)[1] == 'e',
        ("Host unreachable"@).len() == 16 && ("Host unreachable"@)[0] == 'H',
        ("TLS error"@).len() == 9 && ("TLS error"@)[0] == 'T' && ("TLS error"@)[1] == 'L',
        ("Connection failed"@).len() == 17 && ("Connection failed"@)[0] == 'C' && (
        "Connection failed"@)[11] == 'f',
        ("Request failed:"@).len() == 15 && ("Request failed:"@)[0] == 'R',
        ("No check results yet"@).len() == 20 && ("No check results yet"@)[0] == 'N' && (
        "No check results yet"@)[1] == 'o',
{
    reveal_strlit("Expected status ");
    reveal_strlit("Body did not contain ");
    reveal_strlit("Body did not match regex ");
    reveal_strlit("Invalid regex:");
    reveal_strlit("Timeout after ");
    reveal_strlit("Connection timed out");
    reveal_strlit("Connection refused");
    reveal_strlit("Connection reset");
    reveal_strlit("Connection aborted");
    reveal_strlit("DNS resolution failed");
    reveal_strlit("Network unreachable");
    reveal_strlit("Host unreachable");
    reveal_strlit("TLS error");
    reveal_strlit("Connection failed");
    reveal_strlit("Request failed:");
    reveal_strlit("No check results yet");
}

/// A request that failed for another reason is shown with the chip
/// `Request failed`.
pub proof fn law_request_failed_chip(cause: Seq<char>)
    ensures
        error_chip(request_failed_message(cause)) == "Request failed"@,
{
    reveal_strlit("Request failed: ");
    reveal_strlit("Request failed:");
    lemma_rule_words();
    let p = "Request failed:"@;
    let x = seq![' '] + cause;
    assert(request_failed_message(cause) =~= p + x);
    lemma_trim_concat(p, x);
    let t = p + trim_end(x);
    assert(t[0] == 'R');
    lemma_not_starts_with(t, "Expected status "@, 0);
    lemma_not_starts_with(t, "Body did not contain "@, 0);
    lemma_not_starts_with(t, "Body did not match regex "@, 0);
    lemma_not_starts_with(t, "Invalid regex:"@, 0);
    lemma_not_starts_with(t, "Timeout after "@, 0);
    lemma_not_starts_with(t, "Connection timed out"@, 0);
    lemma_not_starts_with(t, "Connection refused"@, 0);
    lemma_not_starts_with(t, "Connection reset"@, 0);
    lemma_not_starts_with(t, "Connection aborted"@, 0);
    lemma_not_starts_with(t, "DNS resolution failed"@, 0);
    lemma_not_starts_with(t, "Network unreachable"@, 0);
    lemma_not_starts_with(t, "Host unreachable"@, 0);
    lemma_not_starts_with(t, "TLS error"@, 0);
    lemma_not_starts_with(t, "Connection failed"@, 0);
    lemma_starts_with_self(p);
    lemma_starts_with_concat(p, trim_end(x), p);
}

/// A service without results yet is shown with the chip `Pending`.
pub proof fn law_pending_chip()
    ensures
        error_chip("No check results yet"@) == "Pending"@,
{
    lemma_rule_words();
    reveal_strlit("No check results yet");
    let t = "No check results yet"@;
    assert(t.last() == 't');
    lemma_trim_plain(t);
    lemma_not_starts_with(t, "Expected status "@, 0);
    lemma_not_starts_with(t, "Body did not contain "@, 0);
    lemma_not_starts_with(t, "Body did not match regex "@, 0);
    lemma_not_starts_with(t, "Invalid regex:"@, 0);
    lemma_not_starts_with(t, "Timeout after "@, 0);
    lemma_not_starts_with(t, "Connection timed out"@, 0);
    lemma_not_starts_with(t, "Connection refused"@, 0);
    lemma_not_starts_with(t, "Connection reset"@, 0);
    lemma_not_starts_with(t, "Connection aborted"@, 0);
    lemma_not_starts_with(t, "DNS resolution failed"@, 0);
    lemma_not_starts_with(t, "Network unreachable"@, 1);
    lemma_not_starts_with(t, "Host unreachable"@, 0);
    lemma_not_starts_with(t, "TLS error"@, 0);
    lemma_not_starts_with(t, "Connection failed"@, 0);
    lemma_not_starts_with(t, "Request failed:"@, 0);
}

/// A service card shows the same chip for an error message as the chip
/// label function does for the raw message: trimming first changes nothing.
pub proof fn law_card_chip_matches_label(raw: Seq<char>)
    ensures
        error_chip(trim(raw)) == error_chip(raw),
{
    lemma_trim_idempotent(raw);
}

/// Every verdict the status endpoint sends has its own banner on the page:
/// the page never shows "Unknown Status" for it.
pub proof fn law_banner_for_every_verdict(s: OverallStatus)
    ensures
        banner_label(overall_status_name(s)) == match s {
            OverallStatus::AllOperational => "All Systems Operational"@,
            OverallStatus::PartialOutage => "Partial System Outage"@,
            OverallStatus::MajorOutage => "Major System Outage"@,
        },
{
    reveal_strlit("all_operational");
    reveal_strlit("partial_outage");
    reveal_strlit("major_outage");
    assert(("partial_outage"@)[0] != ("all_operational"@)[0]);
    assert(("major_outage"@)[0] != ("all_operational"@)[0]);
    assert(("major_outage"@)[0] != ("partial_outage"@)[0]);
}

/// With a valid configuration, the history shown for each service holds
/// exactly the buckets recorded under its id, in their original order.
pub proof fn law_history_groups(services: Seq<ServiceConfig>, ids: Seq<String>)
    requires
        validation(services) is Ok,
        ids.len() <= usize::MAX,
    ensures
        forall|i: int, j: int|
            0 <= i < services.len() && 0 <= j < ids.len() ==> (group_for(services, ids, i).contains(
                j as usize,
            ) <==> ids[j]@ == services[i].id@),
        forall|i: int, k: int, l: int|
            0 <= i < services.len() && 0 <= k < l < group_for(services, ids, i).len() ==> group_for(
                services,
                ids,
                i,
            )[k] < group_for(services, ids, i)[l],
{
    lemma_valid_config_distinct_ids(services);
    assert forall|i: int, j: int|
        0 <= i < services.len() && 0 <= j < ids.len() implies (group_for(
        services,
        ids,
        i,
    ).contains(j as usize) <==> ids[j]@ == services[i].id@) by {
        assert(!crate::config::duplicate_at(services, i));
        lemma_buckets_of(ids, services[i].id@, ids.len() as int);
        let g = group_for(services, ids, i);
        if g.contains(j as usize) {
            let w = choose|w: int| 0 <= w < g.len() && g[w] == j as usize;
            assert(g[w] == j as usize);
        }
    }
    assert forall|i: int, k: int, l: int|
        0 <= i < services.len() && 0 <= k < l < group_for(services, ids, i).len() implies group_for(
        services,
        ids,
        i,
    )[k] < group_for(services, ids, i)[l] by {
        assert(!crate::config::duplicate_at(services, i));
        lemma_buckets_of(ids, services[i].id@, ids.len() as int);
    }
}

/// Trimming a message that leads with a part whose ends are not whitespace
/// keeps that part in front.
proof fn lemma_trimmed_message(p: Seq<char>, x: Seq<char>)
    requires
        p.len() > 0,
        !unicode_whitespace(p[0]),
        !unicode_whitespace(p.last()),
    ensures
        trim(p + x) == p + trim_end(x),
        (p + trim_end(x)).len() >= p.len(),
        forall|k: int| 0 <= k < p.len() ==> (p + trim_end(x))[k] == p[k],
        starts_with(p + trim_end(x), p),
{
    lemma_trim_concat(p, x);
    lemma_starts_with_self(p);
    lemma_starts_with_concat(p, trim_end(x), p);
}

/// The chip shown for a connect failure: TLS and DNS failures by their
/// words, a failure led by a socket error label by that label, the root
/// and `Connection failed` otherwise.
pub open spec fn connect_chip(
    cause: Seq<char>,
    lower: Seq<char>,
    kind: Option<IoErrorKind>,
) -> Seq<char> {
    if mentions_tls(lower) {
        "TLS error"@
    } else if mentions_dns(lower) {
        "DNS error"@
    } else {
        match kind {
            Some(k) => match connect_label(k) {
                Some(_) => kind_chip(k),
                None => "Connection failed"@,
            },
            None => "Connection failed"@,
        }
    }
}

/// Every connect-failure message is shown with the chip of its kind.
pub proof fn law_connect_chip(cause: Seq<char>, lower: Seq<char>, kind: Option<IoErrorKind>)
    ensures
        error_chip(connect_message(cause, lower, kind)) == connect_chip(cause, lower, kind),
{
    lemma_rule_words();
    let m = connect_message(cause, lower, kind);
    if mentions_tls(lower) {
        reveal_strlit("TLS error: ");
        reveal_strlit("TLS error:");
        reveal_strlit("TLS error");
        let p = "TLS error:"@;
        let x = seq![' '] + cause;
        assert(m =~= p + x);
        lemma_trimmed_message(p, x);
        let t = p + trim_end(x);
        lemma_not_starts_with(t, "Expected status "@, 0);
        lemma_not_starts_with(t, "Body did not contain "@, 0);
        lemma_not_starts_with(t, "Body did not match regex "@, 0);
        lemma_not_starts_with(t, "Invalid regex:"@, 0);
        lemma_not_starts_with(t, "Timeout after "@, 1);
        lemma_not_starts_with(t, "Connection timed out"@, 0);
        lemma_not_starts_with(t, "Connection refused"@, 0);
        lemma_not_starts_with(t, "Connection reset"@, 0);
        lemma_not_starts_with(t, "Connection aborted"@, 0);
        lemma_not_starts_with(t, "DNS resolution failed"@, 0);
        lemma_not_starts_with(t, "Network unreachable"@, 0);
        lemma_not_starts_with(t, "Host unreachable"@, 0);
        assert(p.subrange(0, 9) =~= "TLS error"@);
        lemma_starts_with_concat(p, trim_end(x), "TLS error"@);
    } else if mentions_dns(lower) {
        reveal_strlit("DNS resolution failed: ");
        reveal_strlit("DNS resolution failed:");
        reveal_strlit("DNS resolution failed");
        let p = "DNS resolution failed:"@;
        let x = seq![' '] + cause;
        assert(m =~= p + x);
        lemma_trimmed_message(p, x);
        let t = p + trim_end(x);
        lemma_not_starts_with(t, "Expected status "@, 0);
        lemma_not_starts_with(t, "Body did not contain "@, 0);
        lemma_not_starts_with(t, "Body did not match regex "@, 0);
        lemma_not_starts_with(t, "Invalid regex:"@, 0);
        lemma_not_starts_with(t, "Timeout after "@, 0);
        lemma_not_starts_with(t, "Connection timed out"@, 0);
        lemma_not_starts_with(t, "Connection refused"@, 0);
        lemma_not_starts_with(t, "Connection reset"@, 0);
        lemma_not_starts_with(t, "Connection aborted"@, 0);
        assert(p.subrange(0, 21) =~= "DNS resolution failed"@);
        lemma_starts_with_concat(p, trim_end(x), "DNS resolution failed"@);
    } else {
        let labelled = match kind {
            Some(k) => connect_label(k) is Some,
            None => false,
        };
        if !labelled {
            reveal_strlit("Connection failed: ");
            reveal_strlit("Connection failed:");
            reveal_strlit("Connection failed");
            let p = "Connection failed:"@;
            let x = seq![' '] + cause;
            assert(m =~= p + x);
            lemma_trimmed_message(p, x);
            let t = p + trim_end(x);
            lemma_not_starts_with(t, "Expected status "@, 0);
            lemma_not_starts_with(t, "Body did not contain "@, 0);
            lemma_not_starts_with(t, "Body did not match regex "@, 0);
            lemma_not_starts_with(t, "Invalid regex:"@, 0);
            lemma_not_starts_with(t, "Timeout after "@, 0);
            lemma_not_starts_with(t, "Connection timed out"@, 11);
            lemma_not_starts_with(t, "Connection refused"@, 11);
            lemma_not_starts_with(t, "Connection reset"@, 11);
            lemma_not_starts_with(t, "Connection aborted"@, 11);
            lemma_not_starts_with(t, "DNS resolution failed"@, 0);
            lemma_not_starts_with(t, "Network unreachable"@, 0);
            lemma_not_starts_with(t, "Host unreachable"@, 0);
            lemma_not_starts_with(t, "TLS error"@, 0);
            assert(p.subrange(0, 17) =~= "Connection failed"@);
            lemma_starts_with_concat(p, trim_end(x), "Connection failed"@);
        } else {
            let k = kind->0;
            let label = label_text(k);
            if starts_with(cause, label) {
                assert(m == cause);
                assert(cause =~= label + cause.skip(label.len() as int));
                lemma_label_chip(k, cause.skip(label.len() as int));
            } else {
                reveal_strlit(" \u{2014} ");
                let x = " \u{2014} "@ + cause;
                assert(m =~= label + x);
                lemma_label_chip(k, x);
            }
        }
    }
}

/// The canonical label of a socket error kind (empty for other kinds).
pub open spec fn label_text(k: IoErrorKind) -> Seq<char> {
    match connect_label(k) {
        Some(label) => label,
        None => Seq::empty(),
    }
}

/// A message led by a socket error kind's canonical label is shown with that
/// kind's chip.
proof fn lemma_label_chip(k: IoErrorKind, x: Seq<char>)
    requires
        connect_label(k) is Some,
    ensures
        error_chip(label_text(k) + x) == kind_chip(k),
{
    lemma_rule_words();
    let p = label_text(k);
    reveal_strlit("Connection refused");
    reveal_strlit("Connection timed out");
    reveal_strlit("Network unreachable");
    reveal_strlit("Host unreachable");
    reveal_strlit("Connection reset");
    reveal_strlit("Connection aborted");
    lemma_trimmed_message(p, x);
    let t = p + trim_end(x);
    lemma_not_starts_with(t, "Expected status "@, 0);
    lemma_not_starts_with(t, "Body did not contain "@, 0);
    lemma_not_starts_with(t, "Body did not match regex "@, 0);
    lemma_not_starts_with(t, "Invalid regex:"@, 0);
    lemma_not_starts_with(t, "Timeout after "@, 0);
    match k {
        IoErrorKind::ConnectionRefused => {
            lemma_not_starts_with(t, "Connection timed out"@, 11);
        },
        IoErrorKind::TimedOut => {},
        IoErrorKind::NetworkUnreachable => {
            lemma_not_starts_with(t, "Connection timed out"@, 0);
            lemma_not_starts_with(t, "Connection refused"@, 0);
            lemma_not_starts_with(t, "Connection reset"@, 0);
            lemma_not_starts_with(t, "Connection aborted"@, 0);
            lemma_not_starts_with(t, "DNS resolution failed"@, 0);
        },
        IoErrorKind::HostUnreachable => {
            lemma_not_starts_with(t, "Connection timed out"@, 0);
            lemma_not_starts_with(t, "Connection refused"@, 0);
            lemma_not_starts_with(t, "Connection reset"@, 0);
            lemma_not_starts_with(t, "Connection aborted"@, 0);
            lemma_not_starts_with(t, "DNS resolution failed"@, 0);
            lemma_not_starts_with(t, "Network unreachable"@, 0);
        },
        IoErrorKind::ConnectionReset => {
            lemma_not_starts_with(t, "Connection timed out"@, 11);
            lemma_not_starts_with(t, "Connection refused"@, 13);
        },
        IoErrorKind::ConnectionAborted => {
            lemma_not_starts_with(t, "Connection timed out"@, 11);
            lemma_not_starts_with(t, "Connection refused"@, 11);
            lemma_not_starts_with(t, "Connection reset"@, 11);
        },
        IoErrorKind::Other => {},
    }
}

// ------------------------------------------------------------------------
// Durations, time ranges, lookups and failure words
// ------------------------------------------------------------------------

/// Splitting a number of seconds into hours, minutes within the hour and
/// seconds within the minute is unique.
proof fn lemma_split_seconds(n: nat, h: nat, m: nat, s: nat)
    requires
        n == h * 3600 + m * 60 + s,
        m < 60,
        s < 60,
    ensures
        n / 3600 == h,
        (n % 3600) / 60 == m,
        n % 60 == s,
{
    assert(m * 60 + s < 3600) by (nonlinear_arith)
        requires
            m < 60,
            s < 60,
    ;
    vstd::arithmetic::div_mod::lemma_fundamental_div_mod_converse(
        n as int,
        3600,
        h as int,
        (m * 60 + s) as int,
    );
    vstd::arithmetic::div_mod::lemma_fundamental_div_mod_converse(
        (m * 60 + s) as int,
        60,
        m as int,
        s as int,
    );
    assert(n == (h * 60 + m) * 60 + s) by (nonlinear_arith)
        requires
            n == h * 3600 + m * 60 + s,
    ;
    vstd::arithmetic::div_mod::lemma_fundamental_div_mod_converse(
        n as int,
        60,
        (h * 60 + m) as int,
        s as int,
    );
}

/// A humanized duration shows the whole duration: under a minute its
/// seconds; under an hour its minutes and the seconds within the minute; from
/// an hour on its hours and the minutes within the hour (seconds dropped).
/// Whatever `h`, `m`, `s` (minutes and seconds below 60) add up to the
/// duration are exactly the numbers shown.
pub proof fn law_humanize_shows_the_duration(h: nat, m: nat, s: nat)
    requires
        m < 60,
        s < 60,
    ensures
        h == 0 && m == 0 ==> humanize_text(s) == decimal(s) + "s"@,
        h == 0 && m > 0 ==> humanize_text(m * 60 + s) == decimal(m) + "m "@ + decimal(s) + "s"@,
        h > 0 ==> humanize_text(h * 3600 + m * 60 + s) == decimal(h) + "h "@ + decimal(m) + "m"@,
{
    lemma_split_seconds(h * 3600 + m * 60 + s, h, m, s);
    if h == 0 {
        assert(h * 3600 + m * 60 + s == m * 60 + s);
        lemma_split_seconds(m * 60 + s, 0, m, s);
        if m == 0 {
            lemma_split_seconds(s, 0, 0, s);
        }
    }
}

/// An hour bucket's range ends one hour after it starts, on a 24-hour clock:
/// at the next hour, or at 00 after 23, with the same minute.
pub proof fn law_hour_range_ends_an_hour_later(ts: Seq<char>, mo: u32, d: u32, h: u32, mi: u32)
    requires
        utc_fields(ts) == Some((mo, d, h, mi)),
        h < 24,
    ensures
        h < 23 ==> timestamp_text(ts, false) == month_day(mo, d) + ", "@ + two_digits(h) + ":"@
            + two_digits(mi) + " \u{2013} "@ + two_digits((h + 1) as u32) + ":"@ + two_digits(mi)
            + " UTC"@,
        h == 23 ==> timestamp_text(ts, false) == month_day(mo, d) + ", "@ + two_digits(h) + ":"@
            + two_digits(mi) + " \u{2013} "@ + two_digits(0) + ":"@ + two_digits(mi) + " UTC"@,
{
}

/// Two-digit clock fields: a zero-padded pair of decimal digits.
pub proof fn law_two_digits(n: u32)
    requires
        n < 100,
    ensures
        two_digits(n) == seq![crate::text::digit_char((n / 10) as nat), crate::text::digit_char((n % 10) as nat)],
{
    reveal_with_fuel(decimal, 2);
    if n >= 10 {
        assert(decimal(n as nat) == decimal((n / 10) as nat).push(crate::text::digit_char((n % 10) as nat)));
        assert(decimal((n / 10) as nat) == seq![crate::text::digit_char((n / 10) as nat)]);
    }
}

/// The latest stored result of a service: there is one exactly when some
/// stored result has the service's id; it has that id, and no later stored
/// result has it.
pub proof fn law_latest_result(latest: Seq<CheckResult>, id: Seq<char>)
    ensures
        latest_index(latest, id) is Some <==> exists|k: int|
            0 <= k < latest.len() && #[trigger] latest[k].service_id@ == id,
        latest_index(latest, id) matches Some(j) ==> 0 <= j < latest.len()
            && latest[j].service_id@ == id && forall|k: int|
            j < k < latest.len() ==> #[trigger] latest[k].service_id@ != id,
{
    lemma_latest_below(latest, id, latest.len() as int);
}

proof fn lemma_latest_below(latest: Seq<CheckResult>, id: Seq<char>, n: int)
    requires
        0 <= n <= latest.len(),
    ensures
        latest_index_below(latest, id, n) is Some <==> exists|k: int|
            0 <= k < n && #[trigger] latest[k].service_id@ == id,
        latest_index_below(latest, id, n) matches Some(j) ==> 0 <= j < n
            && latest[j].service_id@ == id && forall|k: int|
            j < k < n ==> #[trigger] latest[k].service_id@ != id,
    decreases n,
{
    if n > 0 {
        lemma_latest_below(latest, id, n - 1);
        if latest[n - 1].service_id@ == id {
            assert(latest[n - 1].service_id@ == id);
        } else {
            if exists|k: int| 0 <= k < n && #[trigger] latest[k].service_id@ == id {
                let k = choose|k: int| 0 <= k < n && #[trigger] latest[k].service_id@ == id;
                assert(k < n - 1);
            }
        }
    }
}

/// A card's history is found exactly when some fetched history has the
/// service's id; what is found has that id, and no earlier one has it.
pub proof fn law_history_lookup(ids: Seq<String>, id: Seq<char>)
    ensures
        first_index_below(ids, id, ids.len() as int) is Some <==> exists|j: int|
            0 <= j < ids.len() && #[trigger] ids[j]@ == id,
        first_index_below(ids, id, ids.len() as int) matches Some(k) ==> 0 <= k < ids.len()
            && ids[k]@ == id && forall|j: int| 0 <= j < k ==> #[trigger] ids[j]@ != id,
{
    lemma_first_below(ids, id, ids.len() as int);
}

proof fn lemma_first_below(ids: Seq<String>, id: Seq<char>, n: int)
    requires
        0 <= n <= ids.len(),
    ensures
        first_index_below(ids, id, n) is Some <==> exists|j: int|
            0 <= j < n && #[trigger] ids[j]@ == id,
        first_index_below(ids, id, n) matches Some(k) ==> 0 <= k < n && ids[k]@ == id && forall|
            j: int,
        |
            0 <= j < k ==> #[trigger] ids[j]@ != id,
    decreases n,
{
    if n > 0 {
        lemma_first_below(ids, id, n - 1);
        if first_index_below(ids, id, n - 1) is None {
            if ids[n - 1]@ == id {
                assert(ids[n - 1]@ == id);
            } else {
                if exists|j: int| 0 <= j < n && #[trigger] ids[j]@ == id {
                    let j = choose|j: int| 0 <= j < n && #[trigger] ids[j]@ == id;
                    assert(j < n - 1);
                }
            }
        } else {
            let k = first_index_below(ids, id, n - 1)->0;
            assert(ids[k]@ == id);
        }
    }
}

/// A connect failure whose lower-cased root cause has any of the words
/// "certificate", "tls", "ssl" or "handshake" is a TLS error; otherwise one
/// with any of the name-resolution words is a DNS failure; each message is
/// that heading followed by the root cause.
pub proof fn law_connect_failure_words(cause: Seq<char>, lower: Seq<char>, kind: Option<IoErrorKind>)
    ensures
        crate::text::contains(lower, "certificate"@) || crate::text::contains(lower, "tls"@)
            || crate::text::contains(lower, "ssl"@) || crate::text::contains(lower, "handshake"@)
            ==> connect_message(cause, lower, kind) == "TLS error: "@ + cause,
        !(crate::text::contains(lower, "certificate"@) || crate::text::contains(lower, "tls"@)
            || crate::text::contains(lower, "ssl"@) || crate::text::contains(lower, "handshake"@))
            && (crate::text::contains(lower, "dns"@) || crate::text::contains(lower, "lookup address"@)
            || crate::text::contains(lower, "name or service not known"@) || crate::text::contains(
            lower,
            "nodename nor servname"@,
        ) || crate::text::contains(lower, "no such host"@) || crate::text::contains(
            lower,
            "name resolution"@,
        )) ==> connect_message(cause, lower, kind) == "DNS resolution failed: "@ + cause,
{
}

/// A configuration is valid exactly when its service ids are pairwise
/// distinct and every service URL parses as an absolute URL.
pub proof fn law_validation_accepts_exactly(services: Seq<ServiceConfig>)
    ensures
        validation(services) is Ok <==> (forall|i: int, j: int|
            0 <= i < j < services.len() ==> services[i].id@ != services[j].id@) && (forall|i: int|
            0 <= i < services.len() ==> is_absolute_url(#[trigger] services[i].url@)),
{
    lemma_validation_from_ok(services, 0);
    if validation(services) is Ok {
        lemma_valid_config_distinct_ids(services);
    }
    if (forall|i: int, j: int|
        0 <= i < j < services.len() ==> services[i].id@ != services[j].id@) && (forall|i: int|
        0 <= i < services.len() ==> is_absolute_url(#[trigger] services[i].url@)) {
        assert forall|j: int| 0 <= j < services.len() implies crate::config::service_ok_at(
            services,
            j,
        ) by {
            if crate::config::duplicate_at(services, j) {
                let k = choose|k: int| 0 <= k < j && #[trigger] services[k].id@ == services[j].id@;
                assert(services[k].id@ != services[j].id@);
            }
        }
    }
}

/// A status-code text is accepted exactly when the number it writes fits
/// in 16 bits, with or without a leading `+`.
pub proof fn law_u16_text_of_decimal(n: nat)
    ensures
        is_u16_text(decimal(n)) <==> n <= 65535,
        is_u16_text(seq!['+'] + decimal(n)) <==> n <= 65535,
{
    lemma_decimal_digits(n);
    lemma_decimal_value(n);
    assert(is_digit(decimal(n)[0]));
    assert(unsigned_digits(decimal(n)) == decimal(n));
    assert((seq!['+'] + decimal(n)).drop_first() =~= decimal(n));
    assert(unsigned_digits(seq!['+'] + decimal(n)) == decimal(n));
}

/// The first socket error kind of a chain: there is one exactly when some
/// error in the chain is a socket error, and it is the kind of the first such
/// error.
pub proof fn law_first_socket_kind(kinds: Seq<Option<IoErrorKind>>)
    ensures
        first_kind(kinds) is Some <==> exists|i: int| 0 <= i < kinds.len() && #[trigger] kinds[i] is Some,
        first_kind(kinds) is Some ==> exists|i: int|
            0 <= i < kinds.len() && #[trigger] kinds[i] == first_kind(kinds) && forall|j: int|
                0 <= j < i ==> #[trigger] kinds[j] is None,
    decreases kinds.len(),
{
    if kinds.len() > 0 {
        let rest = kinds.drop_first();
        law_first_socket_kind(rest);
        if kinds[0] is None {
            assert forall|i: int| 0 <= i < rest.len() implies rest[i] == kinds[i + 1] by {}
            if exists|i: int| 0 <= i < kinds.len() && #[trigger] kinds[i] is Some {
                let i = choose|i: int| 0 <= i < kinds.len() && #[trigger] kinds[i] is Some;
                assert(rest[i - 1] is Some);
            }
            if first_kind(kinds) is Some {
                let i = choose|i: int|
                    0 <= i < rest.len() && #[trigger] rest[i] == first_kind(rest) && forall|j: int|
                        0 <= j < i ==> #[trigger] rest[j] is None;
                assert(kinds[i + 1] == first_kind(kinds));
                assert forall|j: int| 0 <= j < i + 1 implies #[trigger] kinds[j] is None by {
                    if j > 0 {
                        assert(kinds[j] == rest[j - 1]);
                    }
                }
            }
        } else {
            assert(kinds[0] == first_kind(kinds));
        }
    }
}

/// The last occurrence of a pattern: found exactly when the pattern occurs;
/// what is found is an occurrence, and none lies after it.
pub proof fn law_last_occurrence(s: Seq<char>, p: Seq<char>)
    ensures
        last_occurrence(s, p) is Some <==> exists|i: int| occurs_at(s, p, i),
        last_occurrence(s, p) matches Some(i) ==> occurs_at(s, p, i) && forall|j: int|
            i < j ==> !occurs_at(s, p, j),
{
    crate::text::lemma_last_occurrence_below_found(s, p, s.len() + 1int);
    if exists|i: int| occurs_at(s, p, i) {
        let i = choose|i: int| occurs_at(s, p, i);
        assert(i < s.len() + 1);
    }
}

/// Trimming removes whitespace from both ends and nothing else: the result
/// is a piece of the text, everything cut off before and after it is
/// whitespace, and its own ends are not whitespace.
pub proof fn law_trim_cuts_only_whitespace(s: Seq<char>)
    ensures
        exists|a: int, b: int|
            0 <= a <= b <= s.len() && trim(s) == s.subrange(a, b) && (forall|k: int|
                0 <= k < a ==> unicode_whitespace(#[trigger] s[k])) && (forall|k: int|
                b <= k < s.len() ==> unicode_whitespace(#[trigger] s[k])),
        trim(s).len() > 0 ==> !unicode_whitespace(trim(s)[0]) && !unicode_whitespace(
            trim(s).last(),
        ),
{
    let a = lemma_trim_start_skip(s);
    let t = crate::text::trim_start(s);
    crate::text::lemma_trim_start_shape(s);
    let b = lemma_trim_end_take(t);
    crate::text::lemma_trim_end_shape(t);
    assert(trim(s) =~= s.subrange(a, a + b));
    assert forall|k: int| a + b <= k < s.len() implies unicode_whitespace(#[trigger] s[k]) by {
        assert(s[k] == t[k - a]);
    }
    if trim(s).len() > 0 {
        assert(trim(s)[0] == t[0]);
    }
}

/// Trimming the start drops a run of leading whitespace.
proof fn lemma_trim_start_skip(s: Seq<char>) -> (a: int)
    ensures
        0 <= a <= s.len(),
        crate::text::trim_start(s) == s.skip(a),
        forall|k: int| 0 <= k < a ==> unicode_whitespace(#[trigger] s[k]),
    decreases s.len(),
{
    if s.len() > 0 && unicode_whitespace(s[0]) {
        let a1 = lemma_trim_start_skip(s.drop_first());
        assert(s.drop_first().skip(a1) =~= s.skip(a1 + 1));
        assert forall|k: int| 0 <= k < a1 + 1 implies unicode_whitespace(#[trigger] s[k]) by {
            if k > 0 {
                assert(s[k] == s.drop_first()[k - 1]);
            }
        }
        a1 + 1
    } else {
        assert(s.skip(0) =~= s);
        0
    }
}

/// Trimming the end keeps a prefix and drops only trailing whitespace.
proof fn lemma_trim_end_take(s: Seq<char>) -> (b: int)
    ensures
        0 <= b <= s.len(),
        trim_end(s) == s.subrange(0, b),
        forall|k: int| b <= k < s.len() ==> unicode_whitespace(#[trigger] s[k]),
    decreases s.len(),
{
    if s.len() > 0 && unicode_whitespace(s.last()) {
        let b1 = lemma_trim_end_take(s.drop_last());
        assert(s.drop_last().subrange(0, b1) =~= s.subrange(0, b1));
        assert forall|k: int| b1 <= k < s.len() implies unicode_whitespace(#[trigger] s[k]) by {
            if k < s.len() - 1 {
                assert(s[k] == s.drop_last()[k]);
            }
        }
        b1
    } else {
        assert(s.subrange(0, s.len() as int) =~= s);
        s.len() as int
    }
}

} // verus!
