//! Judging a health check: what a response or a failed request means for a
//! service, and the error message that is recorded for it.

use vstd::prelude::*;
use vstd::string::*;

use crate::text::{
    chars_of, contains, contains_chars, decimal, lemma_starts_with_concat, lemma_starts_with_self,
    push_decimal, starts_with, starts_with_chars,
};

verus! {

// ------------------------------------------------------------------------
// Types
// ------------------------------------------------------------------------

/// The kinds of socket error that connect failures are told apart by.
#[derive(Debug, Clone, Copy, PartialEq, Eq, Structural)]
pub enum IoErrorKind {
    ConnectionRefused,
    TimedOut,
    NetworkUnreachable,
    HostUnreachable,
    ConnectionReset,
    ConnectionAborted,
    Other,
}

/// What a service's body expectation asks of a response body.
#[derive(Debug)]
pub enum BodyExpectation {
    /// The body must contain this text.
    Contains(String),
    /// The body must match the regular expression with this pattern.
    Regex(String),
}

/// The result of one check, as it is recorded.
#[derive(Debug)]
pub struct CheckOutcome {
    pub is_up: bool,
    pub status_code: Option<i32>,
    pub error_message: Option<String>,
}

/// What to do with a response once its status is known.
#[derive(Debug)]
pub enum ResponseStep {
    /// The check is decided: record this.
    Record(CheckOutcome),
    /// The body must be read and judged against this expectation.
    ReadBody(BodyExpectation),
}

/// Why a request produced no response.
#[derive(Debug)]
pub enum RequestFailure {
    /// The request ran out of time.
    Timeout,
    /// The connection could not be set up; `cause` is the deepest error's
    /// message and `io_kind` the first socket error kind in the chain.
    Connect { cause: String, io_kind: Option<IoErrorKind> },
    /// Any other failure; `cause` is the deepest error's message.
    Other { cause: String },
}

// ------------------------------------------------------------------------
// Messages
// ------------------------------------------------------------------------

/// The message for a response whose status is not the expected one.
pub open spec fn status_mismatch_text(expected: u16, got: u16) -> Seq<char> {
    "Expected status "@ + decimal(expected as nat) + ", got "@ + decimal(got as nat)
}

/// The message for a body that lacks the expected text.
pub open spec fn missing_text_message(needle: Seq<char>) -> Seq<char> {
    "Body did not contain '"@ + needle + "'"@
}

/// The message for a body that does not match the expected pattern.
pub open spec fn regex_mismatch_message(pattern: Seq<char>) -> Seq<char> {
    "Body did not match regex '"@ + pattern + "'"@
}

/// The message for a body expectation whose pattern does not compile.
pub open spec fn invalid_regex_message(error: Seq<char>) -> Seq<char> {
    "Invalid regex: "@ + error
}

/// The message for a request that ran out of time.
pub open spec fn timeout_message(timeout_secs: u64) -> Seq<char> {
    "Timeout after "@ + decimal(timeout_secs as nat * 1000) + "ms"@
}

/// The message for a failed request that is neither a timeout nor a connect failure.
pub open spec fn request_failed_message(cause: Seq<char>) -> Seq<char> {
    "Request failed: "@ + cause
}

/// The canonical label of a socket error kind; connect-failure messages of
/// that kind lead with it, since the status page's chip keys off it.
pub open spec fn connect_label(kind: IoErrorKind) -> Option<Seq<char>> {
    match kind {
        IoErrorKind::ConnectionRefused => Some("Connection refused"@),
        IoErrorKind::TimedOut => Some("Connection timed out"@),
        IoErrorKind::NetworkUnreachable => Some("Network unreachable"@),
        IoErrorKind::HostUnreachable => Some("Host unreachable"@),
        IoErrorKind::ConnectionReset => Some("Connection reset"@),
        IoErrorKind::ConnectionAborted => Some("Connection aborted"@),
        IoErrorKind::Other => None,
    }
}

/// The root cause mentions TLS.
pub open spec fn mentions_tls(lower: Seq<char>) -> bool {
    contains(lower, "certificate"@) || contains(lower, "tls"@) || contains(lower, "ssl"@)
        || contains(lower, "handshake"@)
}

/// The root cause mentions name resolution.
pub open spec fn mentions_dns(lower: Seq<char>) -> bool {
    contains(lower, "dns"@) || contains(lower, "lookup address"@) || contains(
        lower,
        "name or service not known"@,
    ) || contains(lower, "nodename nor servname"@) || contains(lower, "no such host"@)
        || contains(lower, "name resolution"@)
}

/// The message for a connect failure with root cause `cause`, whose lower-case
/// form is `lower`, and first socket error kind `kind`. A kind with a
/// canonical label gives a message that leads with that label: the root cause
/// itself when it already starts with the label, else the label, a dash and
/// the root cause.
pub open spec fn connect_message(
    cause: Seq<char>,
    lower: Seq<char>,
    kind: Option<IoErrorKind>,
) -> Seq<char> {
    if mentions_tls(lower) {
        "TLS error: "@ + cause
    } else if mentions_dns(lower) {
        "DNS resolution failed: "@ + cause
    } else {
        match kind {
            Some(k) => match connect_label(k) {
                Some(label) => if starts_with(cause, label) {
                    cause
                } else {
                    label + " \u{2014} "@ + cause
                },
                None => "Connection failed: "@ + cause,
            },
            None => "Connection failed: "@ + cause,
        }
    }
}

/// Without TLS or DNS words in the root cause, a connect-failure message of a
/// kind with a canonical label starts with that label.
pub open spec fn leads_with_label(msg: Seq<char>, lower: Seq<char>, kind: Option<IoErrorKind>) -> bool {
    !mentions_tls(lower) && !mentions_dns(lower) ==> match kind {
        Some(k) => match connect_label(k) {
            Some(label) => starts_with(msg, label),
            None => true,
        },
        None => true,
    }
}

/// Lower-casing (what `str::to_lowercase` gives).
pub uninterp spec fn lowercase(s: Seq<char>) -> Seq<char>;

/// `str::to_lowercase`: the Unicode lower-case mapping of `s`. Its result is
/// only named here, as a function of `s`.
#[verifier::external_body]
fn to_lowercase(s: &str) -> (r: String)
    ensures
        r@ == lowercase(s@),
{
    s.to_lowercase()
}

// ------------------------------------------------------------------------
// Judging
// ------------------------------------------------------------------------

/// An outcome is up exactly when it carries no error message.
pub open spec fn is_consistent(o: CheckOutcome) -> bool {
    o.is_up <==> o.error_message is None
}

/// The recorded outcome: up or down, the status code, and the error message.
pub open spec fn outcome_is(
    o: CheckOutcome,
    is_up: bool,
    status: Option<i32>,
    message: Option<Seq<char>>,
) -> bool {
    &&& o.is_up == is_up
    &&& o.status_code == status
    &&& match (o.error_message, message) {
        (Some(m), Some(t)) => m@ == t,
        (None, None) => true,
        _ => false,
    }
}

fn string_from(s: &str) -> (r: String)
    ensures
        r@ == s@,
{
    String::from_str(s)
}

/// The message for a response whose status is not the expected one:
/// `"Expected status <expected>, got <got>"`.
pub fn status_mismatch_message(expected: u16, got: u16) -> (r: String)
    ensures
        r@ == status_mismatch_text(expected, got),
{
    let mut r = string_from("Expected status ");
    push_decimal(&mut r, expected as u128);
    r.append(", got ");
    push_decimal(&mut r, got as u128);
    r
}

/// Decides what a response with status `status` means for a service that
/// expects `expected_status` and whose body expectation parsed to
/// `expectation` (`Err` holds the pattern's compile error). A wrong status is
/// down at once; a right status with no expectation is up; an expectation
/// that did not compile is down; otherwise the body must be read.
pub fn judge_response(
    expected_status: u16,
    status: u16,
    expectation: Result<Option<BodyExpectation>, String>,
) -> (r: ResponseStep)
    ensures
        status != expected_status ==> (r matches ResponseStep::Record(o) && outcome_is(
            o,
            false,
            Some(status as i32),
            Some(status_mismatch_text(expected_status, status)),
        )),
        status == expected_status ==> match expectation {
            Ok(None) => r matches ResponseStep::Record(o) && outcome_is(
                o,
                true,
                Some(status as i32),
                None,
            ),
            Ok(Some(e)) => r == ResponseStep::ReadBody(e),
            Err(msg) => r matches ResponseStep::Record(o) && outcome_is(
                o,
                false,
                Some(status as i32),
                Some(invalid_regex_message(msg@)),
            ),
        },
        r matches ResponseStep::Record(o) ==> is_consistent(o),
{
    if status != expected_status {
        let msg = status_mismatch_message(expected_status, status);
        return ResponseStep::Record(
            CheckOutcome { is_up: false, status_code: Some(status as i32), error_message: Some(msg) },
        );
    }
    match expectation {
        Ok(None) => ResponseStep::Record(
            CheckOutcome { is_up: true, status_code: Some(status as i32), error_message: None },
        ),
        Ok(Some(e)) => ResponseStep::ReadBody(e),
        Err(msg) => {
            let mut m = string_from("Invalid regex: ");
            m.append(msg.as_str());
            ResponseStep::Record(
                CheckOutcome {
                    is_up: false,
                    status_code: Some(status as i32),
                    error_message: Some(m),
                },
            )
        },
    }
}

/// Judges a response body (of a response with status `status`) against an
/// expectation. For a pattern, `regex_matched` is whether the body matched it.
pub fn judge_body(
    status: u16,
    expectation: &BodyExpectation,
    body: &str,
    regex_matched: bool,
) -> (r: CheckOutcome)
    ensures
        match expectation {
            BodyExpectation::Contains(needle) => if contains(body@, needle@) {
                outcome_is(r, true, Some(status as i32), None)
            } else {
                outcome_is(r, false, Some(status as i32), Some(missing_text_message(needle@)))
            },
            BodyExpectation::Regex(pattern) => if regex_matched {
                outcome_is(r, true, Some(status as i32), None)
            } else {
                outcome_is(r, false, Some(status as i32), Some(regex_mismatch_message(pattern@)))
            },
        },
        is_consistent(r),
{
    match expectation {
        BodyExpectation::Contains(needle) => {
            let found = contains_chars(&chars_of(body), &chars_of(needle.as_str()));
            if found {
                CheckOutcome { is_up: true, status_code: Some(status as i32), error_message: None }
            } else {
                let mut m = string_from("Body did not contain '");
                m.append(needle.as_str());
                m.append("'");
                CheckOutcome {
                    is_up: false,
                    status_code: Some(status as i32),
                    error_message: Some(m),
                }
            }
        },
        BodyExpectation::Regex(pattern) => {
            if regex_matched {
                CheckOutcome { is_up: true, status_code: Some(status as i32), error_message: None }
            } else {
                let mut m = string_from("Body did not match regex '");
                m.append(pattern.as_str());
                m.append("'");
                CheckOutcome {
                    is_up: false,
                    status_code: Some(status as i32),
                    error_message: Some(m),
                }
            }
        },
    }
}

/// The message for a connect failure, given the root cause, its lower-case
/// form and the first socket error kind: TLS and DNS failures are recognised
/// by words of the root cause; otherwise the kind's canonical label leads the
/// message, unless the root cause already starts with it.
pub fn describe_connect_error_lowered(
    cause: &str,
    lower: &str,
    io_kind: Option<IoErrorKind>,
) -> (r: String)
    ensures
        r@ == connect_message(cause@, lower@, io_kind),
        leads_with_label(r@, lower@, io_kind),
{
    let lw = chars_of(lower);
    let tls = contains_chars(&lw, &chars_of("certificate")) || contains_chars(&lw, &chars_of("tls"))
        || contains_chars(&lw, &chars_of("ssl")) || contains_chars(&lw, &chars_of("handshake"));
    if tls {
        let mut m = string_from("TLS error: ");
        m.append(cause);
        return m;
    }
    let dns = contains_chars(&lw, &chars_of("dns")) || contains_chars(
        &lw,
        &chars_of("lookup address"),
    ) || contains_chars(&lw, &chars_of("name or service not known")) || contains_chars(
        &lw,
        &chars_of("nodename nor servname"),
    ) || contains_chars(&lw, &chars_of("no such host")) || contains_chars(
        &lw,
        &chars_of("name resolution"),
    );
    if dns {
        let mut m = string_from("DNS resolution failed: ");
        m.append(cause);
        return m;
    }
    let label: Option<&str> = match io_kind {
        Some(IoErrorKind::ConnectionRefused) => Some("Connection refused"),
        Some(IoErrorKind::TimedOut) => Some("Connection timed out"),
        Some(IoErrorKind::NetworkUnreachable) => Some("Network unreachable"),
        Some(IoErrorKind::HostUnreachable) => Some("Host unreachable"),
        Some(IoErrorKind::ConnectionReset) => Some("Connection reset"),
        Some(IoErrorKind::ConnectionAborted) => Some("Connection aborted"),
        _ => None,
    };
    match label {
        None => {
            let mut m = string_from("Connection failed: ");
            m.append(cause);
            m
        },
        Some(label) => {
            proof {
                lemma_starts_with_self(label@);
            }
            if starts_with_chars(&chars_of(cause), &chars_of(label)) {
                string_from(cause)
            } else {
                let mut m = string_from(label);
                m.append(" \u{2014} ");
                let ghost dash = m@;
                m.append(cause);
                proof {
                    assert(dash == label@ + " \u{2014} "@);
                    assert(m@ =~= label@ + (" \u{2014} "@ + cause@));
                    lemma_starts_with_concat(label@, " \u{2014} "@ + cause@, label@);
                }
                m
            }
        },
    }
}

/// The message for a connect failure with root cause `cause` and first socket
/// error kind `io_kind`; the root cause is lower-cased for the word tests.
pub fn describe_connect_error(cause: &str, io_kind: Option<IoErrorKind>) -> (r: String)
    ensures
        r@ == connect_message(cause@, lowercase(cause@), io_kind),
        leads_with_label(r@, lowercase(cause@), io_kind),
{
    let lower = to_lowercase(cause);
    describe_connect_error_lowered(cause, lower.as_str(), io_kind)
}

/// The message of the deepest error in a chain of error messages, listed from
/// the outermost error down.
pub fn root_cause(chain: &[String]) -> (r: String)
    requires
        chain@.len() > 0,
    ensures
        r@ == chain@.last()@,
{
    chain[chain.len() - 1].clone()
}

/// The first socket error kind in a chain, outermost first.
pub open spec fn first_kind(kinds: Seq<Option<IoErrorKind>>) -> Option<IoErrorKind>
    decreases kinds.len(),
{
    if kinds.len() == 0 {
        None
    } else if kinds[0] is Some {
        kinds[0]
    } else {
        first_kind(kinds.drop_first())
    }
}

/// The first socket error kind found walking an error chain from the outermost
/// error down (`None` where an error is not a socket error).
pub fn io_error_kind(kinds: &[Option<IoErrorKind>]) -> (r: Option<IoErrorKind>)
    ensures
        r == first_kind(kinds@),
{
    let mut i: usize = 0;
    assert(kinds@.skip(0) =~= kinds@);
    while i < kinds.len()
        invariant
            i <= kinds@.len(),
            first_kind(kinds@) == first_kind(kinds@.skip(i as int)),
        decreases kinds.len() - i,
    {
        assert(kinds@.skip(i as int).drop_first() =~= kinds@.skip(i + 1));
        if kinds[i].is_some() {
            return kinds[i];
        }
        i += 1;
    }
    None
}

/// The message recorded for a request that got no response.
pub open spec fn failure_message(
    failure: RequestFailure,
    timeout_secs: u64,
) -> Seq<char> {
    match failure {
        RequestFailure::Timeout => timeout_message(timeout_secs),
        RequestFailure::Connect { cause, io_kind } => connect_message(
            cause@,
            lowercase(cause@),
            io_kind,
        ),
        RequestFailure::Other { cause } => request_failed_message(cause@),
    }
}

/// The outcome recorded for a request that got no response within
/// `timeout_secs` seconds: down, with no status code, and a message that says
/// why.
pub fn failure_outcome(failure: &RequestFailure, timeout_secs: u64) -> (r: CheckOutcome)
    ensures
        outcome_is(r, false, None, Some(failure_message(*failure, timeout_secs))),
        is_consistent(r),
{
    let msg = match failure {
        RequestFailure::Timeout => {
            let mut m = string_from("Timeout after ");
            push_decimal(&mut m, (timeout_secs as u128) * 1000);
            m.append("ms");
            m
        },
        RequestFailure::Connect { cause, io_kind } => describe_connect_error(
            cause.as_str(),
            *io_kind,
        ),
        RequestFailure::Other { cause } => {
            let mut m = string_from("Request failed: ");
            m.append(cause.as_str());
            m
        },
    };
    CheckOutcome { is_up: false, status_code: None, error_message: Some(msg) }
}

} // verus!
