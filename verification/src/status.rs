//! The status page's data: the latest state of each service, the overall
//! verdict, and which history buckets belong to which service.
//!
//! Instants are milliseconds since the Unix epoch.

use vstd::prelude::*;
use vstd::string::*;

use crate::config::{duplicate_at, ServiceConfig};

verus! {

/// The overall verdict over all services.
#[derive(Debug, Clone, Copy, PartialEq, Eq, Structural)]
pub enum OverallStatus {
    AllOperational,
    PartialOutage,
    MajorOutage,
}

/// A stored check result.
#[derive(Debug, Clone)]
pub struct CheckResult {
    pub service_id: String,
    pub is_up: bool,
    pub status_code: Option<i32>,
    pub response_time_ms: i64,
    pub error_message: Option<String>,
    pub checked_at: i64,
}

/// The latest state of one service, as the status page shows it.
#[derive(Debug, Clone)]
pub struct ServiceStatus {
    pub id: String,
    pub name: String,
    pub url: String,
    pub is_up: bool,
    pub status_code: Option<i32>,
    pub response_time_ms: i64,
    pub error_message: Option<String>,
    pub last_checked: i64,
}

/// The answer of the status endpoint.
#[derive(Debug)]
pub struct StatusResponse {
    pub services: Vec<ServiceStatus>,
    pub overall_status: OverallStatus,
    pub generated_at: i64,
}

// ------------------------------------------------------------------------
// Overall status
// ------------------------------------------------------------------------

/// The name of an overall verdict on the wire.
pub open spec fn overall_status_name(s: OverallStatus) -> Seq<char> {
    match s {
        OverallStatus::AllOperational => "all_operational"@,
        OverallStatus::PartialOutage => "partial_outage"@,
        OverallStatus::MajorOutage => "major_outage"@,
    }
}

impl OverallStatus {
    /// The verdict's name on the wire: `all_operational`, `partial_outage` or
    /// `major_outage`.
    pub fn as_str(&self) -> (r: &'static str)
        ensures
            r@ == overall_status_name(*self),
    {
        match self {
            OverallStatus::AllOperational => "all_operational",
            OverallStatus::PartialOutage => "partial_outage",
            OverallStatus::MajorOutage => "major_outage",
        }
    }
}

/// The number of services that are down.
pub open spec fn down_count(s: Seq<ServiceStatus>) -> nat
    decreases s.len(),
{
    if s.len() == 0 {
        0
    } else {
        down_count(s.drop_last()) + if s.last().is_up {
            0nat
        } else {
            1nat
        }
    }
}

/// The verdict over a list of services: all operational when no service is
/// down, major outage when every one of a non-empty list is down, partial
/// outage otherwise.
pub open spec fn overall_of(s: Seq<ServiceStatus>) -> OverallStatus {
    if s.len() == 0 || down_count(s) == 0 {
        OverallStatus::AllOperational
    } else if down_count(s) == s.len() {
        OverallStatus::MajorOutage
    } else {
        OverallStatus::PartialOutage
    }
}

/// The overall verdict over the given services.
pub fn compute_overall_status(services: &[ServiceStatus]) -> (r: OverallStatus)
    ensures
        r == overall_of(services@),
{
    if services.len() == 0 {
        return OverallStatus::AllOperational;
    }
    let mut down: usize = 0;
    let mut i: usize = 0;
    while i < services.len()
        invariant
            i <= services@.len(),
            down == down_count(services@.subrange(0, i as int)),
            down <= i,
        decreases services.len() - i,
    {
        assert(services@.subrange(0, i + 1).drop_last() =~= services@.subrange(0, i as int));
        if !services[i].is_up {
            down += 1;
        }
        i += 1;
    }
    assert(services@.subrange(0, i as int) =~= services@);
    if down == 0 {
        OverallStatus::AllOperational
    } else if down == services.len() {
        OverallStatus::MajorOutage
    } else {
        OverallStatus::PartialOutage
    }
}

/// Counting the down services: none are down exactly when every service is
/// up, and all are down exactly when no service is up.
pub proof fn lemma_down_count(s: Seq<ServiceStatus>)
    ensures
        down_count(s) <= s.len(),
        down_count(s) == 0 <==> forall|i: int| 0 <= i < s.len() ==> s[i].is_up,
        down_count(s) == s.len() <==> forall|i: int| 0 <= i < s.len() ==> !s[i].is_up,
    decreases s.len(),
{
    if s.len() > 0 {
        let p = s.drop_last();
        lemma_down_count(p);
        assert forall|i: int| 0 <= i < p.len() implies p[i] == s[i] by {}
        if down_count(s) == 0 {
            assert forall|i: int| 0 <= i < s.len() implies s[i].is_up by {
                if i < p.len() {
                    assert(p[i] == s[i]);
                }
            }
        }
        if down_count(s) == s.len() {
            assert forall|i: int| 0 <= i < s.len() implies !s[i].is_up by {
                if i < p.len() {
                    assert(p[i] == s[i]);
                }
            }
        }
        if forall|i: int| 0 <= i < s.len() ==> s[i].is_up {
            assert(s[s.len() - 1].is_up);
            assert forall|i: int| 0 <= i < p.len() implies p[i].is_up by {
                assert(s[i].is_up);
            }
        }
        if forall|i: int| 0 <= i < s.len() ==> !s[i].is_up {
            assert(!s[s.len() - 1].is_up);
            assert forall|i: int| 0 <= i < p.len() implies !p[i].is_up by {
                assert(!s[i].is_up);
            }
        }
    }
}

/// What the overall verdict means: all operational exactly when every service
/// is up, major outage exactly when there are services and none is up, partial
/// outage exactly when some service is up and some is down.
pub proof fn law_overall_status_meaning(s: Seq<ServiceStatus>)
    ensures
        overall_of(s) == OverallStatus::AllOperational <==> forall|i: int|
            0 <= i < s.len() ==> s[i].is_up,
        overall_of(s) == OverallStatus::MajorOutage <==> s.len() > 0 && forall|i: int|
            0 <= i < s.len() ==> !s[i].is_up,
        overall_of(s) == OverallStatus::PartialOutage <==> (exists|i: int|
            0 <= i < s.len() && s[i].is_up) && (exists|j: int| 0 <= j < s.len() && !s[j].is_up),
{
    lemma_down_count(s);
    if s.len() > 0 && down_count(s) != 0 && down_count(s) != s.len() {
        let i = choose|i: int| 0 <= i < s.len() && !s[i].is_up;
        let j = choose|j: int| 0 <= j < s.len() && s[j].is_up;
        assert(s[i].is_up == false);
        assert(s[j].is_up);
    }
}

// ------------------------------------------------------------------------
// Latest status per service
// ------------------------------------------------------------------------

/// The last stored result for the service with id `id` among the first `n`.
pub open spec fn latest_index_below(latest: Seq<CheckResult>, id: Seq<char>, n: int) -> Option<int>
    decreases n,
{
    if n <= 0 {
        None
    } else if latest[n - 1].service_id@ == id {
        Some(n - 1)
    } else {
        latest_index_below(latest, id, n - 1)
    }
}

/// The last stored result for the service with id `id` (later results of the
/// same service replace earlier ones).
pub open spec fn latest_index(latest: Seq<CheckResult>, id: Seq<char>) -> Option<int> {
    latest_index_below(latest, id, latest.len() as int)
}

/// `st` is what the status page shows for service `svc`, given the stored
/// results and the current instant `now`: the service's last result, or, when
/// it has none yet, down with `"No check results yet"` as of `now`.
pub open spec fn shows_service(
    st: ServiceStatus,
    svc: ServiceConfig,
    latest: Seq<CheckResult>,
    now: i64,
) -> bool {
    &&& st.id@ == svc.id@
    &&& st.name@ == svc.name@
    &&& st.url@ == svc.url@
    &&& match latest_index(latest, svc.id@) {
        Some(j) => {
            &&& st.is_up == latest[j].is_up
            &&& st.status_code == latest[j].status_code
            &&& st.response_time_ms == latest[j].response_time_ms
            &&& st.error_message == latest[j].error_message
            &&& st.last_checked == latest[j].checked_at
        },
        None => {
            &&& !st.is_up
            &&& st.status_code is None
            &&& st.response_time_ms == 0
            &&& st.error_message matches Some(m) && m@ == "No check results yet"@
            &&& st.last_checked == now
        },
    }
}

fn find_latest(latest: &Vec<CheckResult>, id: &String) -> (r: Option<usize>)
    ensures
        match r {
            Some(j) => latest_index(latest@, id@) == Some(j as int) && j < latest@.len(),
            None => latest_index(latest@, id@) is None,
        },
{
    let mut n = latest.len();
    while n > 0
        invariant
            n <= latest@.len(),
            latest_index(latest@, id@) == latest_index_below(latest@, id@, n as int),
        decreases n,
    {
        if latest[n - 1].service_id == *id {
            return Some(n - 1);
        }
        n -= 1;
    }
    None
}

fn clone_message(m: &Option<String>) -> (r: Option<String>)
    ensures
        r == *m,
{
    match m {
        Some(s) => Some(s.clone()),
        None => None,
    }
}

/// The status response: for each configured service, in order, what the page
/// shows for it; the overall verdict over those; generated at `now`.
pub fn build_status_response(
    services: &Vec<ServiceConfig>,
    latest: &Vec<CheckResult>,
    now: i64,
) -> (r: StatusResponse)
    ensures
        r.services@.len() == services@.len(),
        forall|i: int|
            0 <= i < services@.len() ==> shows_service(
                #[trigger] r.services@[i],
                services@[i],
                latest@,
                now,
            ),
        r.overall_status == overall_of(r.services@),
        r.generated_at == now,
{
    let mut out: Vec<ServiceStatus> = Vec::new();
    let mut i: usize = 0;
    while i < services.len()
        invariant
            i <= services@.len(),
            out@.len() == i,
            forall|k: int|
                0 <= k < i ==> shows_service(#[trigger] out@[k], services@[k], latest@, now),
        decreases services.len() - i,
    {
        let svc = &services[i];
        let st = match find_latest(latest, &svc.id) {
            Some(j) => {
                let check = &latest[j];
                ServiceStatus {
                    id: svc.id.clone(),
                    name: svc.name.clone(),
                    url: svc.url.clone(),
                    is_up: check.is_up,
                    status_code: check.status_code,
                    response_time_ms: check.response_time_ms,
                    error_message: clone_message(&check.error_message),
                    last_checked: check.checked_at,
                }
            },
            None => ServiceStatus {
                id: svc.id.clone(),
                name: svc.name.clone(),
                url: svc.url.clone(),
                is_up: false,
                status_code: None,
                response_time_ms: 0,
                error_message: Some(String::from_str("No check results yet")),
                last_checked: now,
            },
        };
        out.push(st);
        i += 1;
    }
    let overall = compute_overall_status(out.as_slice());
    StatusResponse { services: out, overall_status: overall, generated_at: now }
}

// ------------------------------------------------------------------------
// History buckets per service
// ------------------------------------------------------------------------

/// The positions, in order, of the buckets among the first `n` whose service
/// id is `id`.
pub open spec fn buckets_of(ids: Seq<String>, id: Seq<char>, n: int) -> Seq<usize>
    decreases n,
{
    if n <= 0 {
        seq![]
    } else if ids[n - 1]@ == id {
        buckets_of(ids, id, n - 1).push((n - 1) as usize)
    } else {
        buckets_of(ids, id, n - 1)
    }
}

/// The buckets shown for service `i`: those of its id, unless an earlier
/// service already took that id.
pub open spec fn group_for(services: Seq<ServiceConfig>, ids: Seq<String>, i: int) -> Seq<usize> {
    if duplicate_at(services, i) {
        seq![]
    } else {
        buckets_of(ids, services[i].id@, ids.len() as int)
    }
}

/// For each configured service, in order, the positions of the history
/// buckets (given by their service ids, in query order) that belong to it,
/// in their original order. A service whose id an earlier service already
/// has gets none.
pub fn group_history_buckets(
    services: &Vec<ServiceConfig>,
    bucket_service_ids: &Vec<String>,
) -> (r: Vec<Vec<usize>>)
    ensures
        r@.len() == services@.len(),
        forall|i: int|
            0 <= i < services@.len() ==> (#[trigger] r@[i])@ == group_for(
                services@,
                bucket_service_ids@,
                i,
            ),
{
    let ids = bucket_service_ids;
    let mut out: Vec<Vec<usize>> = Vec::new();
    let mut i: usize = 0;
    while i < services.len()
        invariant
            i <= services@.len(),
            out@.len() == i,
            forall|k: int|
                0 <= k < i ==> (#[trigger] out@[k])@ == group_for(services@, ids@, k),
        decreases services.len() - i,
    {
        let mut dup = false;
        let mut k: usize = 0;
        while k < i
            invariant
                k <= i < services@.len(),
                dup == exists|j: int| 0 <= j < k && #[trigger] services@[j].id@ == services@[i as int].id@,
            decreases i - k,
        {
            if services[k].id == services[i].id {
                dup = true;
            }
            k += 1;
        }
        let mut group: Vec<usize> = Vec::new();
        if !dup {
            let mut j: usize = 0;
            while j < ids.len()
                invariant
                    j <= ids@.len(),
                    i < services@.len(),
                    group@ == buckets_of(ids@, services@[i as int].id@, j as int),
                decreases ids.len() - j,
            {
                if ids[j] == services[i].id {
                    group.push(j);
                }
                j += 1;
            }
        }
        assert(group@ == group_for(services@, ids@, i as int));
        out.push(group);
        i += 1;
    }
    out
}

/// The buckets of an id are exactly the positions holding that id, in
/// increasing order.
pub proof fn lemma_buckets_of(ids: Seq<String>, id: Seq<char>, n: int)
    requires
        0 <= n <= ids.len(),
        ids.len() <= usize::MAX,
    ensures
        forall|j: int| 0 <= j < n && ids[j]@ == id ==> #[trigger] buckets_of(ids, id, n).contains(
            j as usize,
        ),
        forall|k: int|
            0 <= k < buckets_of(ids, id, n).len() ==> {
                let b = #[trigger] buckets_of(ids, id, n)[k];
                &&& b < n
                &&& ids[b as int]@ == id
            },
        forall|k: int, l: int|
            0 <= k < l < buckets_of(ids, id, n).len() ==> buckets_of(ids, id, n)[k]
                < buckets_of(ids, id, n)[l],
    decreases n,
{
    if n > 0 {
        lemma_buckets_of(ids, id, n - 1);
        let prev = buckets_of(ids, id, n - 1);
        if ids[n - 1]@ == id {
            let cur = prev.push((n - 1) as usize);
            assert(buckets_of(ids, id, n) == cur);
            assert forall|j: int| 0 <= j < n && ids[j]@ == id implies #[trigger] cur.contains(
                j as usize,
            ) by {
                if j < n - 1 {
                    assert(prev.contains(j as usize));
                    let w = choose|w: int| 0 <= w < prev.len() && prev[w] == j as usize;
                    assert(cur[w] == j as usize);
                } else {
                    assert(cur[prev.len() as int] == j as usize);
                }
            }
            assert forall|k: int| 0 <= k < cur.len() implies {
                let b = #[trigger] cur[k];
                &&& b < n
                &&& ids[b as int]@ == id
            } by {
                if k < prev.len() {
                    assert(cur[k] == prev[k]);
                } else {
                    assert(cur[k] == (n - 1) as usize);
                }
            }
            assert forall|k: int, l: int| 0 <= k < l < cur.len() implies cur[k] < cur[l] by {
                assert(cur[k] == prev[k]);
                let pk = prev[k];
                assert(pk < n - 1);
                if l < prev.len() {
                    assert(cur[l] == prev[l]);
                } else {
                    assert(cur[l] == (n - 1) as usize);
                }
            }
        }
    }
}

} // verus!
