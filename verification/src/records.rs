//! Normalizing shortcut and domain lists returned by the API.

use vstd::prelude::*;
use crate::json::{JsonValue, field, text_field, u64_of, bool_of, array_of, text_of};
use crate::output::{ShortcutRow, DomainRow, shortcut_text, format_shortcut};
use crate::text::{same_text, to_owned_string, opt_seq, eq_ignore_ascii_case, equal_ignore_ascii_case, push_str};
use crate::trusted::{regex_compiles, regex_is_match, regex_valid, regex_matches};

verus! {

/// Why an API payload could not be read.
#[derive(Debug, PartialEq, Eq)]
pub enum RecordError {
    /// The payload has no `shortcuts` array.
    MissingShortcuts,
    /// The payload has no `domains` array.
    MissingDomains,
    /// A record has no string `hostname`.
    MissingHostname,
    /// A record has no string `tail`.
    MissingTail,
    /// A record has no string `targetUrl`.
    MissingTarget,
    /// A record has no string `id`.
    MissingId,
    /// No shortcut has the requested ID.
    ShortcutNotFound,
    /// The shortcut has no integer `version`.
    MissingVersion,
    /// The account owns no domain.
    NoDomains,
    /// The first domain has no string `id`.
    DomainWithoutId,
    /// No domain names its owner account.
    NoOwnedDomain,
}

/// Row of one shortcut record: `host/tail`, target, and visits (missing counts as 0).
#[verifier::opaque]
pub open spec fn shortcut_row_of(s: JsonValue, stats: bool) -> Result<(Seq<char>, Seq<char>, Option<u64>), RecordError> {
    match text_field(s, "hostname"@) {
        None => Err(RecordError::MissingHostname),
        Some(h) => match text_field(s, "tail"@) {
            None => Err(RecordError::MissingTail),
            Some(t) => match text_field(s, "targetUrl"@) {
                None => Err(RecordError::MissingTarget),
                Some(u) => Ok(
                    (
                        shortcut_text(h, t),
                        u,
                        if stats {
                            Some(
                                match u64_of(field(s, "clickCount"@)) {
                                    Some(n) => n,
                                    None => 0,
                                },
                            )
                        } else {
                            None
                        },
                    ),
                ),
            },
        },
    }
}

pub open spec fn shortcut_row_view(r: ShortcutRow) -> (Seq<char>, Seq<char>, Option<u64>) {
    (r.shortcut@, r.target@, r.visits)
}

/// Rows of the shortcut records in order; the first unreadable record decides the error.
pub open spec fn collect_shortcut_rows(list: Seq<JsonValue>, stats: bool) -> Result<Seq<(Seq<char>, Seq<char>, Option<u64>)>, RecordError>
    decreases list.len(),
{
    if list.len() == 0 {
        Ok(Seq::empty())
    } else {
        match collect_shortcut_rows(list.drop_last(), stats) {
            Err(e) => Err(e),
            Ok(rows) => match shortcut_row_of(list.last(), stats) {
                Err(e) => Err(e),
                Ok(r) => Ok(rows.push(r)),
            },
        }
    }
}

proof fn lemma_shortcut_rows_err(list: Seq<JsonValue>, stats: bool, k: int, m: int)
    requires
        0 <= k <= m <= list.len(),
        collect_shortcut_rows(list.take(k), stats) is Err,
    ensures
        collect_shortcut_rows(list.take(m), stats) == collect_shortcut_rows(list.take(k), stats),
    decreases m - k,
{
    if m > k {
        lemma_shortcut_rows_err(list, stats, k, m - 1);
        assert(list.take(m).drop_last() =~= list.take(m - 1));
    }
}

/// The rows of a shortcut-list payload.
pub open spec fn shortcut_rows_of(payload: JsonValue, stats: bool) -> Result<Seq<(Seq<char>, Seq<char>, Option<u64>)>, RecordError> {
    match array_of(field(payload, "shortcuts"@)) {
        None => Err(RecordError::MissingShortcuts),
        Some(list) => collect_shortcut_rows(list, stats),
    }
}

/// `views` are the views of `rows`, in order.
pub open spec fn shortcut_rows_match(rows: Seq<ShortcutRow>, views: Seq<(Seq<char>, Seq<char>, Option<u64>)>) -> bool {
    rows.len() == views.len() && forall|j: int| 0 <= j < rows.len() ==> shortcut_row_view(#[trigger] rows[j]) == views[j]
}

fn shortcut_row(s: &JsonValue, stats: bool) -> (r: Result<ShortcutRow, RecordError>)
    ensures
        shortcut_row_of(*s, stats) == match r {
            Ok(row) => Ok(shortcut_row_view(row)),
            Err(e) => Err(e),
        },
{
    reveal(shortcut_row_of);
    let hostname = match s.str_field("hostname") {
        Some(h) => h,
        None => return Err(RecordError::MissingHostname),
    };
    let tail = match s.str_field("tail") {
        Some(t) => t,
        None => return Err(RecordError::MissingTail),
    };
    let target = match s.str_field("targetUrl") {
        Some(u) => u,
        None => return Err(RecordError::MissingTarget),
    };
    let visits = if stats {
        Some(
            match s.u64_field("clickCount") {
                Some(n) => n,
                None => 0,
            },
        )
    } else {
        None
    };
    Ok(
        ShortcutRow {
            shortcut: format_shortcut(hostname, tail),
            target: to_owned_string(target),
            visits,
        },
    )
}

/// Normalizes a shortcut-list payload into rows.
pub fn shortcut_rows(payload: &JsonValue, include_stats: bool) -> (r: Result<Vec<ShortcutRow>, RecordError>)
    ensures
        match r {
            Ok(rows) => shortcut_rows_of(*payload, include_stats) matches Ok(views) && shortcut_rows_match(rows@, views),
            Err(e) => shortcut_rows_of(*payload, include_stats) == Err::<Seq<(Seq<char>, Seq<char>, Option<u64>)>, RecordError>(e),
        },
{
    let list = match payload.array_field("shortcuts") {
        Some(l) => l,
        None => return Err(RecordError::MissingShortcuts),
    };
    let mut rows: Vec<ShortcutRow> = Vec::new();
    let ghost mut views: Seq<(Seq<char>, Seq<char>, Option<u64>)> = Seq::empty();
    let mut i: usize = 0;
    while i < list.len()
        invariant
            array_of(field(*payload, "shortcuts"@)) == Some(list@),
            i <= list@.len(),
            collect_shortcut_rows(list@.take(i as int), include_stats) == Ok::<Seq<(Seq<char>, Seq<char>, Option<u64>)>, RecordError>(views),
            shortcut_rows_match(rows@, views),
        decreases list.len() - i,
    {
        let row = shortcut_row(&list[i], include_stats);
        proof {
            assert(list@.take(i + 1).drop_last() =~= list@.take(i as int));
            assert(list@.take(i + 1).last() == list@[i as int]);
        }
        match row {
            Ok(row) => {
                proof {
                    views = views.push(shortcut_row_view(row));
                }
                rows.push(row);
            },
            Err(e) => {
                proof {
                    lemma_shortcut_rows_err(list@, include_stats, i + 1, list@.len() as int);
                    assert(list@.take(list@.len() as int) =~= list@);
                }
                return Err(e);
            },
        }
        i = i + 1;
    }
    assert(list@.take(list@.len() as int) =~= list@);
    Ok(rows)
}


/// Position of the first `id` in `ids`.
pub open spec fn id_index(ids: Seq<String>, id: Seq<char>) -> Option<int>
    decreases ids.len(),
{
    if ids.len() == 0 {
        None
    } else {
        match id_index(ids.drop_last(), id) {
            Some(i) => Some(i),
            None => if ids.last()@ == id {
                Some(ids.len() - 1)
            } else {
                None
            },
        }
    }
}

proof fn lemma_id_index_bound(ids: Seq<String>, id: Seq<char>)
    ensures
        id_index(ids, id) matches Some(i) ==> 0 <= i < ids.len() && ids[i]@ == id,
    decreases ids.len(),
{
    if ids.len() > 0 {
        lemma_id_index_bound(ids.drop_last(), id);
    }
}

proof fn lemma_id_index_prefix(ids: Seq<String>, id: Seq<char>, k: int, m: int)
    requires
        0 <= k <= m <= ids.len(),
        id_index(ids.take(k), id) is Some,
    ensures
        id_index(ids.take(m), id) == id_index(ids.take(k), id),
    decreases m - k,
{
    if m > k {
        lemma_id_index_prefix(ids, id, k, m - 1);
        assert(ids.take(m).drop_last() =~= ids.take(m - 1));
    }
}

proof fn lemma_id_index_none(ids: Seq<String>, id: Seq<char>)
    requires
        forall|j: int| 0 <= j < ids.len() ==> (#[trigger] ids[j])@ != id,
    ensures
        id_index(ids, id) is None,
    decreases ids.len(),
{
    if ids.len() > 0 {
        lemma_id_index_none(ids.drop_last(), id);
    }
}

/// Visits per domain ID, summed over shortcuts.
pub struct DomainVisits {
    ids: Vec<String>,
    counts: Vec<u64>,
}

impl DomainVisits {
    #[verifier::type_invariant]
    spec fn aligned(self) -> bool {
        self.ids@.len() == self.counts@.len()
    }

    /// Visits recorded for `id` (zero when none).
    pub closed spec fn count_of(self, id: Seq<char>) -> u64 {
        match id_index(self.ids@, id) {
            Some(i) => self.counts@[i],
            None => 0,
        }
    }

    fn find(&self, id: &str) -> (r: Option<usize>)
        ensures
            r matches Some(k) ==> id_index(self.ids@, id@) == Some(k as int),
            r is None ==> id_index(self.ids@, id@) is None,
            r matches Some(i) ==> i < self.ids@.len() && i < self.counts@.len(),
    {
        proof {
            use_type_invariant(self);
        }
        let mut j: usize = 0;
        while j < self.ids.len()
            invariant
                self.ids@.len() == self.counts@.len(),
                j <= self.ids@.len(),
                forall|q: int| 0 <= q < j ==> (#[trigger] self.ids@[q])@ != id@,
            decreases self.ids.len() - j,
        {
            if same_text(self.ids[j].as_str(), id) {
                proof {
                    let t = self.ids@.take(j as int);
                    assert forall|q: int| 0 <= q < t.len() implies (#[trigger] t[q])@ != id@ by {
                        assert(t[q] == self.ids@[q]);
                    }
                    lemma_id_index_none(t, id@);
                    assert(self.ids@.take(j + 1).drop_last() =~= t);
                    lemma_id_index_prefix(self.ids@, id@, j + 1, self.ids@.len() as int);
                    assert(self.ids@.take(self.ids@.len() as int) =~= self.ids@);
                }
                return Some(j);
            }
            j = j + 1;
        }
        proof {
            lemma_id_index_none(self.ids@, id@);
        }
        None
    }

    /// Visits recorded for `id` (zero when none).
    pub fn count(&self, id: &str) -> (r: u64)
        ensures
            r == self.count_of(id@),
    {
        match self.find(id) {
            Some(i) => self.counts[i],
            None => 0,
        }
    }
}

/// The visits a shortcut record contributes to domain `id`.
pub open spec fn shortcut_domain_visits(s: JsonValue, id: Seq<char>) -> nat {
    if text_field(s, "domainId"@) == Some(id) {
        match u64_of(field(s, "clickCount"@)) {
            Some(n) => n as nat,
            None => 0,
        }
    } else {
        0
    }
}

/// Total visits of the shortcuts on domain `id`.
pub open spec fn total_visits(list: Seq<JsonValue>, id: Seq<char>) -> nat
    decreases list.len(),
{
    if list.len() == 0 {
        0
    } else {
        total_visits(list.drop_last(), id) + shortcut_domain_visits(list.last(), id)
    }
}

proof fn lemma_total_visits_prefix(list: Seq<JsonValue>, id: Seq<char>, k: int)
    requires
        0 <= k <= list.len(),
    ensures
        total_visits(list.take(k), id) <= total_visits(list, id),
    decreases list.len() - k,
{
    if k < list.len() {
        lemma_total_visits_prefix(list, id, k + 1);
        assert(list.take(k + 1).drop_last() =~= list.take(k));
    } else {
        assert(list.take(k) =~= list);
    }
}

/// No domain's total fits outside a `u64`.
pub open spec fn visit_totals_fit(payload: JsonValue) -> bool {
    match array_of(field(payload, "shortcuts"@)) {
        Some(list) => forall|id: Seq<char>| #[trigger] total_visits(list, id) <= u64::MAX,
        None => true,
    }
}


/// `visits` with `count` more visits for `domain_id`.
fn add_visits(visits: DomainVisits, domain_id: &str, count: u64) -> (r: DomainVisits)
    requires
        visits.count_of(domain_id@) + count <= u64::MAX,
    ensures
        forall|id: Seq<char>|
            #[trigger] r.count_of(id) == if id == domain_id@ {
                visits.count_of(id) + count
            } else {
                visits.count_of(id) as int
            },
{
    let ghost before = visits;
    match visits.find(domain_id) {
        Some(k) => {
            proof {
                use_type_invariant(&visits);
            }
            let total = visits.counts[k] + count;
            let DomainVisits { ids, mut counts } = visits;
            counts.set(k, total);
            let r = DomainVisits { ids, counts };
            proof {
                assert forall|id: Seq<char>| #[trigger] r.count_of(id) == if id == domain_id@ { before.count_of(id) + count } else { before.count_of(id) as int } by {
                    assert(r.ids@ == before.ids@);
                    if id == domain_id@ {
                    } else {
                        
                        match id_index(before.ids@, id) {
                            Some(q) => {
                                lemma_id_index_bound(before.ids@, id);
                                lemma_id_index_bound(before.ids@, domain_id@);
                                assert(q != k);
                            },
                            None => {},
                        }
                    }
                }
            }
            r
        },
        None => {
            proof {
                use_type_invariant(&visits);
            }
            let DomainVisits { mut ids, mut counts } = visits;
            ids.push(to_owned_string(domain_id));
            counts.push(count);
            let r = DomainVisits { ids, counts };
            proof {
                assert(r.ids@.drop_last() =~= before.ids@);
                assert forall|id: Seq<char>| #[trigger] r.count_of(id) == if id == domain_id@ { before.count_of(id) + count } else { before.count_of(id) as int } by {
                    
                    lemma_id_index_bound(before.ids@, id);
                    match id_index(before.ids@, id) {
                        Some(q) => {
                            assert(r.counts@[q] == before.counts@[q]);
                        },
                        None => {},
                    }
                }
            }
            r
        },
    }
}

/// Sums the visit counts of a shortcut-list payload per domain ID.
pub fn domain_visit_counts(payload: &JsonValue) -> (r: Result<DomainVisits, RecordError>)
    requires
        visit_totals_fit(*payload),
    ensures
        match array_of(field(*payload, "shortcuts"@)) {
            None => r == Err::<DomainVisits, RecordError>(RecordError::MissingShortcuts),
            Some(list) => r matches Ok(v) && forall|id: Seq<char>| #[trigger] v.count_of(id) == total_visits(list, id),
        },
{
    let list = match payload.array_field("shortcuts") {
        Some(l) => l,
        None => return Err(RecordError::MissingShortcuts),
    };
    let mut visits = DomainVisits { ids: Vec::new(), counts: Vec::new() };
    assert forall|id: Seq<char>| #[trigger] total_visits(list@, id) <= u64::MAX by {
        assert(visit_totals_fit(*payload));
        let l = array_of(field(*payload, "shortcuts"@))->0;
        assert(l == list@);
        assert(total_visits(l, id) <= u64::MAX);
    }
    let mut i: usize = 0;
    while i < list.len()
        invariant
            array_of(field(*payload, "shortcuts"@)) == Some(list@),
            forall|id: Seq<char>| #[trigger] total_visits(list@, id) <= u64::MAX,
            i <= list@.len(),
            forall|id: Seq<char>| #[trigger] visits.count_of(id) == total_visits(list@.take(i as int), id),
        decreases list.len() - i,
    {
        let s = &list[i];
        proof {
            assert(list@.take(i + 1).drop_last() =~= list@.take(i as int));
            assert(list@.take(i + 1).last() == list@[i as int]);
        }
        if let Some(domain_id) = s.str_field("domainId") {
            let count = match s.u64_field("clickCount") {
                Some(n) => n,
                None => 0,
            };
            proof {
                lemma_total_visits_prefix(list@, domain_id@, i + 1);
                assert(total_visits(list@.take(i + 1), domain_id@) <= u64::MAX);
            }
            proof {
                assert(visits.count_of(domain_id@) == total_visits(list@.take(i as int), domain_id@));
            }
            visits = add_visits(visits, domain_id, count);
            proof {
                assert forall|id: Seq<char>| #[trigger] visits.count_of(id) == total_visits(list@.take(i + 1), id) by {
                    assert(total_visits(list@.take(i as int), id) == total_visits(list@.take(i as int), id));
                }
            }
        } else {
            proof {
                assert forall|id: Seq<char>| #[trigger] visits.count_of(id) == total_visits(list@.take(i + 1), id) by {
                    assert(visits.count_of(id) == total_visits(list@.take(i as int), id));
                }
            }
        }
        i = i + 1;
    }
    assert(list@.take(list@.len() as int) =~= list@);
    Ok(visits)
}


/// The abstract content of a domain row.
pub struct DomainRowView {
    pub id: Seq<char>,
    pub hostname: Seq<char>,
    pub status: Seq<char>,
    pub owner_name: Option<Seq<char>>,
    pub owner_email: Option<Seq<char>>,
    pub vercel_verified: Option<bool>,
    pub vercel_misconfigured: Option<bool>,
    pub last_checked_at: Option<Seq<char>>,
    pub last_error: Option<Seq<char>>,
    pub visits: Option<u64>,
}

pub open spec fn domain_row_view(r: DomainRow) -> DomainRowView {
    DomainRowView {
        id: r.id@,
        hostname: r.hostname@,
        status: r.status@,
        owner_name: opt_seq(r.owner_name),
        owner_email: opt_seq(r.owner_email),
        vercel_verified: r.vercel_verified,
        vercel_misconfigured: r.vercel_misconfigured,
        last_checked_at: opt_seq(r.last_checked_at),
        last_error: opt_seq(r.last_error),
        visits: r.visits,
    }
}

/// Row of one domain record: `id` and `hostname` are required, `status` defaults
/// to `unknown`, the rest are copied when present, and visits come from `visits`.
#[verifier::opaque]
pub open spec fn domain_row_of(d: JsonValue, visits: Option<DomainVisits>) -> Result<DomainRowView, RecordError> {
    match text_field(d, "id"@) {
        None => Err(RecordError::MissingId),
        Some(id) => match text_field(d, "hostname"@) {
            None => Err(RecordError::MissingHostname),
            Some(hostname) => Ok(
                DomainRowView {
                    id,
                    hostname,
                    status: match text_field(d, "status"@) {
                        Some(st) => st,
                        None => "unknown"@,
                    },
                    owner_name: text_field(d, "ownerName"@),
                    owner_email: text_field(d, "ownerEmail"@),
                    vercel_verified: bool_of(field(d, "vercelVerified"@)),
                    vercel_misconfigured: bool_of(field(d, "vercelMisconfigured"@)),
                    last_checked_at: text_field(d, "lastCheckedAt"@),
                    last_error: text_field(d, "lastError"@),
                    visits: match visits {
                        Some(v) => Some(v.count_of(id)),
                        None => None,
                    },
                },
            ),
        },
    }
}

/// Rows of the domain records in order; the first unreadable record decides the error.
pub open spec fn collect_domain_rows(list: Seq<JsonValue>, visits: Option<DomainVisits>) -> Result<Seq<DomainRowView>, RecordError>
    decreases list.len(),
{
    if list.len() == 0 {
        Ok(Seq::empty())
    } else {
        match collect_domain_rows(list.drop_last(), visits) {
            Err(e) => Err(e),
            Ok(rows) => match domain_row_of(list.last(), visits) {
                Err(e) => Err(e),
                Ok(r) => Ok(rows.push(r)),
            },
        }
    }
}

proof fn lemma_domain_rows_err(list: Seq<JsonValue>, visits: Option<DomainVisits>, k: int, m: int)
    requires
        0 <= k <= m <= list.len(),
        collect_domain_rows(list.take(k), visits) is Err,
    ensures
        collect_domain_rows(list.take(m), visits) == collect_domain_rows(list.take(k), visits),
    decreases m - k,
{
    if m > k {
        lemma_domain_rows_err(list, visits, k, m - 1);
        assert(list.take(m).drop_last() =~= list.take(m - 1));
    }
}

/// The rows of a domain-list payload.
pub open spec fn domain_rows_of(payload: JsonValue, visits: Option<DomainVisits>) -> Result<Seq<DomainRowView>, RecordError> {
    match array_of(field(payload, "domains"@)) {
        None => Err(RecordError::MissingDomains),
        Some(list) => collect_domain_rows(list, visits),
    }
}

pub open spec fn domain_rows_match(rows: Seq<DomainRow>, views: Seq<DomainRowView>) -> bool {
    rows.len() == views.len() && forall|j: int| 0 <= j < rows.len() ==> domain_row_view(#[trigger] rows[j]) == views[j]
}

fn opt_owned(o: Option<&str>) -> (r: Option<String>)
    ensures
        opt_seq(r) == match o {
            Some(s) => Some(s@),
            None => None,
        },
{
    match o {
        Some(s) => Some(to_owned_string(s)),
        None => None,
    }
}

fn domain_row(d: &JsonValue, visits: Option<&DomainVisits>) -> (r: Result<DomainRow, RecordError>)
    ensures
        domain_row_of(*d, match visits { Some(v) => Some(*v), None => None }) == match r {
            Ok(row) => Ok(domain_row_view(row)),
            Err(e) => Err(e),
        },
{
    reveal(domain_row_of);
    let id = match d.str_field("id") {
        Some(x) => x,
        None => return Err(RecordError::MissingId),
    };
    let hostname = match d.str_field("hostname") {
        Some(x) => x,
        None => return Err(RecordError::MissingHostname),
    };
    let status = match d.str_field("status") {
        Some(x) => to_owned_string(x),
        None => to_owned_string("unknown"),
    };
    let row = DomainRow {
        visits: match visits {
            Some(v) => Some(v.count(id)),
            None => None,
        },
        id: to_owned_string(id),
        hostname: to_owned_string(hostname),
        status,
        owner_name: opt_owned(d.str_field("ownerName")),
        owner_email: opt_owned(d.str_field("ownerEmail")),
        vercel_verified: d.bool_field("vercelVerified"),
        vercel_misconfigured: d.bool_field("vercelMisconfigured"),
        last_checked_at: opt_owned(d.str_field("lastCheckedAt")),
        last_error: opt_owned(d.str_field("lastError")),
    };
    Ok(row)
}

/// Normalizes a domain-list payload into rows, with visits per domain when given.
pub fn domain_rows(payload: &JsonValue, visits_by_domain: Option<&DomainVisits>) -> (r: Result<Vec<DomainRow>, RecordError>)
    ensures
        match r {
            Ok(rows) => domain_rows_of(*payload, match visits_by_domain { Some(v) => Some(*v), None => None }) matches Ok(views) && domain_rows_match(rows@, views),
            Err(e) => domain_rows_of(*payload, match visits_by_domain { Some(v) => Some(*v), None => None }) == Err::<Seq<DomainRowView>, RecordError>(e),
        },
{
    let ghost vv = match visits_by_domain { Some(v) => Some(*v), None => None };
    let list = match payload.array_field("domains") {
        Some(l) => l,
        None => return Err(RecordError::MissingDomains),
    };
    let mut rows: Vec<DomainRow> = Vec::new();
    let ghost mut views: Seq<DomainRowView> = Seq::empty();
    let mut i: usize = 0;
    while i < list.len()
        invariant
            vv == match visits_by_domain { Some(v) => Some(*v), None => None },
            array_of(field(*payload, "domains"@)) == Some(list@),
            i <= list@.len(),
            collect_domain_rows(list@.take(i as int), vv) == Ok::<Seq<DomainRowView>, RecordError>(views),
            domain_rows_match(rows@, views),
        decreases list.len() - i,
    {
        let row = domain_row(&list[i], visits_by_domain);
        proof {
            assert(list@.take(i + 1).drop_last() =~= list@.take(i as int));
            assert(list@.take(i + 1).last() == list@[i as int]);
        }
        match row {
            Ok(row) => {
                proof {
                    views = views.push(domain_row_view(row));
                }
                rows.push(row);
            },
            Err(e) => {
                proof {
                    lemma_domain_rows_err(list@, vv, i + 1, list@.len() as int);
                    assert(list@.take(list@.len() as int) =~= list@);
                }
                return Err(e);
            },
        }
        i = i + 1;
    }
    assert(list@.take(list@.len() as int) =~= list@);
    Ok(rows)
}


/// The shortcut list of a payload.
pub fn shortcut_list(payload: &JsonValue) -> (r: Result<&Vec<JsonValue>, RecordError>)
    ensures
        match array_of(field(*payload, "shortcuts"@)) {
            Some(l) => r matches Ok(v) && v@ == l,
            None => r == Err::<&Vec<JsonValue>, RecordError>(RecordError::MissingShortcuts),
        },
{
    match payload.array_field("shortcuts") {
        Some(l) => Ok(l),
        None => Err(RecordError::MissingShortcuts),
    }
}

/// `host/tail` of a shortcut record, with `?` for a missing part.
pub open spec fn shortcut_name_of(v: JsonValue) -> Seq<char> {
    (match text_field(v, "hostname"@) {
        Some(h) => h,
        None => "?"@,
    }) + "/"@ + (match text_field(v, "tail"@) {
        Some(t) => t,
        None => "?"@,
    })
}

pub fn shortcut_name(value: &JsonValue) -> (r: String)
    ensures
        r@ == shortcut_name_of(*value),
{
    let mut r = match value.str_field("hostname") {
        Some(h) => to_owned_string(h),
        None => to_owned_string("?"),
    };
    push_str(&mut r, "/");
    match value.str_field("tail") {
        Some(t) => push_str(&mut r, t),
        None => push_str(&mut r, "?"),
    }
    r
}

/// Whether the existing shortcut `e` already uses the tail a new `payload` asks
/// for: same tail up to ASCII case, on the same domain ID, or else the same
/// hostname up to ASCII case.
pub open spec fn occupies(e: JsonValue, payload: JsonValue) -> bool {
    &&& text_field(payload, "tail"@) matches Some(t)
    &&& text_field(e, "tail"@) matches Some(x) && eq_ignore_ascii_case(x, t)
    &&& match text_field(payload, "domainId"@) {
        Some(d) => text_field(e, "domainId"@) == Some(d),
        None => text_field(payload, "domain"@) matches Some(h) && text_field(e, "hostname"@) matches Some(y) && eq_ignore_ascii_case(y, h),
    }
}

fn occupies_exec(e: &JsonValue, payload: &JsonValue, tail: &str) -> (r: bool)
    requires
        text_field(*payload, "tail"@) == Some(tail@),
    ensures
        r == occupies(*e, *payload),
{
    let same_tail = match e.str_field("tail") {
        Some(x) => equal_ignore_ascii_case(x, tail),
        None => false,
    };
    if !same_tail {
        return false;
    }
    if let Some(domain_id) = payload.str_field("domainId") {
        return match e.str_field("domainId") {
            Some(x) => same_text(x, domain_id),
            None => false,
        };
    }
    match payload.str_field("domain") {
        Some(h) => match e.str_field("hostname") {
            Some(y) => equal_ignore_ascii_case(y, h),
            None => false,
        },
        None => false,
    }
}

/// The position of the first existing shortcut whose tail a new shortcut
/// payload would take.
pub fn occupied_tail_index(shortcuts: &[JsonValue], payload: &JsonValue) -> (r: Option<usize>)
    ensures
        r matches Some(i) ==> i < shortcuts@.len() && occupies(shortcuts@[i as int], *payload)
            && forall|j: int| 0 <= j < i ==> !occupies(#[trigger] shortcuts@[j], *payload),
        r is None ==> forall|i: int| 0 <= i < shortcuts@.len() ==> !occupies(#[trigger] shortcuts@[i], *payload),
{
    let tail = match payload.str_field("tail") {
        Some(t) => t,
        None => return None,
    };
    let mut i: usize = 0;
    while i < shortcuts.len()
        invariant
            text_field(*payload, "tail"@) == Some(tail@),
            i <= shortcuts@.len(),
            forall|j: int| 0 <= j < i ==> !occupies(#[trigger] shortcuts@[j], *payload),
        decreases shortcuts.len() - i,
    {
        if occupies_exec(&shortcuts[i], payload, tail) {
            return Some(i);
        }
        i = i + 1;
    }
    None
}

/// The first existing shortcut whose tail a new shortcut payload would take.
pub fn occupied_tail<'a>(shortcuts: &'a [JsonValue], payload: &JsonValue) -> (r: Option<&'a JsonValue>)
    ensures
        r matches Some(x) ==> exists|i: int|
            0 <= i < shortcuts@.len() && shortcuts@[i] == *x && occupies(shortcuts@[i], *payload)
                && forall|j: int| 0 <= j < i ==> !occupies(#[trigger] shortcuts@[j], *payload),
        r is None ==> forall|i: int| 0 <= i < shortcuts@.len() ==> !occupies(#[trigger] shortcuts@[i], *payload),
{
    match occupied_tail_index(shortcuts, payload) {
        Some(i) => Some(&shortcuts[i]),
        None => None,
    }
}

/// The `version` of the shortcut with ID `id` in a shortcut-list payload.
pub open spec fn shortcut_version_of(payload: JsonValue, id: Seq<char>) -> Result<u64, RecordError> {
    match array_of(field(payload, "shortcuts"@)) {
        None => Err(RecordError::MissingShortcuts),
        Some(list) => if exists|i: int| 0 <= i < list.len() && text_field(#[trigger] list[i], "id"@) == Some(id) {
            let i = choose|i: int| 0 <= i < list.len() && text_field(#[trigger] list[i], "id"@) == Some(id) && forall|j: int| 0 <= j < i ==> text_field(#[trigger] list[j], "id"@) != Some(id);
            match u64_of(field(list[i], "version"@)) {
                Some(v) => Ok(v),
                None => Err(RecordError::MissingVersion),
            }
        } else {
            Err(RecordError::ShortcutNotFound)
        },
    }
}

pub fn shortcut_version(payload: &JsonValue, id: &str) -> (r: Result<u64, RecordError>)
    ensures
        r == shortcut_version_of(*payload, id@),
{
    let list = match payload.array_field("shortcuts") {
        Some(l) => l,
        None => return Err(RecordError::MissingShortcuts),
    };
    let mut i: usize = 0;
    while i < list.len()
        invariant
            array_of(field(*payload, "shortcuts"@)) == Some(list@),
            i <= list@.len(),
            forall|j: int| 0 <= j < i ==> text_field(#[trigger] list@[j], "id"@) != Some(id@),
        decreases list.len() - i,
    {
        let hit = match list[i].str_field("id") {
            Some(x) => same_text(x, id),
            None => false,
        };
        if hit {
            proof {
                let l = list@;
                assert(text_field(l[i as int], "id"@) == Some(id@));
                let k = choose|k: int| 0 <= k < l.len() && text_field(#[trigger] l[k], "id"@) == Some(id@) && forall|j: int| 0 <= j < k ==> text_field(#[trigger] l[j], "id"@) != Some(id@);
                if k < i {
                    assert(text_field(l[k], "id"@) != Some(id@));
                } else if k > i {
                    assert(text_field(l[i as int], "id"@) != Some(id@));
                }
            }
            return match list[i].u64_field("version") {
                Some(v) => Ok(v),
                None => Err(RecordError::MissingVersion),
            };
        }
        i = i + 1;
    }
    Err(RecordError::ShortcutNotFound)
}

/// The domain a new shortcut defaults to, and whether others were passed over.
pub struct DefaultDomain {
    pub id: String,
    pub several: bool,
}

/// The first listed domain's ID, when the account owns any.
pub open spec fn default_domain_of(payload: JsonValue) -> Result<(Seq<char>, bool), RecordError> {
    match array_of(field(payload, "domains"@)) {
        None => Err(RecordError::MissingDomains),
        Some(list) => if list.len() == 0 {
            Err(RecordError::NoDomains)
        } else {
            match text_field(list[0], "id"@) {
                Some(id) => Ok((id, list.len() > 1)),
                None => Err(RecordError::DomainWithoutId),
            }
        },
    }
}

pub fn default_domain_id(payload: &JsonValue) -> (r: Result<DefaultDomain, RecordError>)
    ensures
        default_domain_of(*payload) == match r {
            Ok(d) => Ok((d.id@, d.several)),
            Err(e) => Err(e),
        },
{
    let list = match payload.array_field("domains") {
        Some(l) => l,
        None => return Err(RecordError::MissingDomains),
    };
    if list.len() == 0 {
        return Err(RecordError::NoDomains);
    }
    match list[0].str_field("id") {
        Some(id) => Ok(DefaultDomain { id: to_owned_string(id), several: list.len() > 1 }),
        None => Err(RecordError::DomainWithoutId),
    }
}

/// The owner account ID of the first listed domain.
pub open spec fn account_id_of(payload: JsonValue) -> Option<Seq<char>> {
    match array_of(field(payload, "domains"@)) {
        Some(list) => if list.len() > 0 {
            text_field(list[0], "ownerAccountId"@)
        } else {
            None
        },
        None => None,
    }
}

pub fn account_id(payload: &JsonValue) -> (r: Result<String, RecordError>)
    ensures
        match account_id_of(*payload) {
            Some(a) => r matches Ok(s) && s@ == a,
            None => r == Err::<String, RecordError>(RecordError::NoOwnedDomain),
        },
{
    match payload.array_field("domains") {
        Some(list) => if list.len() > 0 {
            match list[0].str_field("ownerAccountId") {
                Some(a) => Ok(to_owned_string(a)),
                None => Err(RecordError::NoOwnedDomain),
            }
        } else {
            Err(RecordError::NoOwnedDomain)
        },
        None => Err(RecordError::NoOwnedDomain),
    }
}

/// Why a search could not run.
#[derive(Debug, PartialEq, Eq)]
pub enum SearchError {
    /// The pattern is not a valid regular expression.
    InvalidPattern,
}

/// Rejects a pattern that is not a valid regular expression.
pub fn check_search_pattern(pattern: &str) -> (r: Result<(), SearchError>)
    ensures
        r is Ok <==> regex_valid(pattern@),
{
    if regex_compiles(pattern) {
        Ok(())
    } else {
        Err(SearchError::InvalidPattern)
    }
}

/// One search result: why it matched, the shortcut, and its target.
pub struct SearchHit {
    pub scope: &'static str,
    pub shortcut: String,
    pub target: String,
}

/// Which fields matched, as printed in the first column.
pub open spec fn scope_text(short_match: bool, target_match: bool) -> Seq<char> {
    if short_match && target_match {
        "shortcut+target"@
    } else if short_match {
        "shortcut"@
    } else {
        "target"@
    }
}

/// The target text of a shortcut record, empty when missing.
pub open spec fn target_text_of(v: JsonValue) -> Seq<char> {
    match text_field(v, "targetUrl"@) {
        Some(t) => t,
        None => Seq::empty(),
    }
}

/// The search result for one shortcut, when the pattern matches its name or target.
pub open spec fn search_hit_of(pattern: Seq<char>, v: JsonValue) -> Option<(Seq<char>, Seq<char>, Seq<char>)> {
    let short = shortcut_name_of(v);
    let target = target_text_of(v);
    let a = regex_matches(pattern, short);
    let b = regex_matches(pattern, target);
    if a || b {
        Some((scope_text(a, b), short, target))
    } else {
        None
    }
}

/// The search results over a list, in order.
pub open spec fn search_hits_of(pattern: Seq<char>, list: Seq<JsonValue>) -> Seq<(Seq<char>, Seq<char>, Seq<char>)>
    decreases list.len(),
{
    if list.len() == 0 {
        Seq::empty()
    } else {
        let rest = search_hits_of(pattern, list.drop_last());
        match search_hit_of(pattern, list.last()) {
            Some(h) => rest.push(h),
            None => rest,
        }
    }
}

pub open spec fn search_hit_view(h: SearchHit) -> (Seq<char>, Seq<char>, Seq<char>) {
    (h.scope@, h.shortcut@, h.target@)
}

/// Shortcuts whose `host/tail` or target the case-insensitive pattern matches.
pub fn search_shortcuts(pattern: &str, shortcuts: &[JsonValue]) -> (r: Result<Vec<SearchHit>, SearchError>)
    ensures
        r is Err <==> !regex_valid(pattern@),
        r matches Ok(hits) ==> hits@.len() == search_hits_of(pattern@, shortcuts@).len() && forall|j: int|
            0 <= j < hits@.len() ==> search_hit_view(#[trigger] hits@[j]) == search_hits_of(pattern@, shortcuts@)[j],
{
    if !regex_compiles(pattern) {
        return Err(SearchError::InvalidPattern);
    }
    let mut hits: Vec<SearchHit> = Vec::new();
    let mut i: usize = 0;
    while i < shortcuts.len()
        invariant
            regex_valid(pattern@),
            i <= shortcuts@.len(),
            hits@.len() == search_hits_of(pattern@, shortcuts@.take(i as int)).len(),
            forall|j: int| 0 <= j < hits@.len() ==> search_hit_view(#[trigger] hits@[j]) == search_hits_of(pattern@, shortcuts@.take(i as int))[j],
        decreases shortcuts.len() - i,
    {
        let s = &shortcuts[i];
        let short = shortcut_name(s);
        let target = match s.str_field("targetUrl") {
            Some(t) => to_owned_string(t),
            None => String::new(),
        };
        let a = match regex_is_match(pattern, short.as_str()) {
            Some(b) => b,
            None => false,
        };
        let b = match regex_is_match(pattern, target.as_str()) {
            Some(b) => b,
            None => false,
        };
        proof {
            assert(shortcuts@.take(i + 1).drop_last() =~= shortcuts@.take(i as int));
            assert(shortcuts@.take(i + 1).last() == shortcuts@[i as int]);
        }
        if a || b {
            let scope = if a && b {
                "shortcut+target"
            } else if a {
                "shortcut"
            } else {
                "target"
            };
            hits.push(SearchHit { scope, shortcut: short, target });
        }
        i = i + 1;
    }
    assert(shortcuts@.take(shortcuts@.len() as int) =~= shortcuts@);
    Ok(hits)
}

} // verus!
